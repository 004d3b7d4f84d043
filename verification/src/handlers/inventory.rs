//! Inventory: the checks of a new item and of a purchase, the entry a
//! purchase posts, the average unit cost, stock adjustments and the value
//! of the stock on hand.
use vstd::prelude::*;
use crate::amount::{Amount, checked_add, decimal_parse, parse_amount, decimal_product, decimal_mul, decimal_quotient, decimal_div, from_int, exact_amount, representable_at, max_scale, int_text, decimal_text, int_to_text, amount_text, lemma_exact_result};
use crate::date::{Date, chrono_parse_date, parse_date_with_format};
use crate::error::{AppError, ErrorView, validation};
use crate::escape::{push_chars, push_str};
use crate::handlers::contacts::{present, present_field};
use crate::journal::{Posting, balanced, account_net, transfer};
use crate::numparse::{i32_text, parse_i32};
use crate::text::{str_to_chars, chars_to_string, trim_seq, trim_string};
use crate::uuid_text::{uuid_parsed, parse_uuid};

verus! {

pub struct NewItemForm {
    pub name: String,
    pub sku: Option<String>,
    pub description: Option<String>,
    pub asset_account_id: String,
    pub cogs_account_id: String,
    pub income_account_id: String,
}

/// The values a new item is stored with.
pub struct NewItem {
    pub name: String,
    pub sku: Option<String>,
    pub description: Option<String>,
    pub asset_account_id: u128,
    pub cogs_account_id: u128,
    pub income_account_id: u128,
}

/// The checks of a new item in order: a name, then the asset, cost of
/// goods sold and income account ids. On success: the three accounts.
pub open spec fn item_checks(f: NewItemForm) -> Result<(u128, u128, u128), Seq<char>> {
    if trim_seq(f.name@).len() == 0 {
        Err("Name is required"@)
    } else {
        match uuid_parsed(f.asset_account_id@) {
            None => Err("Invalid asset account"@),
            Some(a) => match uuid_parsed(f.cogs_account_id@) {
                None => Err("Invalid COGS account"@),
                Some(c) => match uuid_parsed(f.income_account_id@) {
                    None => Err("Invalid income account"@),
                    Some(i) => Ok((a, c, i)),
                },
            },
        }
    }
}

/// The checks of a new item (see `item_checks`); the name is stored
/// trimmed, an empty SKU or description counts as none.
pub fn validate_item(form: &NewItemForm) -> (r: Result<NewItem, AppError>)
    ensures
        match (r, item_checks(*form)) {
            (Ok(it), Ok((a, c, i))) => {
                &&& it.name@ == trim_seq(form.name@)
                &&& it.asset_account_id == a && it.cogs_account_id == c && it.income_account_id == i
                &&& match it.sku {
                    Some(s) => present(form.sku) == Some(s@),
                    None => present(form.sku) is None,
                }
                &&& match it.description {
                    Some(d) => present(form.description) == Some(d@),
                    None => present(form.description) is None,
                }
            },
            (Err(e), Err(m)) => e@ == ErrorView::Validation(m),
            _ => false,
        },
{
    let name = trim_string(form.name.as_str());
    if name.as_str().is_empty() {
        return Err(validation("Name is required"));
    }
    let asset_account_id = match parse_uuid(form.asset_account_id.as_str()) {
        Some(a) => a,
        None => {
            return Err(validation("Invalid asset account"));
        },
    };
    let cogs_account_id = match parse_uuid(form.cogs_account_id.as_str()) {
        Some(a) => a,
        None => {
            return Err(validation("Invalid COGS account"));
        },
    };
    let income_account_id = match parse_uuid(form.income_account_id.as_str()) {
        Some(a) => a,
        None => {
            return Err(validation("Invalid income account"));
        },
    };
    Ok(NewItem {
        name,
        sku: present_field(&form.sku),
        description: present_field(&form.description),
        asset_account_id,
        cogs_account_id,
        income_account_id,
    })
}

/// The checks of a purchase form in order: a quantity that is a whole
/// number, then a unit cost.
pub open spec fn purchase_checks(quantity: Option<String>, unit_cost: Option<String>) -> Result<(i32, Amount), Seq<char>> {
    match quantity {
        None => Err("Missing quantity"@),
        Some(q) => match i32_text(q@) {
            None => Err("Invalid quantity"@),
            Some(n) => match unit_cost {
                None => Err("Missing unit_cost"@),
                Some(c) => match decimal_parse(c@) {
                    Err(_) => Err("Invalid cost"@),
                    Ok((m, s)) => Ok((n, Amount { mantissa: m, scale: s })),
                },
            },
        },
    }
}

/// The quantity and unit cost of a purchase (see `purchase_checks`).
pub fn purchase_inputs(quantity: &Option<String>, unit_cost: &Option<String>) -> (r: Result<(i32, Amount), AppError>)
    ensures
        match (r, purchase_checks(*quantity, *unit_cost)) {
            (Ok((n, c)), Ok((sn, sc))) => n == sn && c == sc && c.wf(),
            (Err(e), Err(m)) => e@ == ErrorView::Validation(m),
            _ => false,
        },
{
    let n = match quantity {
        None => {
            return Err(validation("Missing quantity"));
        },
        Some(q) => match parse_i32(q.as_str()) {
            Some(n) => n,
            None => {
                return Err(validation("Invalid quantity"));
            },
        },
    };
    let c = match unit_cost {
        None => {
            return Err(validation("Missing unit_cost"));
        },
        Some(c) => match parse_amount(c.as_str()) {
            Ok(a) => a,
            Err(_) => {
                return Err(validation("Invalid cost"));
            },
        },
    };
    Ok((n, c))
}

/// The amount of a whole count.
pub open spec fn count_amount(n: i32) -> Amount {
    Amount { mantissa: n as i128, scale: 0 }
}

/// What a purchase posts: its cost, the transaction's description and
/// the legs (the inventory asset account debited, cash credited).
pub struct PurchaseEntry {
    pub total_cost: Amount,
    pub description: String,
    pub postings: Vec<Posting>,
}

pub open spec fn purchase_description(quantity: i32, unit_cost: Amount) -> Seq<char> {
    "Inventory purchase: qty "@ + int_text(quantity as int) + " @ "@ + decimal_text(
        unit_cost.mantissa as int,
        unit_cost.scale as nat,
    )
}

/// The entry of a purchase: unit cost times quantity moved from cash to
/// the inventory asset account (`None` where the product overflows).
pub fn purchase(asset_account: u128, cash_account: u128, quantity: i32, unit_cost: Amount) -> (r: Option<PurchaseEntry>)
    requires
        unit_cost.wf(),
    ensures
        match (r, decimal_product(unit_cost, count_amount(quantity))) {
            (None, None) => true,
            (Some(e), Some(t)) => {
                &&& e.total_cost == t
                &&& e.description@ == purchase_description(quantity, unit_cost)
                &&& e.postings@ == seq![
                    Posting { account: asset_account, amount: t, debit: true },
                    Posting { account: cash_account, amount: t, debit: false },
                ]
                &&& balanced(e.postings@)
            },
            _ => false,
        },
{
    let total = match decimal_mul(unit_cost, from_int(quantity as i64)) {
        Some(t) => t,
        None => {
            return None;
        },
    };
    let mut d = str_to_chars("Inventory purchase: qty ");
    push_chars(&mut d, &int_to_text(quantity as i128));
    push_str(&mut d, " @ ");
    push_chars(&mut d, &amount_text(unit_cost));
    proof {
        reveal_strlit(" @ ");
    }
    Some(PurchaseEntry {
        total_cost: total,
        description: chars_to_string(d.as_slice()),
        postings: transfer(asset_account, cash_account, total),
    })
}

/// The average unit cost of the stock where the division is defined: its
/// value over its quantity, nothing when none is on hand.
pub fn average_unit_cost(total: Amount, quantity: i32) -> (r: Amount)
    requires
        total.wf(),
        quantity > 0 ==> decimal_quotient(total, count_amount(quantity)) is Some,
    ensures
        quantity > 0 ==> Some(r) == decimal_quotient(total, count_amount(quantity)),
        quantity <= 0 ==> r == (Amount { mantissa: 0, scale: 0 }),
        r.wf(),
{
    if quantity > 0 {
        match decimal_div(total, from_int(quantity as i64)) {
            Some(a) => a,
            None => Amount::zero(),
        }
    } else {
        Amount::zero()
    }
}

/// The average unit cost of the stock: its value over its quantity
/// (nothing when none is on hand), or `None` where the division overflows.
pub fn average_unit_cost_checked(total: Amount, quantity: i32) -> (r: Option<Amount>)
    requires
        total.wf(),
    ensures
        r == (if quantity > 0 {
            decimal_quotient(total, count_amount(quantity))
        } else {
            Some(Amount { mantissa: 0, scale: 0 })
        }),
        r matches Some(a) ==> a.wf(),
{
    if quantity > 0 {
        match decimal_div(total, from_int(quantity as i64)) {
            None => None,
            Some(_) => Some(average_unit_cost(total, quantity)),
        }
    } else {
        Some(average_unit_cost(total, quantity))
    }
}

pub struct AdjustmentForm {
    pub quantity: i32,
    pub reason: String,
    pub adjustment_date: String,
}

/// What a stock adjustment changes: the quantity on hand and the entry.
pub struct AdjustmentPlan {
    pub adjustment_date: Date,
    pub new_quantity: i32,
    pub description: String,
    pub postings: Vec<Posting>,
}

/// The legs of an adjustment worth `diff`: an increase moves it from cost
/// of goods sold to the inventory asset account, a decrease moves its
/// size back, and nothing is posted for no change.
pub open spec fn adjustment_legs(diff: Amount, asset: u128, cogs: u128) -> Seq<Posting> {
    if diff.value() > 0 {
        seq![Posting { account: asset, amount: diff, debit: true }, Posting { account: cogs, amount: diff, debit: false }]
    } else if diff.value() < 0 {
        seq![
            Posting { account: cogs, amount: diff.neg_spec(), debit: true },
            Posting { account: asset, amount: diff.neg_spec(), debit: false },
        ]
    } else {
        Seq::empty()
    }
}

/// A stock adjustment: the date must be `YYYY-MM-DD` and the stock may not
/// go below zero; the change is valued at the unit cost. `None` where the
/// computation overflows (the new quantity or the value).
pub fn adjust(
    form: &AdjustmentForm,
    on_hand: i32,
    unit_cost: Amount,
    asset_account: u128,
    cogs_account: u128,
) -> (r: Option<Result<AdjustmentPlan, AppError>>)
    requires
        unit_cost.wf(),
    ensures
        match chrono_parse_date(form.adjustment_date@, "%Y-%m-%d"@) {
            Err(_) => r matches Some(Err(e)) && e@ == ErrorView::Validation("Invalid date"@),
            Ok((y, m, d)) => {
                let q = on_hand + form.quantity;
                if q < i32::MIN || q > i32::MAX {
                    r is None
                } else if q < 0 {
                    r matches Some(Err(e)) && e@ == ErrorView::Validation("Cannot reduce below 0"@)
                } else {
                    match decimal_product(count_amount(form.quantity), unit_cost) {
                        None => r is None,
                        Some(diff) => r matches Some(Ok(p)) && p.adjustment_date == (Date {
                            year: y,
                            month: m,
                            day: d,
                        }) && p.new_quantity == q && p.description@ == "Inventory adjustment: "@
                            + form.reason@ && p.postings@ == adjustment_legs(diff, asset_account, cogs_account)
                            && balanced(p.postings@) && (asset_account != cogs_account ==> account_net(
                            p.postings@,
                            asset_account,
                        ) == diff.value()),
                    }
                }
            },
        },
{
    let date = match parse_date_with_format(form.adjustment_date.as_str(), "%Y-%m-%d") {
        Ok(d) => d,
        Err(_) => {
            return Some(Err(validation("Invalid date")));
        },
    };
    let q: i64 = on_hand as i64 + form.quantity as i64;
    if q < i32::MIN as i64 || q > i32::MAX as i64 {
        return None;
    }
    if q < 0 {
        return Some(Err(validation("Cannot reduce below 0")));
    }
    let diff = match decimal_mul(from_int(form.quantity as i64), unit_cost) {
        Some(d) => d,
        None => {
            return None;
        },
    };
    let postings = if diff.is_positive() {
        transfer(asset_account, cogs_account, diff)
    } else if diff.is_negative() {
        transfer(cogs_account, asset_account, diff.neg())
    } else {
        let e: Vec<Posting> = Vec::new();
        proof {
            assert(e@ =~= Seq::<Posting>::empty());
            assert(balanced(e@));
        }
        e
    };
    let mut desc = str_to_chars("Inventory adjustment: ");
    push_chars(&mut desc, &str_to_chars(form.reason.as_str()));
    Some(
        Ok(AdjustmentPlan {
            adjustment_date: date,
            new_quantity: q as i32,
            description: chars_to_string(desc.as_slice()),
            postings,
        }),
    )
}

/// An item as counted for the valuation.
#[derive(Clone, Copy)]
pub struct StockLine {
    pub quantity_on_hand: i32,
    pub unit_cost: Amount,
}

/// The value of the stock: the sum of quantity times unit cost, `None`
/// where a product overflows or a partial sum has no exact representation.
pub open spec fn stock_value(items: Seq<StockLine>) -> Option<Amount>
    decreases items.len(),
{
    if items.len() == 0 {
        Some(Amount { mantissa: 0, scale: 0 })
    } else {
        match stock_value(items.drop_last()) {
            None => None,
            Some(t) => match decimal_product(count_amount(items.last().quantity_on_hand), items.last().unit_cost) {
                None => None,
                Some(p) => if representable_at(t.value() + p.value(), max_scale(t, p) as nat) {
                    Some(exact_amount(t.value() + p.value(), max_scale(t, p)))
                } else {
                    None
                },
            },
        }
    }
}

/// The value of the active stock (see `stock_value`).
pub fn valuation(items: &Vec<StockLine>) -> (r: Option<Amount>)
    requires
        forall|i: int| 0 <= i < items@.len() ==> (#[trigger] items@[i]).unit_cost.wf(),
    ensures
        r == stock_value(items@),
        r matches Some(a) ==> a.wf(),
{
    let mut total = Amount::zero();
    assert(items@.subrange(0, 0) =~= Seq::<StockLine>::empty());
    for i in 0..items.len()
        invariant
            forall|j: int| 0 <= j < items@.len() ==> (#[trigger] items@[j]).unit_cost.wf(),
            total.wf(),
            stock_value(items@.subrange(0, i as int)) == Some(total),
    {
        let ghost pre = items@.subrange(0, i + 1);
        assert(pre.drop_last() =~= items@.subrange(0, i as int));
        assert(pre.last() == items@[i as int]);
        let line = items[i];
        let p = match decimal_mul(from_int(line.quantity_on_hand as i64), line.unit_cost) {
            Some(p) => p,
            None => {
                proof {
                    lemma_stock_none_stays(items@, i + 1);
                }
                return None;
            },
        };
        match checked_add(total, p) {
            Some(t) => {
                proof {
                    lemma_exact_result(t, total.value() + p.value(), max_scale(total, p));
                }
                total = t;
            },
            None => {
                proof {
                    lemma_stock_none_stays(items@, i + 1);
                }
                return None;
            },
        }
    }
    assert(items@.subrange(0, items@.len() as int) =~= items@);
    Some(total)
}

proof fn lemma_stock_none_stays(items: Seq<StockLine>, k: int)
    requires
        0 <= k <= items.len(),
        stock_value(items.subrange(0, k)) is None,
    ensures
        stock_value(items) is None,
    decreases items.len() - k,
{
    if k < items.len() {
        assert(items.subrange(0, k + 1).drop_last() =~= items.subrange(0, k));
        lemma_stock_none_stays(items, k + 1);
    } else {
        assert(items.subrange(0, k) =~= items);
    }
}

} // verus!
