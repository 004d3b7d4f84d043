//! Fixed assets: the checks of a new asset, one month of straight-line
//! depreciation, and the annual depreciation and net book value.
use vstd::prelude::*;
use crate::amount::{
    Amount, checked_add, checked_sub, compare_amounts, decimal_parse, parse_amount, decimal_quotient,
    decimal_div, from_int, exact_amount, representable_at, max_scale, lemma_exact_result,
    lemma_exact_amount, lemma_zero_value,
};
use crate::date::{Date, chrono_parse_date, parse_date_with_format};
use crate::error::{AppError, ErrorView, validation};
use crate::handlers::contacts::{present, present_field};
use crate::numparse::{i32_text, parse_i32};
use crate::text::{str_equal, trim_seq, trim_string};
use crate::uuid_text::{uuid_parsed, parse_uuid};

verus! {

pub struct NewAssetForm {
    pub name: String,
    pub description: Option<String>,
    pub account_id: String,
    pub purchase_date: String,
    pub purchase_cost: String,
    pub salvage_value: Option<String>,
    pub useful_life_years: String,
    pub depreciation_method: String,
}

/// The values a new asset is stored with.
pub struct NewAsset {
    pub name: String,
    pub description: Option<String>,
    pub account_id: u128,
    pub purchase_date: Date,
    pub purchase_cost: Amount,
    pub salvage_value: Amount,
    pub useful_life_years: i32,
    pub depreciation_method: String,
}

/// The salvage value as sent; a missing one reads as `0`.
pub open spec fn salvage_text(s: Option<String>) -> Seq<char> {
    match s {
        Some(t) => t@,
        None => "0"@,
    }
}

pub open spec fn is_depreciation_method(m: Seq<char>) -> bool {
    m == "straight_line"@ || m == "declining_balance"@
}

/// The checks of a new asset in order, each with its message: a name, an
/// account id, a cost, a salvage value, a useful life that is a positive
/// whole number of years, a known method and a `YYYY-MM-DD` purchase date.
/// On success: the account, cost, salvage value, life and date.
pub open spec fn asset_checks(f: NewAssetForm) -> Result<(u128, Amount, Amount, i32, Date), Seq<char>> {
    if trim_seq(f.name@).len() == 0 {
        Err("Name is required"@)
    } else {
        match uuid_parsed(f.account_id@) {
            None => Err("Invalid account"@),
            Some(acc) => match decimal_parse(f.purchase_cost@) {
                Err(_) => Err("Invalid cost"@),
                Ok((cm, cs)) => match decimal_parse(salvage_text(f.salvage_value)) {
                    Err(_) => Err("Invalid salvage"@),
                    Ok((sm, ss)) => match i32_text(f.useful_life_years@) {
                        None => Err("Invalid life"@),
                        Some(life) => if life <= 0 {
                            Err("Life must be > 0"@)
                        } else if !is_depreciation_method(f.depreciation_method@) {
                            Err("Invalid method"@)
                        } else {
                            match chrono_parse_date(f.purchase_date@, "%Y-%m-%d"@) {
                                Err(_) => Err("Invalid date"@),
                                Ok((y, m, d)) => Ok(
                                    (
                                        acc,
                                        Amount { mantissa: cm, scale: cs },
                                        Amount { mantissa: sm, scale: ss },
                                        life,
                                        Date { year: y, month: m, day: d },
                                    ),
                                ),
                            }
                        },
                    },
                },
            },
        }
    }
}

/// The checks of a new asset (see `asset_checks`); the name is stored
/// trimmed and an empty description counts as none.
pub fn validate_asset(form: &NewAssetForm) -> (r: Result<NewAsset, AppError>)
    ensures
        match (r, asset_checks(*form)) {
            (Ok(a), Ok((acc, cost, salvage, life, date))) => {
                &&& a.name@ == trim_seq(form.name@)
                &&& a.account_id == acc
                &&& a.purchase_cost == cost
                &&& a.salvage_value == salvage
                &&& a.useful_life_years == life
                &&& a.purchase_date == date
                &&& a.depreciation_method@ == form.depreciation_method@
                &&& a.purchase_cost.wf() && a.salvage_value.wf()
                &&& match a.description {
                    Some(d) => present(form.description) == Some(d@),
                    None => present(form.description) is None,
                }
            },
            (Err(e), Err(m)) => e@ == ErrorView::Validation(m),
            _ => false,
        },
{
    let name = trim_string(form.name.as_str());
    if name.as_str().is_empty() {
        return Err(validation("Name is required"));
    }
    let account_id = match parse_uuid(form.account_id.as_str()) {
        Some(a) => a,
        None => {
            return Err(validation("Invalid account"));
        },
    };
    let purchase_cost = match parse_amount(form.purchase_cost.as_str()) {
        Ok(a) => a,
        Err(_) => {
            return Err(validation("Invalid cost"));
        },
    };
    let salvage = match &form.salvage_value {
        Some(s) => parse_amount(s.as_str()),
        None => parse_amount("0"),
    };
    let salvage_value = match salvage {
        Ok(a) => a,
        Err(_) => {
            return Err(validation("Invalid salvage"));
        },
    };
    let life = match parse_i32(form.useful_life_years.as_str()) {
        Some(n) => n,
        None => {
            return Err(validation("Invalid life"));
        },
    };
    if life <= 0 {
        return Err(validation("Life must be > 0"));
    }
    let m = form.depreciation_method.as_str();
    if !(str_equal(m, "straight_line") || str_equal(m, "declining_balance")) {
        return Err(validation("Invalid method"));
    }
    let purchase_date = match parse_date_with_format(form.purchase_date.as_str(), "%Y-%m-%d") {
        Ok(d) => d,
        Err(_) => {
            return Err(validation("Invalid date"));
        },
    };
    Ok(NewAsset {
        name,
        description: present_field(&form.description),
        account_id,
        purchase_date,
        purchase_cost,
        salvage_value,
        useful_life_years: life,
        depreciation_method: form.depreciation_method.clone(),
    })
}

/// The disposal of an asset: the date it left (`YYYY-MM-DD`; a missing
/// one reads as empty and is refused) and the amount it went for.
pub fn dispose(disposed_date: &Option<String>, disposed_amount: &Option<String>) -> (r: Result<(Date, Amount), AppError>)
    ensures
        match chrono_parse_date(
            match disposed_date {
                Some(d) => d@,
                None => Seq::empty(),
            },
            "%Y-%m-%d"@,
        ) {
            Err(_) => r matches Err(e) && e@ == ErrorView::Validation("Invalid date"@),
            Ok((y, m, d)) => match disposed_amount {
                None => r matches Err(e) && e@ == ErrorView::Validation("Missing amount"@),
                Some(a) => match decimal_parse(a@) {
                    Err(_) => r matches Err(e) && e@ == ErrorView::Validation("Invalid amount"@),
                    Ok((am, sc)) => r == Ok::<(Date, Amount), AppError>(
                        (Date { year: y, month: m, day: d }, Amount { mantissa: am, scale: sc }),
                    ),
                },
            },
        },
{
    proof {
        reveal_strlit("");
        assert(""@ =~= Seq::<char>::empty());
    }
    let parsed = match disposed_date {
        Some(d) => parse_date_with_format(d.as_str(), "%Y-%m-%d"),
        None => parse_date_with_format("", "%Y-%m-%d"),
    };
    let date = match parsed {
        Ok(d) => d,
        Err(_) => {
            return Err(validation("Invalid date"));
        },
    };
    let raw = match disposed_amount {
        Some(a) => a,
        None => {
            return Err(validation("Missing amount"));
        },
    };
    match parse_amount(raw.as_str()) {
        Ok(a) => Ok((date, a)),
        Err(_) => Err(validation("Invalid amount")),
    }
}

/// An asset's depreciation figures as stored.
pub struct AssetBook {
    pub purchase_cost: Amount,
    pub salvage_value: Amount,
    pub useful_life_years: i32,
    pub accumulated: Amount,
    pub status: String,
}

pub open spec fn book_wf(b: AssetBook) -> bool {
    b.purchase_cost.wf() && b.salvage_value.wf() && b.accumulated.wf()
}

/// The part of the cost that is depreciated: cost less salvage value.
pub open spec fn depreciable_value(b: AssetBook) -> int {
    b.purchase_cost.value() - b.salvage_value.value()
}

pub open spec fn is_closed_status(s: Seq<char>) -> bool {
    s == "disposed"@ || s == "fully_depreciated"@
}

/// One month of depreciation.
pub struct DepreciationStep {
    /// What is added to the accumulated depreciation.
    pub to_add: Amount,
    /// The accumulated depreciation afterwards.
    pub new_total: Amount,
    /// The accumulated depreciation has reached the depreciable amount.
    pub fully_depreciated: bool,
}

impl DepreciationStep {
    /// The asset's status afterwards.
    pub fn new_status(&self) -> (r: &'static str)
        ensures
            r@ == (if self.fully_depreciated {
                "fully_depreciated"@
            } else {
                "active"@
            }),
    {
        if self.fully_depreciated {
            "fully_depreciated"
        } else {
            "active"
        }
    }
}

pub enum StepOutcome {
    /// A disposed or fully depreciated asset is not depreciated.
    Refused,
    /// The month count or the quotient overflows, or an exact difference
    /// or sum has no representation.
    Undefined,
    Step { to_add: Amount, new_total: Amount, fully: bool },
}

/// A month of straight-line depreciation: the depreciable amount spread
/// over the months of the useful life (nothing when there are none), but
/// never more than what is left to depreciate.
pub open spec fn step_outcome(b: AssetBook) -> StepOutcome {
    if is_closed_status(b.status@) {
        StepOutcome::Refused
    } else {
        let dv = depreciable_value(b);
        let ds = max_scale(b.purchase_cost, b.salvage_value);
        let months = b.useful_life_years * 12;
        if !representable_at(dv, ds as nat) || months > i32::MAX || months < i32::MIN {
            StepOutcome::Undefined
        } else {
            let dep = exact_amount(dv, ds);
            let monthly = if months > 0 {
                decimal_quotient(dep, Amount { mantissa: months as i128, scale: 0 })
            } else {
                Some(Amount { mantissa: 0, scale: 0 })
            };
            match monthly {
                None => StepOutcome::Undefined,
                Some(q) => {
                    let mv = dv - b.accumulated.value();
                    let ms = max_scale(dep, b.accumulated);
                    if !representable_at(mv, ms as nat) {
                        StepOutcome::Undefined
                    } else {
                        let to_add = if q.value() < mv {
                            q
                        } else {
                            exact_amount(mv, ms)
                        };
                        let nv = b.accumulated.value() + to_add.value();
                        let ns = max_scale(b.accumulated, to_add);
                        if !representable_at(nv, ns as nat) {
                            StepOutcome::Undefined
                        } else {
                            StepOutcome::Step { to_add, new_total: exact_amount(nv, ns), fully: nv >= dv }
                        }
                    }
                },
            }
        }
    }
}

/// A month of depreciation (see `step_outcome`), or `None` where it is
/// undefined. The accumulated depreciation never passes the depreciable
/// amount.
pub fn calculate_depreciation_checked(b: &AssetBook) -> (r: Option<Result<DepreciationStep, AppError>>)
    requires
        book_wf(*b),
    ensures
        match (r, step_outcome(*b)) {
            (None, StepOutcome::Undefined) => true,
            (Some(Err(e)), StepOutcome::Refused) => e@ == ErrorView::Validation(
                "Asset cannot be depreciated"@,
            ),
            (Some(Ok(s)), StepOutcome::Step { to_add, new_total, fully }) => s.to_add == to_add
                && s.new_total == new_total && s.fully_depreciated == fully,
            _ => false,
        },
        r matches Some(Ok(s)) ==> s.new_total.value() <= depreciable_value(*b) && s.new_total.value()
            == b.accumulated.value() + s.to_add.value() && s.new_total.wf(),
{
    let st = b.status.as_str();
    if str_equal(st, "disposed") || str_equal(st, "fully_depreciated") {
        return Some(Err(validation("Asset cannot be depreciated")));
    }
    let ghost dv = depreciable_value(*b);
    let ghost ds = max_scale(b.purchase_cost, b.salvage_value);
    let dep = match checked_sub(b.purchase_cost, b.salvage_value) {
        Some(d) => d,
        None => {
            return None;
        },
    };
    proof {
        lemma_exact_result(dep, dv, ds);
    }
    assert(dep == exact_amount(dv, ds));
    let months: i64 = b.useful_life_years as i64 * 12;
    if months > i32::MAX as i64 || months < i32::MIN as i64 {
        return None;
    }
    let monthly = if months > 0 {
        match decimal_div(dep, from_int(months)) {
            Some(q) => q,
            None => {
                return None;
            },
        }
    } else {
        Amount::zero()
    };
    let max_additional = match checked_sub(dep, b.accumulated) {
        Some(m) => m,
        None => {
            return None;
        },
    };
    proof {
        lemma_exact_result(max_additional, dv - b.accumulated.value(), max_scale(dep, b.accumulated));
    }
    let to_add = if compare_amounts(monthly, max_additional) < 0 {
        monthly
    } else {
        max_additional
    };
    let new_total = match checked_add(b.accumulated, to_add) {
        Some(t) => t,
        None => {
            return None;
        },
    };
    proof {
        lemma_exact_result(new_total, b.accumulated.value() + to_add.value(), max_scale(b.accumulated, to_add));
    }
    let fully = compare_amounts(new_total, dep) >= 0;
    Some(Ok(DepreciationStep { to_add, new_total, fully_depreciated: fully }))
}

/// A month of depreciation where it is defined (see `step_outcome`).
pub fn calculate_depreciation(b: &AssetBook) -> (r: Result<DepreciationStep, AppError>)
    requires
        book_wf(*b),
        !(step_outcome(*b) is Undefined),
    ensures
        match (r, step_outcome(*b)) {
            (Err(e), StepOutcome::Refused) => e@ == ErrorView::Validation("Asset cannot be depreciated"@),
            (Ok(s), StepOutcome::Step { to_add, new_total, fully }) => s.to_add == to_add && s.new_total
                == new_total && s.fully_depreciated == fully,
            _ => false,
        },
        r matches Ok(s) ==> s.new_total.value() <= depreciable_value(*b),
{
    match calculate_depreciation_checked(b) {
        Some(x) => x,
        None => Err(validation("Asset cannot be depreciated")),
    }
}

/// What the annual depreciation is: nothing for a life of no years, else
/// cost less salvage divided by the years (`None` where the quotient
/// overflows or the difference has no exact representation).
pub open spec fn annual_outcome(cost: Amount, salvage: Amount, life: i32) -> Option<Amount> {
    if life <= 0 {
        Some(Amount { mantissa: 0, scale: 0 })
    } else if !representable_at(cost.value() - salvage.value(), max_scale(cost, salvage) as nat) {
        None
    } else {
        decimal_quotient(
            exact_amount(cost.value() - salvage.value(), max_scale(cost, salvage)),
            Amount { mantissa: life as i128, scale: 0 },
        )
    }
}

/// The annual straight-line depreciation (see `annual_outcome`).
pub fn annual_depreciation_checked(cost: Amount, salvage: Amount, life: i32) -> (r: Option<Amount>)
    requires
        cost.wf(),
        salvage.wf(),
    ensures
        r == annual_outcome(cost, salvage, life),
        r matches Some(a) ==> a.wf(),
{
    if life <= 0 {
        return Some(Amount::zero());
    }
    let dep = match checked_sub(cost, salvage) {
        Some(d) => d,
        None => {
            return None;
        },
    };
    proof {
        lemma_exact_result(dep, cost.value() - salvage.value(), max_scale(cost, salvage));
    }
    decimal_div(dep, from_int(life as i64))
}

/// The annual straight-line depreciation where it is defined.
pub fn annual_depreciation(cost: Amount, salvage: Amount, life: i32) -> (r: Amount)
    requires
        cost.wf(),
        salvage.wf(),
        annual_outcome(cost, salvage, life) is Some,
    ensures
        Some(r) == annual_outcome(cost, salvage, life),
        r.wf(),
        life <= 0 ==> r.value() == 0,
{
    proof {
        lemma_zero_value();
    }
    match annual_depreciation_checked(cost, salvage, life) {
        Some(a) => a,
        None => Amount::zero(),
    }
}

/// Cost less accumulated depreciation.
pub fn net_book_value(cost: Amount, accumulated: Amount) -> (r: Amount)
    requires
        cost.wf(),
        accumulated.wf(),
        representable_at(cost.value() - accumulated.value(), max_scale(cost, accumulated) as nat),
    ensures
        r.wf(),
        r.value() == cost.value() - accumulated.value(),
        r.scale == max_scale(cost, accumulated),
{
    match checked_sub(cost, accumulated) {
        Some(v) => v,
        None => Amount::zero(),
    }
}

/// After a month of depreciation the accumulated depreciation is at most
/// the depreciable amount, and the asset is fully depreciated exactly when
/// it has reached it.
pub proof fn lemma_depreciation_bounded(b: AssetBook)
    requires
        book_wf(b),
        step_outcome(b) is Step,
    ensures
        step_outcome(b) matches StepOutcome::Step { to_add: _, new_total, fully } && new_total.value()
            <= depreciable_value(b) && (fully <==> new_total.value() == depreciable_value(b)),
{
    let dv = depreciable_value(b);
    let ds = max_scale(b.purchase_cost, b.salvage_value);
    let dep = exact_amount(dv, ds);
    let mv = dv - b.accumulated.value();
    let ms = max_scale(dep, b.accumulated);
    lemma_exact_amount(mv, ms);
    if let StepOutcome::Step { to_add, new_total, fully } = step_outcome(b) {
        let nv = b.accumulated.value() + to_add.value();
        lemma_exact_amount(nv, max_scale(b.accumulated, to_add));
    }
}

} // verus!
