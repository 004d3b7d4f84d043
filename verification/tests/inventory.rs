use openaccounting::amount::{amount_to_string, Amount};
use openaccounting::date::Date;
use openaccounting::error::AppError;
use openaccounting::handlers::inventory::{
    adjust, average_unit_cost, average_unit_cost_checked, valuation, purchase,
    purchase_inputs, validate_item, AdjustmentForm, NewItemForm, StockLine,
};

const ASSET: u128 = 11;
const COGS: u128 = 22;
const CASH: u128 = 33;

fn amt(mantissa: i128, scale: u32) -> Amount {
    Amount { mantissa, scale }
}

fn validation_of<T>(r: Result<T, AppError>) -> String {
    match r {
        Err(AppError::Validation(m)) => m,
        Err(e) => panic!("unexpected error {:?}", e),
        Ok(_) => panic!("expected a validation error"),
    }
}

fn item_form() -> NewItemForm {
    NewItemForm {
        name: " Widget ".to_string(),
        sku: Some("W-1".to_string()),
        description: Some(String::new()),
        asset_account_id: "00000000-0000-0000-0000-00000000000b".to_string(),
        cogs_account_id: "00000000-0000-0000-0000-000000000016".to_string(),
        income_account_id: "00000000-0000-0000-0000-000000000021".to_string(),
    }
}

#[test]
fn new_item_is_checked() {
    let it = match validate_item(&item_form()) {
        Ok(it) => it,
        Err(e) => panic!("{:?}", e),
    };
    assert_eq!(it.name, "Widget");
    assert_eq!(it.sku, Some("W-1".to_string()));
    assert_eq!(it.description, None);
    assert_eq!((it.asset_account_id, it.cogs_account_id, it.income_account_id), (11, 22, 33));
}

#[test]
fn new_item_errors_name_each_account() {
    let mut f = item_form();
    f.name = String::new();
    assert_eq!(validation_of(validate_item(&f)), "Name is required");
    let mut f = item_form();
    f.asset_account_id = "x".to_string();
    assert_eq!(validation_of(validate_item(&f)), "Invalid asset account");
    let mut f = item_form();
    f.cogs_account_id = "x".to_string();
    assert_eq!(validation_of(validate_item(&f)), "Invalid COGS account");
    let mut f = item_form();
    f.income_account_id = "x".to_string();
    assert_eq!(validation_of(validate_item(&f)), "Invalid income account");
}

#[test]
fn purchase_form_errors() {
    let some = |s: &str| Some(s.to_string());
    assert_eq!(validation_of(purchase_inputs(&None, &some("1"))), "Missing quantity");
    assert_eq!(validation_of(purchase_inputs(&some("1.5"), &some("1"))), "Invalid quantity");
    assert_eq!(validation_of(purchase_inputs(&some("2"), &None)), "Missing unit_cost");
    assert_eq!(validation_of(purchase_inputs(&some("2"), &some("abc"))), "Invalid cost");
    match purchase_inputs(&some("3"), &some("2.50")) {
        Ok((q, c)) => {
            assert_eq!(q, 3);
            assert_eq!(c, amt(250, 2));
        }
        Err(e) => panic!("{:?}", e),
    }
}

#[test]
fn purchase_moves_its_cost_from_cash_to_inventory() {
    let e = match purchase(ASSET, CASH, 3, amt(250, 2)) {
        Some(e) => e,
        None => panic!("no overflow expected"),
    };
    assert_eq!(amount_to_string(e.total_cost), "7.50");
    assert_eq!(e.description, "Inventory purchase: qty 3 @ 2.50");
    assert_eq!(e.postings.len(), 2);
    assert_eq!((e.postings[0].account, e.postings[0].debit), (ASSET, true));
    assert_eq!((e.postings[1].account, e.postings[1].debit), (CASH, false));
    assert_eq!(e.postings[0].amount, e.postings[1].amount);
}

#[test]
fn average_unit_cost_divides_value_by_quantity() {
    assert_eq!(amount_to_string(average_unit_cost(amt(750, 2), 3)), "2.50");
    assert_eq!(average_unit_cost(amt(750, 2), 0), amt(0, 0));
    assert_eq!(average_unit_cost_checked(amt(750, 2), -4), Some(amt(0, 0)));
}

fn adj(quantity: i32, date: &str) -> AdjustmentForm {
    AdjustmentForm { quantity, reason: "count".to_string(), adjustment_date: date.to_string() }
}

#[test]
fn adjustment_up_and_down() {
    let up = match adjust(&adj(4, "2026-02-01"), 10, amt(250, 2), ASSET, COGS) {
        Some(Ok(p)) => p,
        _ => panic!("expected a plan"),
    };
    assert_eq!(up.new_quantity, 14);
    assert_eq!(up.adjustment_date, Date { year: 2026, month: 2, day: 1 });
    assert_eq!(up.description, "Inventory adjustment: count");
    assert_eq!((up.postings[0].account, up.postings[0].debit), (ASSET, true));
    assert_eq!((up.postings[1].account, up.postings[1].debit), (COGS, false));
    assert_eq!(amount_to_string(up.postings[0].amount), "10.00");

    let down = match adjust(&adj(-2, "2026-02-01"), 10, amt(250, 2), ASSET, COGS) {
        Some(Ok(p)) => p,
        _ => panic!("expected a plan"),
    };
    assert_eq!(down.new_quantity, 8);
    assert_eq!((down.postings[0].account, down.postings[0].debit), (COGS, true));
    assert_eq!((down.postings[1].account, down.postings[1].debit), (ASSET, false));
    assert_eq!(amount_to_string(down.postings[1].amount), "5.00");

    let none = match adjust(&adj(0, "2026-02-01"), 10, amt(250, 2), ASSET, COGS) {
        Some(Ok(p)) => p,
        _ => panic!("expected a plan"),
    };
    assert!(none.postings.is_empty());
}

#[test]
fn adjustment_refusals() {
    match adjust(&adj(-11, "2026-02-01"), 10, amt(250, 2), ASSET, COGS) {
        Some(Err(AppError::Validation(m))) => assert_eq!(m, "Cannot reduce below 0"),
        _ => panic!("expected a refusal"),
    }
    match adjust(&adj(1, "yesterday"), 10, amt(250, 2), ASSET, COGS) {
        Some(Err(AppError::Validation(m))) => assert_eq!(m, "Invalid date"),
        _ => panic!("expected a refusal"),
    }
    assert!(adjust(&adj(i32::MAX, "2026-02-01"), 10, amt(250, 2), ASSET, COGS).is_none());
}

#[test]
fn stock_value_sums_quantity_times_cost() {
    let items = vec![
        StockLine { quantity_on_hand: 3, unit_cost: amt(250, 2) },
        StockLine { quantity_on_hand: 2, unit_cost: amt(1, 0) },
    ];
    assert_eq!(amount_to_string(valuation(&items).unwrap()), "9.50");
    assert_eq!(valuation(&Vec::new()), Some(amt(0, 0)));
}
