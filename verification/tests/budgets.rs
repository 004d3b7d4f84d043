use openaccounting::amount::{amount_to_string, Amount};
use openaccounting::date::Date;
use openaccounting::error::AppError;
use openaccounting::handlers::budgets::{check_alerts, budget_variance, validate_budget, NewBudgetForm};

fn amt(mantissa: i128, scale: u32) -> Amount {
    Amount { mantissa, scale }
}

fn validation_of<T>(r: Result<T, AppError>) -> String {
    match r {
        Err(AppError::Validation(m)) => m,
        Err(e) => panic!("unexpected error {:?}", e),
        Ok(_) => panic!("expected a validation error"),
    }
}

fn form() -> NewBudgetForm {
    NewBudgetForm {
        account_id: "00000000-0000-0000-0000-000000000003".to_string(),
        period: "monthly".to_string(),
        amount: "1000".to_string(),
        alert_threshold: None,
        start_date: "2026-01-01".to_string(),
        end_date: "2026-12-31".to_string(),
    }
}

#[test]
fn new_budget_defaults_its_threshold() {
    let b = match validate_budget(&form()) {
        Ok(b) => b,
        Err(e) => panic!("{:?}", e),
    };
    assert_eq!(b.account_id, 3);
    assert_eq!(b.period, "monthly");
    assert_eq!(amount_to_string(b.amount), "1000");
    assert_eq!(amount_to_string(b.alert_threshold), "0.8");
    assert_eq!(b.start_date, Date { year: 2026, month: 1, day: 1 });
    assert_eq!(b.end_date, Date { year: 2026, month: 12, day: 31 });
}

#[test]
fn new_budget_errors() {
    let mut f = form();
    f.account_id = "?".to_string();
    assert_eq!(validation_of(validate_budget(&f)), "Invalid account");
    let mut f = form();
    f.amount = "lots".to_string();
    assert_eq!(validation_of(validate_budget(&f)), "Invalid amount");
    let mut f = form();
    f.alert_threshold = Some("high".to_string());
    assert_eq!(validation_of(validate_budget(&f)), "Invalid threshold");
    let mut f = form();
    f.period = "weekly".to_string();
    assert_eq!(validation_of(validate_budget(&f)), "Invalid period");
    let mut f = form();
    f.start_date = "".to_string();
    assert_eq!(validation_of(validate_budget(&f)), "Invalid start date");
    let mut f = form();
    f.end_date = "".to_string();
    assert_eq!(validation_of(validate_budget(&f)), "Invalid end date");
    let mut f = form();
    f.end_date = "2025-12-31".to_string();
    assert_eq!(validation_of(validate_budget(&f)), "End date must be after start date");
    let mut f = form();
    f.end_date = "2026-01-01".to_string();
    assert!(validate_budget(&f).is_ok());
}

#[test]
fn variance_and_its_percentage() {
    let v = budget_variance(amt(1000, 0), amt(250, 0)).unwrap();
    assert_eq!(amount_to_string(v.variance), "750");
    assert_eq!(amount_to_string(v.variance_pct), "75.00");
    let over = budget_variance(amt(1000, 0), amt(1200, 0)).unwrap();
    assert_eq!(amount_to_string(over.variance), "-200");
    assert_eq!(amount_to_string(over.variance_pct), "-20.00");
    let none = budget_variance(amt(0, 0), amt(50, 0)).unwrap();
    assert_eq!(amount_to_string(none.variance), "-50");
    assert_eq!(none.variance_pct, amt(0, 0));
}

#[test]
fn alerts_fire_from_the_threshold_on() {
    let a = check_alerts("Travel", amt(1000, 0), amt(850, 0), amt(8, 1)).unwrap().unwrap();
    assert_eq!(amount_to_string(a.ratio), "0.85");
    assert_eq!(a.message, "Travel: 85.0% of budget used (850.00 / 1000.00)");
    assert!(check_alerts("Travel", amt(1000, 0), amt(700, 0), amt(8, 1)).unwrap().is_none());
    assert!(check_alerts("Travel", amt(1000, 0), amt(800, 0), amt(8, 1)).unwrap().is_some());
    assert!(check_alerts("Travel", amt(0, 0), amt(800, 0), amt(8, 1)).unwrap().is_none());
}
