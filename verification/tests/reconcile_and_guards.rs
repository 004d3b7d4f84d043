use openaccounting::amount::{amount_to_string, line_amount, Amount};
use openaccounting::date::Date;
use openaccounting::error::AppError;
use openaccounting::handlers::admin::require_admin;
use openaccounting::handlers::amortization::skip_period;
use openaccounting::handlers::dashboard_layout::budget_burn;
use openaccounting::handlers::rec_sessions::finish_decision;
use openaccounting::handlers::reconciliation::{is_duplicate, StatementRow, StoredStatementLine};

fn amt(mantissa: i128, scale: u32) -> Amount {
    Amount { mantissa, scale }
}

fn d(year: i32, month: u32, day: u32) -> Date {
    Date { year, month, day }
}

#[test]
fn session_finishes_only_at_zero_difference() {
    assert_eq!(finish_decision("open", amt(0, 2)), Ok(()));
    assert_eq!(
        finish_decision("open", amt(-1250, 2)),
        Err(AppError::Conflict(
            "difference -12.50 must be zero to finish; clear the remaining lines first".to_string()
        ))
    );
    assert_eq!(
        finish_decision("closed", amt(0, 0)),
        Err(AppError::Conflict("session is already closed".to_string()))
    );
}

#[test]
fn admin_routes_need_the_admin_role() {
    assert_eq!(require_admin(None), Err(AppError::Unauthorized));
    assert_eq!(require_admin(Some("user")), Err(AppError::Forbidden));
    assert_eq!(require_admin(Some("Admin")), Err(AppError::Forbidden));
    assert_eq!(require_admin(Some("admin")), Ok(()));
}

#[test]
fn skipping_moves_the_next_posting_one_period_on() {
    assert_eq!(skip_period(true, 0, d(2026, 1, 15), "monthly"), Some((1, d(2026, 2, 15))));
    assert_eq!(skip_period(true, 4, d(2026, 12, 15), "monthly"), Some((5, d(2027, 1, 15))));
    assert_eq!(skip_period(true, 2, d(2026, 11, 30), "quarterly"), Some((3, d(2026, 11, 30))));
    assert_eq!(skip_period(true, 0, d(2026, 3, 1), "quarterly"), Some((1, d(2026, 6, 1))));
    assert_eq!(skip_period(true, 0, d(2026, 3, 1), "yearly"), Some((1, d(2027, 3, 1))));
    assert_eq!(skip_period(false, 4, d(2026, 12, 15), "monthly"), None);
}

fn stored(date: Date, amount: Amount, description: &str, external_id: Option<&str>) -> StoredStatementLine {
    StoredStatementLine {
        statement_date: date,
        amount,
        description: description.to_string(),
        external_id: external_id.map(|s| s.to_string()),
    }
}

fn row(date: Date, amount: Amount, description: &str, external_id: Option<&str>) -> StatementRow {
    StatementRow {
        date,
        description: description.to_string(),
        amount,
        check_number: None,
        external_id: external_id.map(|s| s.to_string()),
        currency: None,
    }
}

#[test]
fn statement_duplicates_are_detected() {
    let existing = vec![
        stored(d(2026, 3, 1), amt(-4250, 2), "coffee shop", None),
        stored(d(2026, 3, 2), amt(100, 0), "Salary", Some("FITID-1")),
    ];
    // External ids match exactly.
    assert!(is_duplicate(&existing, &row(d(2026, 5, 5), amt(1, 0), "x", Some("FITID-1")), "x"));
    assert!(!is_duplicate(&existing, &row(d(2026, 3, 2), amt(100, 0), "Salary", Some("FITID-2")), "salary"));
    // Fingerprint: date, amount by value, payee without case.
    assert!(is_duplicate(&existing, &row(d(2026, 3, 1), amt(-425, 1), "COFFEE SHOP", None), "Coffee Shop"));
    assert!(!is_duplicate(&existing, &row(d(2026, 3, 1), amt(-4251, 2), "coffee shop", None), "coffee shop"));
    assert!(!is_duplicate(&existing, &row(d(2026, 3, 3), amt(-4250, 2), "coffee shop", None), "coffee shop"));
    assert!(!is_duplicate(&Vec::new(), &row(d(2026, 3, 1), amt(-4250, 2), "coffee shop", None), "coffee shop"));
}

#[test]
fn budget_burn_percentages() {
    let quarter = amount_to_string(budget_burn(amt(20000, 2), amt(5000, 2)).unwrap());
    assert_eq!(quarter.parse::<f64>().unwrap(), 25.0);
    assert_eq!(budget_burn(amt(0, 2), amt(5000, 2)), Some(amt(0, 0)));
    let p = budget_burn(amt(3, 0), amt(1, 0)).unwrap();
    assert!(amount_to_string(p).starts_with("33.333"));
}

#[test]
fn line_amounts_round_half_to_even() {
    let one = amt(1, 0);
    let r = |p: Amount| amount_to_string(line_amount(one, p).unwrap());
    assert_eq!(r(amt(10005, 3)), "10.00");
    assert_eq!(r(amt(135, 3)), "0.14");
    assert_eq!(r(amt(125, 3)), "0.12");
    assert_eq!(r(amt(-2675, 3)), "-2.68");
    assert_eq!(r(amt(-26749, 4)), "-2.67");
    assert_eq!(r(amt(5, 1)), "0.5");
    assert_eq!(amount_to_string(line_amount(amt(3, 0), amt(3335, 3)).unwrap()), "10.00");
}
