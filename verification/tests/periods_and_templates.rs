use openaccounting::amount::{amount_to_string, Amount};
use openaccounting::date::Date;
use openaccounting::error::AppError;
use openaccounting::handlers::dashboard::dashboard_periods;
use openaccounting::handlers::exports_pdf::{parse_period, prior_period, PeriodQuery};
use openaccounting::handlers::reconciliation::{csv_statement_row, statement_records};
use openaccounting::handlers::recurring_journals::{check_template_balance, parse_template_lines};

fn d(year: i32, month: u32, day: u32) -> Date {
    Date { year, month, day }
}

#[test]
fn report_period_defaults_and_errors() {
    let q = PeriodQuery { from: None, to: Some("2026-03-31".to_string()) };
    assert_eq!(parse_period(&q).unwrap(), (d(1900, 1, 1), d(2026, 3, 31)));
    let bad = PeriodQuery { from: Some("March".to_string()), to: None };
    assert_eq!(parse_period(&bad).unwrap_err(), AppError::Validation("from must be YYYY-MM-DD".to_string()));
    let bad_to = PeriodQuery { from: None, to: Some("31/03/2026".to_string()) };
    assert_eq!(parse_period(&bad_to).unwrap_err(), AppError::Validation("to must be YYYY-MM-DD".to_string()));
}

#[test]
fn prior_period_has_the_same_length_and_ends_the_day_before() {
    assert_eq!(prior_period(d(2026, 1, 1), d(2026, 1, 31)), (d(2025, 12, 1), d(2025, 12, 31)));
    assert_eq!(prior_period(d(2024, 3, 1), d(2024, 3, 1)), (d(2024, 2, 29), d(2024, 2, 29)));
}

#[test]
fn dashboard_periods_of_a_day() {
    let p = dashboard_periods(d(2026, 3, 15));
    assert_eq!(p.first_of_month, d(2026, 3, 1));
    assert_eq!(p.prev_month_first, d(2026, 2, 1));
    assert_eq!(p.prev_month_end, d(2026, 2, 28));
    assert_eq!(p.thirty_days_ago, d(2026, 2, 13));
    assert_eq!(p.ninety_days_ago, d(2025, 12, 15));
}

#[test]
fn statement_csv_rows() {
    let recs = statement_records("date,description,amount\n2026-01-02,Coffee,-4.50\n2026-01-03,Tea,x\n").unwrap();
    assert_eq!(recs.len(), 2);
    let row = match csv_statement_row(&recs[0]) {
        Some(Ok(r)) => r,
        _ => panic!("expected a row"),
    };
    assert_eq!(row.date, d(2026, 1, 2));
    assert_eq!(row.description, "Coffee");
    assert_eq!(amount_to_string(row.amount), "-4.50");
    assert!(matches!(csv_statement_row(&recs[1]), Some(Err(_))));
    assert!(csv_statement_row(&vec!["2026-01-03".to_string(), "Short".to_string()]).is_none());
    assert!(statement_records("a,b\n1,2,3\n").is_err());
}

#[test]
fn template_lines_read_in_line_order_and_balance() {
    let body = "name=Rent&lines[1][account_id]=00000000-0000-0000-0000-000000000002\
        &lines[1][direction]=credit&lines[1][amount]=1200.00&lines[0][account_id]=\
        00000000-0000-0000-0000-000000000001&lines[0][direction]=Debit&lines[0][amount]=1200\
        &lines[0][memo]=rent";
    let lines = parse_template_lines(body).unwrap();
    assert_eq!(lines.len(), 2);
    assert_eq!(lines[0].account_id, 1);
    assert_eq!(lines[0].direction, "DEBIT");
    assert_eq!(lines[0].memo, "rent");
    assert_eq!(lines[1].direction, "CREDIT");
    assert_eq!(lines[1].amount, Amount { mantissa: 120000, scale: 2 });
    assert!(check_template_balance(&lines).is_ok());
    let one = vec![lines[0].clone()];
    assert_eq!(
        check_template_balance(&one).unwrap_err(),
        AppError::Validation("a template needs at least two lines".to_string())
    );
}

#[test]
fn template_line_errors() {
    let e = |body: &str| parse_template_lines(body).unwrap_err();
    assert_eq!(
        e("lines[0][account_id]=x&lines[0][direction]=DEBIT&lines[0][amount]=1"),
        AppError::Validation("invalid account on a template line".to_string())
    );
    assert_eq!(
        e("lines[0][account_id]=00000000-0000-0000-0000-000000000001&lines[0][direction]=up&lines[0][amount]=1"),
        AppError::Validation("template line direction must be DEBIT or CREDIT".to_string())
    );
    assert_eq!(
        e("lines[0][account_id]=00000000-0000-0000-0000-000000000001&lines[0][direction]=DEBIT&lines[0][amount]=-1"),
        AppError::Validation("template line amounts must be positive".to_string())
    );
}
