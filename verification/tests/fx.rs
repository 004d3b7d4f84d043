use openaccounting::amount::{amount_to_string, Amount};
use openaccounting::date::Date;
use openaccounting::error::AppError;
use openaccounting::handlers::fx::{
    check_report_range, fx_gains_export_csv, parse_currency, parse_fx_date, revaluation_error, create_rate,
    NewRateForm, RealizedRow, RevaluationError, UnrealizedRow,
};

fn validation_of<T>(r: Result<T, AppError>) -> String {
    match r {
        Err(AppError::Validation(m)) => m,
        Err(e) => panic!("unexpected error {:?}", e),
        Ok(_) => panic!("expected a validation error"),
    }
}

fn d(year: i32, month: u32, day: u32) -> Date {
    Date { year, month, day }
}

#[test]
fn currency_codes_are_trimmed_and_upper_cased() {
    assert_eq!(parse_currency(" usd "), Ok("USD".to_string()));
    assert_eq!(validation_of(parse_currency("US1")), "'US1' is not a 3-letter currency code");
    assert_eq!(validation_of(parse_currency("EURO")), "'EURO' is not a 3-letter currency code");
    assert_eq!(validation_of(parse_currency("äbc")), "'äbc' is not a 3-letter currency code");
}

#[test]
fn fx_dates_are_trimmed() {
    assert_eq!(parse_fx_date(" 2026-01-31 "), Ok(d(2026, 1, 31)));
    assert_eq!(validation_of(parse_fx_date("31.01.2026")), "invalid date '31.01.2026', expected YYYY-MM-DD");
}

fn rate(base: &str, quote: &str, r: &str) -> NewRateForm {
    NewRateForm {
        base_currency: base.to_string(),
        quote_currency: quote.to_string(),
        rate: r.to_string(),
        rate_date: "2026-01-31".to_string(),
    }
}

#[test]
fn manual_rates_accept_a_decimal_comma() {
    let m = match create_rate(&rate("eur", "usd", " 1,0825 ")) {
        Ok(m) => m,
        Err(e) => panic!("{:?}", e),
    };
    assert_eq!(m.base_currency, "EUR");
    assert_eq!(m.quote_currency, "USD");
    assert_eq!(amount_to_string(m.rate), "1.0825");
    assert_eq!(m.rate_date, d(2026, 1, 31));
}

#[test]
fn manual_rate_errors() {
    assert_eq!(validation_of(create_rate(&rate("eur", "EUR", "1"))), "currency pair must differ");
    assert_eq!(validation_of(create_rate(&rate("eur", "usd", "1..2"))), "invalid rate");
    assert_eq!(validation_of(create_rate(&rate("eur", "usd", "0"))), "rate must be positive");
    assert_eq!(validation_of(create_rate(&rate("eur", "usd", "-1.5"))), "rate must be positive");
    let mut f = rate("eur", "usd", "1");
    f.rate_date = "soon".to_string();
    assert_eq!(validation_of(create_rate(&f)), "invalid date 'soon', expected YYYY-MM-DD");
}

#[test]
fn refused_revaluations() {
    assert_eq!(
        revaluation_error(RevaluationError::AlreadyRevalued { month: "2026-01".to_string() }),
        AppError::Conflict(
            "FX revaluation for 2026-01 has already been run for every eligible account".to_string()
        )
    );
    assert_eq!(
        revaluation_error(RevaluationError::PeriodClosed { year: 2025 }),
        AppError::Validation(
            "Period 2025 is closed. Cannot post revaluations into closed periods.".to_string()
        )
    );
    assert_eq!(
        revaluation_error(RevaluationError::Fx("no rate".to_string())),
        AppError::Validation("no rate".to_string())
    );
    assert_eq!(
        revaluation_error(RevaluationError::Db("down".to_string())),
        AppError::Db("down".to_string())
    );
}

#[test]
fn report_range_must_not_be_reversed() {
    assert_eq!(check_report_range(Some(d(2026, 2, 1)), Some(d(2026, 1, 1))).unwrap_err(),
        AppError::Validation("from must be <= to".to_string()));
    assert!(check_report_range(Some(d(2026, 1, 1)), Some(d(2026, 1, 1))).is_ok());
    assert!(check_report_range(None, Some(d(2026, 1, 1))).is_ok());
}

#[test]
fn gains_csv_lists_both_sections() {
    let u = vec![UnrealizedRow {
        period_month: d(2026, 1, 31),
        account_name: "Bank, EUR".to_string(),
        currency: "EUR".to_string(),
        fx_gain_loss: Amount { mantissa: -1234, scale: 2 },
    }];
    let r = vec![RealizedRow {
        txn_date: d(2026, 2, 15),
        description: "Settle \"A\"".to_string(),
        gain: Amount { mantissa: 1000, scale: 2 },
        loss: Amount { mantissa: 25, scale: 1 },
    }];
    assert_eq!(
        fx_gains_export_csv(&u, &r),
        "section,date,account,currency,gain_loss\n\
         unrealized,2026-01-31,\"Bank, EUR\",EUR,-12.34\n\
         realized,2026-02-15,\"Settle \"\"A\"\"\",USD,7.50\n"
    );
}
