use openaccounting::amount::{amount_to_string, Amount};
use openaccounting::date::Date;
use openaccounting::error::AppError;
use openaccounting::handlers::estimates::{
    convert, estimate_body, estimate_header, estimate_lines, estimate_total, EstimateLine,
    NewEstimateForm,
};

fn validation_of<T>(r: Result<T, AppError>) -> String {
    match r {
        Err(AppError::Validation(m)) => m,
        Err(e) => panic!("unexpected error {:?}", e),
        Ok(_) => panic!("expected a validation error"),
    }
}

fn form(desc: &[&str], qty: &[&str], price: &[&str]) -> NewEstimateForm {
    NewEstimateForm {
        contact_id: "00000000-0000-0000-0000-000000000007".to_string(),
        invoice_date: "2026-03-01".to_string(),
        due_date: "2026-03-31".to_string(),
        description: desc.iter().map(|s| s.to_string()).collect(),
        quantity: qty.iter().map(|s| s.to_string()).collect(),
        unit_price: price.iter().map(|s| s.to_string()).collect(),
    }
}

#[test]
fn body_keeps_last_single_field_and_every_line_field() {
    let f = estimate_body(
        "contact_id=a&contact_id=b&invoice_date=2026-03-01&due_date=2026-03-31\
         &description=Design&quantity=2&unit_price=1.25&description=Hosting+plan&quantity=1\
         &unit_price=0.333&other=x",
    );
    assert_eq!(f.contact_id, "b");
    assert_eq!(f.invoice_date, "2026-03-01");
    assert_eq!(f.due_date, "2026-03-31");
    assert_eq!(f.description, vec!["Design".to_string(), "Hosting plan".to_string()]);
    assert_eq!(f.quantity, vec!["2".to_string(), "1".to_string()]);
    assert_eq!(f.unit_price, vec!["1.25".to_string(), "0.333".to_string()]);
}

#[test]
fn header_checks() {
    let f = form(&[], &[], &[]);
    match estimate_header(&f) {
        Ok(h) => {
            assert_eq!(h.contact_id, 7);
            assert_eq!(h.invoice_date, Date { year: 2026, month: 3, day: 1 });
            assert_eq!(h.due_date, Date { year: 2026, month: 3, day: 31 });
        }
        Err(e) => panic!("{:?}", e),
    }
    let mut g = form(&[], &[], &[]);
    g.contact_id = "x".to_string();
    assert_eq!(validation_of(estimate_header(&g)), "Invalid contact");
    let mut g = form(&[], &[], &[]);
    g.invoice_date = "x".to_string();
    assert_eq!(validation_of(estimate_header(&g)), "Invalid date");
    let mut g = form(&[], &[], &[]);
    g.due_date = "x".to_string();
    assert_eq!(validation_of(estimate_header(&g)), "Invalid due date");
}

#[test]
fn lines_skip_blank_rows_and_stop_at_the_shortest_field() {
    let f = form(&[" Design ", "  ", "Hosting", "extra"], &["2", "x", "1"], &["1.25", "y", "0.333", "9"]);
    let lines = match estimate_lines(&f) {
        Ok(l) => l,
        Err(e) => panic!("{:?}", e),
    };
    assert_eq!(lines.len(), 2);
    assert_eq!(lines[0].description, "Design");
    assert_eq!(lines[0].quantity, Amount { mantissa: 2, scale: 0 });
    assert_eq!(lines[1].unit_price, Amount { mantissa: 333, scale: 3 });
    assert_eq!(amount_to_string(estimate_total(&lines).unwrap()), "2.83");
}

#[test]
fn line_errors() {
    assert_eq!(validation_of(estimate_lines(&form(&["A"], &["two"], &["1"]))), "Invalid quantity");
    assert_eq!(validation_of(estimate_lines(&form(&["A"], &["2"], &["?"]))), "Invalid unit price");
    assert_eq!(
        validation_of(estimate_lines(&form(&[" "], &["2"], &["1"]))),
        "An estimate needs at least one line"
    );
}

#[test]
fn empty_estimate_totals_zero() {
    let none: Vec<EstimateLine> = Vec::new();
    assert_eq!(estimate_total(&none), Some(Amount { mantissa: 0, scale: 0 }));
}

#[test]
fn a_converted_estimate_cannot_be_converted_again() {
    assert_eq!(convert(Some(5)), Ok(5));
    assert_eq!(
        convert::<u8>(None),
        Err(AppError::Conflict("estimate already converted or declined".to_string()))
    );
}
