use openaccounting::amount::{amount_to_string, Amount};
use openaccounting::date::Date;
use openaccounting::handlers::aging::{compute_aging, OpenItem};

fn item(contact: u128, name: &str, y: i32, m: u32, d: u32, cents: i128) -> OpenItem {
    OpenItem {
        contact_id: contact,
        contact_name: name.to_string(),
        due_date: Date { year: y, month: m, day: d },
        outstanding: Amount { mantissa: cents, scale: 2 },
    }
}

#[test]
fn aging_buckets_by_days_past_due_largest_first() {
    let today = Date { year: 2026, month: 3, day: 31 };
    let items = vec![
        item(1, "Acme", 2026, 4, 10, 10000),
        item(1, "Acme (old name)", 2026, 3, 1, 5000),
        item(2, "Beta", 2025, 12, 1, 50000),
        item(1, "Acme", 2026, 1, 15, 2500),
        item(2, "Beta", 2026, 3, 31, 100),
        item(2, "Beta", 2026, 2, 28, 200),
    ];
    let rows = compute_aging(&items, today).unwrap();
    assert_eq!(rows.len(), 2);
    let beta = &rows[0];
    assert_eq!(beta.contact_name, "Beta");
    assert_eq!(amount_to_string(beta.current), "1.00");
    assert_eq!(amount_to_string(beta.days_31_60), "2.00");
    assert_eq!(amount_to_string(beta.days_90_plus), "500.00");
    assert_eq!(amount_to_string(beta.total), "503.00");
    let acme = &rows[1];
    assert_eq!(acme.contact_name, "Acme");
    assert_eq!(amount_to_string(acme.current), "100.00");
    assert_eq!(amount_to_string(acme.days_1_30), "50.00");
    assert_eq!(amount_to_string(acme.days_31_60), "0");
    assert_eq!(amount_to_string(acme.days_61_90), "25.00");
    assert_eq!(amount_to_string(acme.total), "175.00");
    for r in &rows {
        let buckets = [r.current, r.days_1_30, r.days_31_60, r.days_61_90, r.days_90_plus];
        let sum: i128 = buckets.iter().map(|a| a.mantissa * 10i128.pow(2 - a.scale)).sum();
        assert_eq!(sum, r.total.mantissa);
    }
}

#[test]
fn no_open_items_no_rows() {
    let today = Date { year: 2026, month: 3, day: 31 };
    assert!(compute_aging(&Vec::new(), today).unwrap().is_empty());
}
