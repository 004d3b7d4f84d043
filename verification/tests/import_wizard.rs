use openaccounting::csv_import::SavedMapping;
use openaccounting::wrap::wrap_text;
use openaccounting::amount::amount_to_string;
use openaccounting::csv_import::{auto_detect, parse_csv_line, parse_date, transform, ColumnMap};
use openaccounting::date::Date;

#[test]
fn parse_csv_line_handles_quoted_commas() {
    let f = parse_csv_line(r#"2024-01-02,"Hello, world",42.50"#);
    assert_eq!(
        f,
        vec![
            "2024-01-02".to_string(),
            "Hello, world".to_string(),
            "42.50".to_string()
        ]
    );
}

#[test]
fn auto_detect_picks_date_and_description() {
    let headers = vec!["Txn Date".into(), "Description".into(), "Amount".into()];
    let m = auto_detect(&headers);
    assert_eq!(m.date, 0);
    assert_eq!(m.description, 1);
    assert_eq!(m.amount_in, 2);
}

#[test]
fn transform_debit_credit() {
    let csv =
        "date,description,debit,credit\n2024-01-02,Coffee,42.50,0\n2024-01-03,Refund,0,42.50\n";
    let map = ColumnMap {
        date: 0,
        description: 1,
        debit: 2,
        credit: 3,
        ..Default::default()
    };
    let rows = transform(csv, &map);
    assert_eq!(rows.len(), 2);
    assert_eq!(amount_to_string(rows[0].amount), "42.50");
    assert_eq!(amount_to_string(rows[1].amount), "-42.50");
}

#[test]
fn transform_single_amount_column() {
    let csv = "date,description,amount\n2024-01-02,Coffee,-42.50\n2024-01-03,Salary,1500.00\n";
    let map = ColumnMap {
        date: 0,
        description: 1,
        amount_in: 2,
        ..Default::default()
    };
    let rows = transform(csv, &map);
    assert_eq!(amount_to_string(rows[0].amount), "-42.50");
    assert_eq!(amount_to_string(rows[1].amount), "1500.00");
}

#[test]
fn parse_date_accepts_iso_and_european() {
    let d = Date { year: 2024, month: 12, day: 31 };
    assert_eq!(parse_date("2024-12-31"), Some(d));
    assert_eq!(parse_date("31/12/2024"), Some(d));
    assert_eq!(parse_date("31.12.2024"), Some(d));
    assert!(parse_date("not a date").is_none());
}

#[test]
fn header_detection_ignores_case() {
    let headers: Vec<String> = ["Txn_Date", "Memo", "Withdrawal", "Deposit", "Vendor"]
        .iter()
        .map(|s| s.to_string())
        .collect();
    let upper: Vec<String> = headers.iter().map(|h| h.to_ascii_uppercase()).collect();
    let lower: Vec<String> = headers.iter().map(|h| h.to_ascii_lowercase()).collect();
    assert_eq!(auto_detect(&headers), auto_detect(&upper));
    assert_eq!(auto_detect(&headers), auto_detect(&lower));
    assert_eq!(auto_detect(&upper).payee, 4);
}

#[test]
fn quoted_fields_round_trip() {
    let fields = vec!["2024-01-02".to_string(), "Hello, world".to_string(), String::new(), "42.50".to_string()];
    let line = fields.iter().map(|f| format!("\"{}\"", f)).collect::<Vec<_>>().join(",");
    assert_eq!(parse_csv_line(&line), fields);
    let plain = vec!["a".to_string(), "b c".to_string(), String::new()];
    assert_eq!(parse_csv_line(&plain.join(",")), plain);
    assert!(parse_csv_line("").is_empty());
}

#[test]
fn saved_mapping_reads_back() {
    let map = ColumnMap { date: 0, description: 1, debit: 2, credit: -1, account: -1, payee: 3, reference: -1, amount_in: -1 };
    let saved = SavedMapping::from_map("Bank A", &map);
    assert_eq!(saved.name, "Bank A");
    assert_eq!(saved.column_map(), map);
    let with_amount = ColumnMap { amount_in: 4, ..map };
    let saved = SavedMapping::from_map("Bank B", &with_amount);
    assert_eq!(saved.amount_in_column.as_deref(), Some("debit"));
    assert_eq!(saved.column_map(), map);
}

#[test]
fn wrapped_lines_keep_words_and_width() {
    let text = "The quick brown fox jumps over the lazy dog\n\nsupercalifragilistic is long";
    let lines = wrap_text(text, 12);
    for l in &lines {
        assert!(l.len() <= 12 || !l.contains(char::is_whitespace), "{l:?}");
    }
    let words_in: Vec<&str> = text.split_whitespace().collect();
    let words_out: Vec<&str> = lines.iter().flat_map(|l| l.split_whitespace()).collect();
    assert_eq!(words_in, words_out);
    assert_eq!(lines[0], "The quick");
    assert_eq!(wrap_text("", 10), vec![String::new()]);
}
