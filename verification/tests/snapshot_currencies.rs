use openaccounting::amount::Amount;
use openaccounting::export::{snapshot_currencies, PostingRow};

fn posting(currency: &str) -> PostingRow {
    PostingRow {
        id: 2,
        transaction_id: 3,
        account_id: 1,
        amount: Amount { mantissa: 100, scale: 2 },
        currency: currency.to_string(),
        direction: "DEBIT".to_string(),
        memo: None,
    }
}

#[test]
fn currencies_each_once_in_first_seen_order() {
    let postings = vec![posting("GBP"), posting("USD"), posting("GBP"), posting("CHF"), posting("USD")];
    assert_eq!(snapshot_currencies(&postings), vec!["GBP", "USD", "CHF"]);
}

#[test]
fn currencies_come_from_postings_only() {
    assert_eq!(snapshot_currencies(&vec![posting("USD")]), vec!["USD"]);
    assert!(snapshot_currencies(&Vec::new()).is_empty());
}
