use openaccounting::amount::{amount_to_string, Amount};
use openaccounting::handlers::account::safe_redirect;
use openaccounting::handlers::accounts::{balances_for, opening_balance_lines, BalanceSheetAccount, RawBalance};
use openaccounting::handlers::closing::{closing_entry, AccountBalance};
use openaccounting::handlers::import::duplicate_flags;
use openaccounting::handlers::dashboard::format_money;
use openaccounting::handlers::payments::payment_postings;
use openaccounting::handlers::reimbursement::{approval_postings, ClaimStatus, ExpenseGroup};
use openaccounting::journal::{transfer, Posting};

fn amt(mantissa: i128, scale: u32) -> Amount {
    Amount { mantissa, scale }
}

/// Value in units of 10^-4 (every amount here has at most four places).
fn units(a: Amount) -> i128 {
    a.mantissa * 10i128.pow(4 - a.scale)
}

fn debits_and_credits(ps: &[Posting]) -> (i128, i128) {
    let d = ps.iter().filter(|p| p.debit).map(|p| units(p.amount)).sum();
    let c = ps.iter().filter(|p| !p.debit).map(|p| units(p.amount)).sum();
    (d, c)
}

#[test]
fn year_end_closing_entry_balances() {
    let balances = vec![
        AccountBalance { account: 1, account_type: "INCOME".to_string(), raw_net: amt(-50000, 2) },
        AccountBalance { account: 2, account_type: "EXPENSE".to_string(), raw_net: amt(100, 0) },
        AccountBalance { account: 3, account_type: "ASSET".to_string(), raw_net: amt(999, 0) },
    ];
    let (legs, net) = closing_entry(&balances, 9);
    // Net income: 500.00 of income less 100 of expenses.
    assert_eq!(amount_to_string(net), "400.00");
    let (d, c) = debits_and_credits(&legs);
    assert_eq!(d, c);
    assert_eq!(legs.len(), 3);
    assert!(legs[0].debit && legs[0].account == 1);
    assert!(!legs[1].debit && legs[1].account == 2);
    assert_eq!(legs.last().unwrap().account, 9);
    assert!(!legs.last().unwrap().debit);
}

#[test]
fn year_end_closing_entry_with_a_loss_and_odd_balances() {
    let balances = vec![
        AccountBalance { account: 1, account_type: "INCOME".to_string(), raw_net: amt(-100, 0) },
        AccountBalance { account: 2, account_type: "EXPENSE".to_string(), raw_net: amt(25050, 2) },
        // An expense account with a credit balance (a refund) is debited.
        AccountBalance { account: 3, account_type: "EXPENSE".to_string(), raw_net: amt(-30, 0) },
    ];
    let (legs, net) = closing_entry(&balances, 9);
    assert_eq!(amount_to_string(net), "-120.50");
    let (d, c) = debits_and_credits(&legs);
    assert_eq!(d, c);
    assert!(legs[2].debit && legs[2].account == 3);
    assert!(legs.last().unwrap().debit && legs.last().unwrap().account == 9);
}

#[test]
fn opening_balances_entry_sums_to_zero() {
    let accounts = vec![
        BalanceSheetAccount { id: 1, name: "Cash".to_string(), account_type: "ASSET".to_string(), current: amt(0, 0) },
        BalanceSheetAccount { id: 2, name: "Loan".to_string(), account_type: "LIABILITY".to_string(), current: amt(0, 0) },
        BalanceSheetAccount { id: 3, name: "Bank".to_string(), account_type: "ASSET".to_string(), current: amt(500, 0) },
    ];
    let targets = vec![Some(amt(120000, 2)), Some(amt(300, 0)), Some(amt(500, 0))];
    let lines = opening_balance_lines(&accounts, &targets, 99).unwrap();
    assert_eq!(lines.len(), 3);
    let total: i128 = lines.iter().map(|l| units(l.signed_amount)).sum();
    assert_eq!(total, 0);
    assert_eq!(lines[2].account_id, 99);
    assert_eq!(lines[2].memo, "Opening balances contra");
    assert_eq!(lines[0].memo, "Opening balance — Cash");
}

#[test]
fn opening_balances_need_a_change() {
    let accounts = vec![BalanceSheetAccount {
        id: 1,
        name: "Cash".to_string(),
        account_type: "ASSET".to_string(),
        current: amt(500, 0),
    }];
    assert_eq!(
        opening_balance_lines(&accounts, &vec![Some(amt(50000, 2))], 99).unwrap_err(),
        "Enter at least one opening balance that differs from the account's current balance."
    );
}

#[test]
fn approved_claim_postings_balance() {
    let groups = vec![
        ExpenseGroup { gl_account: 10, net: amt(10000, 2), tax: amt(0, 2) },
        ExpenseGroup { gl_account: 11, net: amt(50, 0), tax: amt(0, 0) },
    ];
    let ps = approval_postings(&groups, amt(2000, 2), Some(20), 30).unwrap();
    let (d, c) = debits_and_credits(&ps);
    assert_eq!(d, c);
    let last = ps.last().unwrap();
    assert_eq!(last.account, 30);
    assert_eq!(units(last.amount), units(amt(13000, 2)));
}

#[test]
fn approved_claim_postings_balance_with_tax_and_without_advance_account() {
    let groups = vec![
        ExpenseGroup { gl_account: 10, net: amt(10000, 2), tax: amt(1900, 2) },
        ExpenseGroup { gl_account: 11, net: amt(50, 0), tax: amt(0, 0) },
    ];
    // Tax is debited and included in what the payable is credited with.
    let ps = approval_postings(&groups, amt(0, 0), None, 30).unwrap();
    assert_eq!(ps.len(), 4);
    let (d, c) = debits_and_credits(&ps);
    assert_eq!(d, c);
    assert_eq!(units(ps[3].amount), units(amt(16900, 2)));
    // Advances with an advance account: credited there.
    let ps = approval_postings(&groups, amt(2000, 2), Some(20), 30).unwrap();
    let (d, c) = debits_and_credits(&ps);
    assert_eq!(d, c);
    assert_eq!(ps[3].account, 20);
    assert_eq!(units(ps[4].amount), units(amt(14900, 2)));
    // Advances without an advance account: the payable takes the whole credit.
    let ps = approval_postings(&groups, amt(2000, 2), None, 30).unwrap();
    let (d, c) = debits_and_credits(&ps);
    assert_eq!(d, c);
    assert_eq!(ps.len(), 4);
    assert_eq!(units(ps[3].amount), units(amt(16900, 2)));
    assert!(approval_postings(&Vec::new(), amt(0, 0), None, 30).is_err());
}

#[test]
fn payment_postings_balance_both_ways() {
    for received in [true, false] {
        let ps = payment_postings(received, 1, 2, amt(4250, 2));
        let (d, c) = debits_and_credits(&ps);
        assert_eq!(d, c);
        assert_eq!(ps[0].account, if received { 1 } else { 2 });
    }
    let (d, c) = debits_and_credits(&transfer(5, 6, amt(1, 0)));
    assert_eq!(d, c);
}

#[test]
fn claim_status_names_round_trip() {
    for s in [
        ClaimStatus::Draft,
        ClaimStatus::Submitted,
        ClaimStatus::PartiallyApproved,
        ClaimStatus::FullyApproved,
        ClaimStatus::Approved,
        ClaimStatus::Rejected,
        ClaimStatus::Paid,
    ] {
        assert_eq!(ClaimStatus::parse(s.as_str()), Some(s));
    }
    assert_eq!(ClaimStatus::parse("archived"), None);
}

#[test]
fn redirects_stay_on_the_site() {
    assert_eq!(safe_redirect(&Some("/ledgers/1".to_string())), "/ledgers/1");
    assert_eq!(safe_redirect(&Some("//evil.example".to_string())), "/account");
    assert_eq!(safe_redirect(&Some("https://evil.example".to_string())), "/account");
    assert_eq!(safe_redirect(&None), "/account");
}

#[test]
fn money_is_grouped_by_thousands() {
    assert_eq!(format_money(amt(-123456789, 2), "USD"), "-USD 1,234,567.89");
    assert_eq!(format_money(amt(5, 3), "EUR"), "EUR 0.00");
    assert_eq!(format_money(amt(100000, 0), "CHF"), "CHF 100,000.00");
}

#[test]
fn balances_read_the_way_accounts_normally_run() {
    let rows = vec![
        RawBalance { account: 1, account_type: "ASSET".to_string(), raw: amt(500, 0) },
        RawBalance { account: 2, account_type: "INCOME".to_string(), raw: amt(-300, 0) },
        RawBalance { account: 3, account_type: "EXPENSE".to_string(), raw: amt(120, 0) },
        RawBalance { account: 4, account_type: "LIABILITY".to_string(), raw: amt(-75, 0) },
    ];
    let m = balances_for(&rows);
    assert_eq!(m.len(), 4);
    assert_eq!(m[&1], amt(500, 0));
    assert_eq!(m[&2], amt(300, 0));
    assert_eq!(m[&3], amt(120, 0));
    assert_eq!(m[&4], amt(75, 0));
}

#[test]
fn previewed_rows_seen_recently_are_duplicates() {
    let existing: std::collections::HashSet<u64> = [7u64, 9].into_iter().collect();
    assert_eq!(duplicate_flags(&vec![7, 0, 8, 9], &existing), vec![true, false, false, true]);
}
