use openaccounting::amount::{amount_to_string, Amount};
use openaccounting::date::Date;
use openaccounting::error::AppError;
use openaccounting::handlers::accounts::{opening_balances_exist, opening_date, opening_entry_summary, TxnSummary};
use openaccounting::handlers::admin::{set_user_role, UserRoleForm, UserRow};
use openaccounting::handlers::estimates::{claim_estimate, convert};
use openaccounting::handlers::import::{confirm_batch, ParsedRow, RowOutcome};
use openaccounting::handlers::invoices::{invoice_lines_checked, InvoiceLineInput, InvoiceRefusal};
use openaccounting::handlers::payments::{payment_from_parsed, NewPaymentForm, ParsedPayment};
use openaccounting::handlers::reconciliation::{import_statement, StatementRow, StoredStatementLine};
use openaccounting::handlers::recurring_journals::template_lines_from_pairs;
use openaccounting::csv_import::row_signed_amount;

fn amt(mantissa: i128, scale: u32) -> Amount {
    Amount { mantissa, scale }
}

fn user(id: u128, role: &str, is_active: bool) -> UserRow {
    UserRow { id, role: role.to_string(), is_active }
}

fn role(r: &str) -> UserRoleForm {
    UserRoleForm { role: r.to_string() }
}

fn active_admins(us: &[UserRow]) -> usize {
    us.iter().filter(|u| u.role == "admin" && u.is_active).count()
}

#[test]
fn the_last_active_admin_is_not_demoted() {
    let users = vec![user(1, "admin", true), user(2, "admin", false), user(3, "user", true)];
    assert_eq!(
        set_user_role(&users, 3, 1, &role("user")).unwrap_err(),
        AppError::Unprocessable("Cannot demote the last active admin.".to_string())
    );
    // Any demotion waits while a single admin is active.
    assert_eq!(
        set_user_role(&users, 1, 2, &role("user")).unwrap_err(),
        AppError::Unprocessable("Cannot demote the last active admin.".to_string())
    );
    // With two active admins one can be demoted.
    let two = set_user_role(&users, 1, 3, &role("admin")).unwrap();
    assert_eq!(active_admins(&two), 2);
    let after = set_user_role(&two, 3, 1, &role("user")).unwrap();
    assert_eq!(active_admins(&after), 1);
    assert_eq!(set_user_role(&users, 1, 1, &role("user")).unwrap_err(),
        AppError::Unprocessable("You cannot change your own role.".to_string()));
    assert_eq!(set_user_role(&users, 1, 9, &role("user")).unwrap_err(), AppError::NotFound);
    assert_eq!(set_user_role(&users, 1, 3, &role("root")).unwrap_err(),
        AppError::Unprocessable("Invalid role: root".to_string()));
    assert_eq!(set_user_role(&users, 1, 3, &role("user")).unwrap()[2].role, "user");
}

#[test]
fn opening_balances_are_recorded_once() {
    let mut txns = vec![
        TxnSummary { description: "Opening balances".to_string(), kind: "draft".to_string() },
        TxnSummary { description: "Rent".to_string(), kind: "standard".to_string() },
    ];
    assert!(!opening_balances_exist(&txns));
    assert_eq!(opening_date(false, "2026-01-01"), Ok(Date { year: 2026, month: 1, day: 1 }));
    txns.push(opening_entry_summary());
    assert!(opening_balances_exist(&txns));
    assert!(opening_date(opening_balances_exist(&txns), "2026-01-01")
        .unwrap_err()
        .starts_with("Opening balances have already been recorded"));
}

#[test]
fn an_estimate_converts_once() {
    let status = claim_estimate("estimate", "sent").unwrap();
    assert_eq!(status, "converted");
    assert!(claim_estimate("estimate", &status).is_none());
    assert!(claim_estimate("estimate", "declined").is_none());
    assert!(claim_estimate("invoice", "open").is_none());
    assert_eq!(
        convert(claim_estimate("estimate", &status)),
        Err(AppError::Conflict("estimate already converted or declined".to_string()))
    );
}

fn srow(day: u32, amount: Amount, desc: &str, ext: Option<&str>) -> StatementRow {
    StatementRow {
        date: Date { year: 2026, month: 4, day },
        description: desc.to_string(),
        amount,
        check_number: None,
        external_id: ext.map(|s| s.to_string()),
        currency: None,
    }
}

#[test]
fn reimporting_a_statement_adds_nothing() {
    let rows = vec![
        srow(1, amt(-500, 2), "coffee", None),
        srow(2, amt(10000, 2), "salary", Some("FIT-1")),
        srow(1, amt(-500, 2), "coffee", None),
    ];
    let payees: Vec<String> = rows.iter().map(|r| r.description.clone()).collect();
    let mut stored: Vec<StoredStatementLine> = Vec::new();
    assert_eq!(import_statement(&mut stored, &rows, &payees), 2);
    assert_eq!(stored.len(), 2);
    assert_eq!(import_statement(&mut stored, &rows, &payees), 0);
    assert_eq!(stored.len(), 2);
}

fn prow(date: &str, desc: &str, debit: &str, credit: &str) -> ParsedRow {
    ParsedRow {
        date: date.to_string(),
        description: desc.to_string(),
        debit: debit.to_string(),
        credit: credit.to_string(),
        account: None,
        payee: None,
        reference: None,
        is_duplicate: false,
    }
}

#[test]
fn one_rejected_row_rolls_back_the_batch() {
    let good = vec![prow("2026-01-02", "a", "10", ""), prow("2026-01-03", "b", "", "5.5")];
    let posts = confirm_batch(&good, 7).ok().unwrap();
    assert_eq!(posts.len(), 2);
    assert!(matches!(posts[1], RowOutcome::Post { debit_account: 7, .. }));
    let mixed = vec![prow("2026-01-02", "a", "10", ""), prow("", "b", "", "5"), prow("2026-01-04", "c", "", "-1")];
    match confirm_batch(&mixed, 7) {
        Err(AppError::Validation(m)) => assert_eq!(
            m,
            "import rolled back: 1 valid, 2 failed: missing date: b; row 'c': non-positive amount"
        ),
        _ => panic!("expected a rollback"),
    }
    match confirm_batch(&vec![prow("2026-01-02", "a", "ten", "")], 7) {
        Err(AppError::Validation(m)) => assert!(m.starts_with("row 'a': bad debit 'ten': ")),
        _ => panic!("expected a failure"),
    }
}

#[test]
fn invoice_lines_are_read_or_refused() {
    let item = |d: &str, q: &str, p: &str| InvoiceLineInput {
        description: d.to_string(),
        quantity: q.to_string(),
        unit_price: p.to_string(),
    };
    match invoice_lines_checked(&vec![item("Work", "2", "12.50"), item(" ", "", "")]) {
        Some(Ok((lines, total))) => {
            assert_eq!(lines.len(), 1);
            assert_eq!(amount_to_string(total), "25.00");
        },
        _ => panic!("expected lines"),
    }
    match invoice_lines_checked(&vec![item(" ", "1", "1")]) {
        Some(Err(InvoiceRefusal::Form(m))) => assert!(m.starts_with("Add at least one line item")),
        _ => panic!("expected the form back"),
    }
    match invoice_lines_checked(&vec![item("Work", "x", "1")]) {
        Some(Err(InvoiceRefusal::Error(e))) => assert_eq!(e, AppError::Validation("Invalid line quantity".to_string())),
        _ => panic!("expected an error"),
    }
}

#[test]
fn template_lines_from_decoded_pairs() {
    let p = |k: &str, v: &str| (k.to_string(), v.to_string());
    let pairs = vec![
        p("lines[1][account_id]", "00000000-0000-0000-0000-000000000002"),
        p("lines[1][amount]", "5"),
        p("lines[1][direction]", "credit"),
        p("lines[0][account_id]", "00000000-0000-0000-0000-000000000001"),
        p("lines[0][amount]", "5"),
        p("lines[0][direction]", "DEBIT"),
    ];
    let ls = template_lines_from_pairs(&pairs).unwrap();
    assert_eq!(ls.len(), 2);
    assert_eq!(ls[0].account_id, 1);
    assert_eq!(ls[1].direction, "CREDIT");
    let bad = vec![p("lines[0][account_id]", "00000000-0000-0000-0000-000000000001"), p("lines[0][amount]", "0"), p("lines[0][direction]", "DEBIT")];
    assert_eq!(
        template_lines_from_pairs(&bad).unwrap_err(),
        AppError::Validation("template line amounts must be positive".to_string())
    );
}

#[test]
fn payment_checks_on_read_fields() {
    let form = NewPaymentForm {
        contact_id: String::new(),
        invoice_id: String::new(),
        amount: "12.00".to_string(),
        payment_date: "2026-02-01".to_string(),
        payment_method: "cash".to_string(),
        reference: Some(String::new()),
        kind: "received".to_string(),
    };
    let d = Date { year: 2026, month: 2, day: 1 };
    let parsed = |a: Option<Amount>| ParsedPayment { amount: a, payment_date: Some(d), contact_id: Some(None), invoice_id: Some(Some(4)) };
    let ok = payment_from_parsed(&parsed(Some(amt(1200, 2))), &form).ok().unwrap();
    assert!(ok.received && ok.reference.is_none() && ok.invoice_id == Some(4));
    assert_eq!(payment_from_parsed(&parsed(Some(amt(0, 0))), &form).err().unwrap(),
        AppError::Validation("Amount must be positive".to_string()));
    assert_eq!(payment_from_parsed(&parsed(None), &form).err().unwrap(),
        AppError::Validation("Invalid amount".to_string()));
    let no_date = ParsedPayment { amount: Some(amt(1, 0)), payment_date: None, contact_id: Some(None), invoice_id: Some(None) };
    assert_eq!(payment_from_parsed(&no_date, &form).err().unwrap(), AppError::Validation("Invalid date".to_string()));
}

#[test]
fn row_amounts_from_read_cells() {
    assert_eq!(row_signed_amount(false, None, Some(amt(1050, 2)), Some(amt(3, 0))), Some(amt(750, 2)));
    assert_eq!(row_signed_amount(false, None, None, Some(amt(3, 0))), Some(amt(-3, 0)));
    assert_eq!(row_signed_amount(true, None, Some(amt(1, 0)), None), Some(amt(0, 0)));
    assert_eq!(row_signed_amount(true, Some(amt(-25, 1)), None, None), Some(amt(-25, 1)));
}
