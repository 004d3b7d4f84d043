use openaccounting::date::Date;
use openaccounting::export::{saf_t, xbrl, AccountRow, LedgerMeta, LedgerSnapshot, Timestamp};

fn snapshot(name: &str) -> LedgerSnapshot {
    LedgerSnapshot {
        ledger: LedgerMeta {
            id: 0,
            owner_id: 0,
            name: name.into(),
            base_currency: "USD".into(),
            timezone: "UTC".into(),
            basis: "accrual".into(),
            created_at: Timestamp { secs: 0, nanos: 0 },
            updated_at: Timestamp { secs: 0, nanos: 0 },
        },
        accounts: vec![],
        transactions: vec![],
        postings: vec![],
        tags: vec![],
        document_refs: vec![],
        budgets: vec![],
        currencies: vec!["USD".into()],
    }
}

#[test]
fn xml_well_formed_with_ampersand_escaped() {
    let snap = snapshot("A & B");
    let xml = saf_t::render(
        &snap,
        Date { year: 2026, month: 1, day: 1 },
        Date { year: 2026, month: 12, day: 31 },
    );
    assert!(xml.contains("A &amp; B"));
    assert!(xml.contains("<?xml"));
    assert!(xml.contains("</AuditFile>"));
}

#[test]
fn instance_well_formed_and_declares_period_context() {
    let snap = snapshot("Test");
    let xml = xbrl::render(
        &snap,
        Date { year: 2026, month: 1, day: 1 },
        Date { year: 2026, month: 12, day: 31 },
    );
    assert!(xml.starts_with("<?xml"));
    assert!(xml.contains("</xbrl>"));
    assert!(xml.contains("<context id=\"period\">"));
    assert!(xml.contains("<startDate>2026-01-01</startDate>"));
    assert!(xml.contains("<endDate>2026-12-31</endDate>"));
    assert!(xml.contains("<unit id=\"EUR\">"));
}

#[test]
fn account_elements_are_well_formed_and_prefix_declared() {
    let mut snap = snapshot("Test");
    snap.accounts.push(AccountRow {
        id: 0x1234,
        parent_id: None,
        name: "Cash <main>".to_string(),
        code: None,
        kind: "ASSET".to_string(),
        subtype: "cash".to_string(),
        currency: "USD".to_string(),
        is_archived: false,
        description: None,
    });
    let xml = xbrl::render(
        &snap,
        Date { year: 2026, month: 1, day: 1 },
        Date { year: 2026, month: 12, day: 31 },
    );
    assert!(xml.contains("xmlns:gl=\"http://www.xbrl.org/int/gl/2005-03-31\">"));
    assert!(xml.contains("<gl:account id=\"acc-00000000-0000-0000-0000-000000001234\">\n"));
    assert!(xml.contains("<gl:accountName>Cash &lt;main&gt;</gl:accountName>"));
    // Every double quote is paired.
    assert_eq!(xml.matches('"').count() % 2, 0);
}
