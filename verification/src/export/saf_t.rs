//! SAF-T lite XML: the chart of accounts and the general-ledger entries
//! of the period.
use vstd::prelude::*;
use crate::amount::{Amount, amount_text, decimal_text};
use crate::date::{Date, date_iso, iso_date_text};
use crate::escape::{push_str, push_chars, xml_escaped};
use crate::export::{LedgerSnapshot, AccountRow, TransactionRow, PostingRow, in_period, in_period_exec, push_string, push_xml_escaped};
use crate::text::chars_to_string;
use crate::uuid_text::{uuid_chars, uuid_text};

verus! {

// ---------------------------------------------------------------------
// SAF-T lite
// ---------------------------------------------------------------------

pub open spec fn saf_t_account(a: AccountRow) -> Seq<char> {
    "    <Account>\n      <Id>"@ + uuid_text(a.id) + "</Id>\n      <Name>"@ + xml_escaped(a.name@)
        + "</Name>\n      <Type>"@ + xml_escaped(a.kind@) + "</Type>\n      <Currency>"@
        + xml_escaped(a.currency@) + "</Currency>\n    </Account>\n"@
}

pub open spec fn saf_t_accounts(accts: Seq<AccountRow>, n: int) -> Seq<char>
    decreases n,
{
    if n <= 0 {
        Seq::empty()
    } else {
        saf_t_accounts(accts, n - 1) + saf_t_account(accts[n - 1])
    }
}

pub open spec fn saf_t_posting(p: PostingRow) -> Seq<char> {
    "        <Posting>\n          <AccountId>"@ + uuid_text(p.account_id)
        + "</AccountId>\n          <Direction>"@ + p.direction@
        + "</Direction>\n          <Amount>"@ + decimal_text(
        p.amount.mantissa as int,
        p.amount.scale as nat,
    ) + "</Amount>\n        </Posting>\n"@
}

/// Postings `ps[0..n]` that belong to transaction `txn`.
pub open spec fn saf_t_postings(ps: Seq<PostingRow>, txn: u128, n: int) -> Seq<char>
    decreases n,
{
    if n <= 0 {
        Seq::empty()
    } else {
        saf_t_postings(ps, txn, n - 1) + (if ps[n - 1].transaction_id == txn {
            saf_t_posting(ps[n - 1])
        } else {
            Seq::empty()
        })
    }
}

pub open spec fn saf_t_transaction(t: TransactionRow, ps: Seq<PostingRow>) -> Seq<char> {
    "    <Transaction>\n      <Id>"@ + uuid_text(t.id) + "</Id>\n      <Date>"@ + iso_date_text(
        t.txn_date,
    ) + "</Date>\n      <Description>"@ + xml_escaped(t.description@)
        + "</Description>\n      <Postings>\n"@ + saf_t_postings(ps, t.id, ps.len() as int)
        + "      </Postings>\n    </Transaction>\n"@
}

pub open spec fn saf_t_transactions(ts: Seq<TransactionRow>, ps: Seq<PostingRow>, from: Date, to: Date, n: int) -> Seq<char>
    decreases n,
{
    if n <= 0 {
        Seq::empty()
    } else {
        saf_t_transactions(ts, ps, from, to, n - 1) + (if in_period(ts[n - 1].txn_date, from, to) {
            saf_t_transaction(ts[n - 1], ps)
        } else {
            Seq::empty()
        })
    }
}

pub open spec fn saf_t_text(snap: &LedgerSnapshot, from: Date, to: Date) -> Seq<char> {
    "<?xml version=\"1.0\" encoding=\"UTF-8\"?>\n<AuditFile xmlns=\"urn:OpenAccounting:SAF-Tlite\">\n  <Header>\n    <CompanyName>"@
        + xml_escaped(snap.ledger.name@) + "</CompanyName>\n    <CurrencyCode>"@ + xml_escaped(
        snap.ledger.base_currency@,
    ) + "</CurrencyCode>\n    <FromDate>"@ + iso_date_text(from) + "</FromDate>\n    <ToDate>"@
        + iso_date_text(to) + "</ToDate>\n  </Header>\n  <ChartOfAccounts>\n"@ + saf_t_accounts(
        snap.accounts@,
        snap.accounts@.len() as int,
    ) + "  </ChartOfAccounts>\n  <GeneralLedgerEntries>\n"@ + saf_t_transactions(
        snap.transactions@,
        snap.postings@,
        from,
        to,
        snap.transactions@.len() as int,
    ) + "  </GeneralLedgerEntries>\n</AuditFile>\n"@
}

fn saf_t_postings_exec(out: &mut Vec<char>, ps: &Vec<PostingRow>, txn: u128)
    ensures
        final(out)@ == old(out)@ + saf_t_postings(ps@, txn, ps@.len() as int),
{
    let ghost start = out@;
    for i in 0..ps.len()
        invariant
            out@ == start + saf_t_postings(ps@, txn, i as int),
    {
        let p = &ps[i];
        if p.transaction_id == txn {
            let ghost before = out@;
            push_str(out, "        <Posting>\n          <AccountId>");
            push_chars(out, &uuid_chars(p.account_id));
            push_str(out, "</AccountId>\n          <Direction>");
            push_string(out, &p.direction);
            push_str(out, "</Direction>\n          <Amount>");
            push_chars(out, &amount_text(p.amount));
            push_str(out, "</Amount>\n        </Posting>\n");
            assert(out@ =~= before + saf_t_posting(*p));
        }
        assert(out@ =~= start + saf_t_postings(ps@, txn, i + 1));
    }
}

fn saf_t_account_exec(out: &mut Vec<char>, a: &AccountRow)
    ensures
        final(out)@ == old(out)@ + saf_t_account(*a),
{
    let ghost before = out@;
    push_str(out, "    <Account>\n      <Id>");
    push_chars(out, &uuid_chars(a.id));
    push_str(out, "</Id>\n      <Name>");
    push_xml_escaped(out, &a.name);
    push_str(out, "</Name>\n      <Type>");
    push_xml_escaped(out, &a.kind);
    push_str(out, "</Type>\n      <Currency>");
    push_xml_escaped(out, &a.currency);
    push_str(out, "</Currency>\n    </Account>\n");
    assert(out@ =~= before + saf_t_account(*a));
}

fn saf_t_transaction_exec(out: &mut Vec<char>, t: &TransactionRow, ps: &Vec<PostingRow>)
    ensures
        final(out)@ == old(out)@ + saf_t_transaction(*t, ps@),
{
    let ghost before = out@;
    push_str(out, "    <Transaction>\n      <Id>");
    push_chars(out, &uuid_chars(t.id));
    push_str(out, "</Id>\n      <Date>");
    push_chars(out, &date_iso(t.txn_date));
    push_str(out, "</Date>\n      <Description>");
    push_xml_escaped(out, &t.description);
    push_str(out, "</Description>\n      <Postings>\n");
    saf_t_postings_exec(out, ps, t.id);
    push_str(out, "      </Postings>\n    </Transaction>\n");
    assert(out@ =~= before + saf_t_transaction(*t, ps@));
}

/// SAF-T lite XML: chart of accounts plus GL entries dated within `[from, to]`.
pub fn render(snap: &LedgerSnapshot, from: Date, to: Date) -> (r: String)
    ensures
        r@ == saf_t_text(snap, from, to),
{
    let mut out: Vec<char> = Vec::new();
    push_str(
        &mut out,
        "<?xml version=\"1.0\" encoding=\"UTF-8\"?>\n<AuditFile xmlns=\"urn:OpenAccounting:SAF-Tlite\">\n  <Header>\n    <CompanyName>",
    );
    push_xml_escaped(&mut out, &snap.ledger.name);
    push_str(&mut out, "</CompanyName>\n    <CurrencyCode>");
    push_xml_escaped(&mut out, &snap.ledger.base_currency);
    push_str(&mut out, "</CurrencyCode>\n    <FromDate>");
    push_chars(&mut out, &date_iso(from));
    push_str(&mut out, "</FromDate>\n    <ToDate>");
    push_chars(&mut out, &date_iso(to));
    push_str(&mut out, "</ToDate>\n  </Header>\n  <ChartOfAccounts>\n");
    let ghost h1 = out@;
    for i in 0..snap.accounts.len()
        invariant
            out@ == h1 + saf_t_accounts(snap.accounts@, i as int),
    {
        saf_t_account_exec(&mut out, &snap.accounts[i]);
        assert(out@ =~= h1 + saf_t_accounts(snap.accounts@, i + 1));
    }
    push_str(&mut out, "  </ChartOfAccounts>\n  <GeneralLedgerEntries>\n");
    let ghost h2 = out@;
    for i in 0..snap.transactions.len()
        invariant
            out@ == h2 + saf_t_transactions(snap.transactions@, snap.postings@, from, to, i as int),
    {
        let t = &snap.transactions[i];
        if in_period_exec(t.txn_date, from, to) {
            saf_t_transaction_exec(&mut out, t, &snap.postings);
        }
        assert(out@ =~= h2 + saf_t_transactions(
            snap.transactions@,
            snap.postings@,
            from,
            to,
            i + 1,
        ));
    }
    push_str(&mut out, "  </GeneralLedgerEntries>\n</AuditFile>\n");
    assert(out@ =~= saf_t_text(snap, from, to));
    chars_to_string(out.as_slice())
}

} // verus!
