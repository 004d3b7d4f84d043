//! A minimal XBRL-GL instance: period context, accounts and one entry
//! per posting of the transactions of the period.
use vstd::prelude::*;
use crate::amount::{amount_text, decimal_text};
use crate::date::{Date, date_iso, iso_date_text};
use crate::escape::{push_str, push_chars, xml_escaped};
use crate::export::{LedgerSnapshot, AccountRow, TransactionRow, PostingRow, in_period, in_period_exec, push_xml_escaped};
use crate::text::chars_to_string;
use crate::uuid_text::{uuid_chars, uuid_text};

verus! {

// ---------------------------------------------------------------------
// XBRL-GL
// ---------------------------------------------------------------------

pub open spec fn xbrl_account(a: AccountRow) -> Seq<char> {
    "  <gl:account id=\"acc-"@ + uuid_text(a.id) + "\">\n    <gl:accountCode>"@ + uuid_text(a.id)
        + "</gl:accountCode>\n    <gl:accountName>"@ + xml_escaped(a.name@)
        + "</gl:accountName>\n    <gl:accountType>"@ + xml_escaped(a.kind@)
        + "</gl:accountType>\n  </gl:account>\n"@
}

pub open spec fn xbrl_accounts(accts: Seq<AccountRow>, n: int) -> Seq<char>
    decreases n,
{
    if n <= 0 {
        Seq::empty()
    } else {
        xbrl_accounts(accts, n - 1) + xbrl_account(accts[n - 1])
    }
}

pub open spec fn xbrl_entry(t: TransactionRow, p: PostingRow) -> Seq<char> {
    "  <gl:entry id=\"p-"@ + uuid_text(p.id) + "\">\n    <gl:date>"@ + iso_date_text(t.txn_date)
        + "</gl:date>\n    <gl:description>"@ + xml_escaped(t.description@)
        + "</gl:description>\n    <gl:amount contextRef=\"period\" unitRef=\"EUR\" decimals=\"2\">"@
        + decimal_text(p.amount.mantissa as int, p.amount.scale as nat)
        + "</gl:amount>\n  </gl:entry>\n"@
}

pub open spec fn xbrl_entries(t: TransactionRow, ps: Seq<PostingRow>, n: int) -> Seq<char>
    decreases n,
{
    if n <= 0 {
        Seq::empty()
    } else {
        xbrl_entries(t, ps, n - 1) + (if ps[n - 1].transaction_id == t.id {
            xbrl_entry(t, ps[n - 1])
        } else {
            Seq::empty()
        })
    }
}

pub open spec fn xbrl_transactions(ts: Seq<TransactionRow>, ps: Seq<PostingRow>, from: Date, to: Date, n: int) -> Seq<char>
    decreases n,
{
    if n <= 0 {
        Seq::empty()
    } else {
        xbrl_transactions(ts, ps, from, to, n - 1) + (if in_period(ts[n - 1].txn_date, from, to) {
            xbrl_entries(ts[n - 1], ps, ps.len() as int)
        } else {
            Seq::empty()
        })
    }
}

pub open spec fn xbrl_text(snap: &LedgerSnapshot, from: Date, to: Date) -> Seq<char> {
    "<?xml version=\"1.0\" encoding=\"UTF-8\"?>\n<xbrl xmlns=\"http://www.xbrl.org/int/gl/2005-03-31\"\n      xmlns:xbrli=\"http://www.xbrl.org/2003/instance\"\n      xmlns:link=\"http://www.xbrl.org/2003/linkbase\"\n      xmlns:xlink=\"http://www.w3.org/1999/xlink\"\n      xmlns:gl=\"http://www.xbrl.org/int/gl/2005-03-31\">\n  <context id=\"period\">\n    <entity><identifier scheme=\"www.openaccounting.local\">"@
        + uuid_text(snap.ledger.id)
        + "</identifier></entity>\n    <period>\n      <startDate>"@ + iso_date_text(from)
        + "</startDate>\n      <endDate>"@ + iso_date_text(to)
        + "</endDate>\n    </period>\n  </context>\n  <unit id=\"EUR\"><measure>iso4217:USD</measure></unit>\n"@
        + xbrl_accounts(snap.accounts@, snap.accounts@.len() as int) + xbrl_transactions(
        snap.transactions@,
        snap.postings@,
        from,
        to,
        snap.transactions@.len() as int,
    ) + "</xbrl>\n"@
}

fn xbrl_entries_exec(out: &mut Vec<char>, t: &TransactionRow, ps: &Vec<PostingRow>)
    ensures
        final(out)@ == old(out)@ + xbrl_entries(*t, ps@, ps@.len() as int),
{
    let ghost start = out@;
    for i in 0..ps.len()
        invariant
            out@ == start + xbrl_entries(*t, ps@, i as int),
    {
        let p = &ps[i];
        if p.transaction_id == t.id {
            let ghost before = out@;
            push_str(out, "  <gl:entry id=\"p-");
            push_chars(out, &uuid_chars(p.id));
            push_str(out, "\">\n    <gl:date>");
            push_chars(out, &date_iso(t.txn_date));
            push_str(out, "</gl:date>\n    <gl:description>");
            push_xml_escaped(out, &t.description);
            push_str(
                out,
                "</gl:description>\n    <gl:amount contextRef=\"period\" unitRef=\"EUR\" decimals=\"2\">",
            );
            push_chars(out, &amount_text(p.amount));
            push_str(out, "</gl:amount>\n  </gl:entry>\n");
            assert(out@ =~= before + xbrl_entry(*t, *p));
        }
        assert(out@ =~= start + xbrl_entries(*t, ps@, i + 1));
    }
}

fn xbrl_account_exec(out: &mut Vec<char>, a: &AccountRow)
    ensures
        final(out)@ == old(out)@ + xbrl_account(*a),
{
    let ghost before = out@;
    push_str(out, "  <gl:account id=\"acc-");
    push_chars(out, &uuid_chars(a.id));
    push_str(out, "\">\n    <gl:accountCode>");
    push_chars(out, &uuid_chars(a.id));
    push_str(out, "</gl:accountCode>\n    <gl:accountName>");
    push_xml_escaped(out, &a.name);
    push_str(out, "</gl:accountName>\n    <gl:accountType>");
    push_xml_escaped(out, &a.kind);
    push_str(out, "</gl:accountType>\n  </gl:account>\n");
    assert(out@ =~= before + xbrl_account(*a));
}

/// Minimal XBRL-GL instance: period context, accounts and one entry per
/// posting of the transactions dated within `[from, to]`. Every attribute
/// value is closed by its quote, and the root declares the `gl` prefix its
/// account and entry elements use.
pub fn render(snap: &LedgerSnapshot, from: Date, to: Date) -> (r: String)
    ensures
        r@ == xbrl_text(snap, from, to),
{
    let mut out: Vec<char> = Vec::new();
    push_str(
        &mut out,
        "<?xml version=\"1.0\" encoding=\"UTF-8\"?>\n<xbrl xmlns=\"http://www.xbrl.org/int/gl/2005-03-31\"\n      xmlns:xbrli=\"http://www.xbrl.org/2003/instance\"\n      xmlns:link=\"http://www.xbrl.org/2003/linkbase\"\n      xmlns:xlink=\"http://www.w3.org/1999/xlink\"\n      xmlns:gl=\"http://www.xbrl.org/int/gl/2005-03-31\">\n  <context id=\"period\">\n    <entity><identifier scheme=\"www.openaccounting.local\">",
    );
    push_chars(&mut out, &uuid_chars(snap.ledger.id));
    push_str(&mut out, "</identifier></entity>\n    <period>\n      <startDate>");
    push_chars(&mut out, &date_iso(from));
    push_str(&mut out, "</startDate>\n      <endDate>");
    push_chars(&mut out, &date_iso(to));
    push_str(
        &mut out,
        "</endDate>\n    </period>\n  </context>\n  <unit id=\"EUR\"><measure>iso4217:USD</measure></unit>\n",
    );
    let ghost h1 = out@;
    for i in 0..snap.accounts.len()
        invariant
            out@ == h1 + xbrl_accounts(snap.accounts@, i as int),
    {
        xbrl_account_exec(&mut out, &snap.accounts[i]);
        assert(out@ =~= h1 + xbrl_accounts(snap.accounts@, i + 1));
    }
    let ghost h2 = out@;
    for i in 0..snap.transactions.len()
        invariant
            out@ == h2 + xbrl_transactions(snap.transactions@, snap.postings@, from, to, i as int),
    {
        let t = &snap.transactions[i];
        if in_period_exec(t.txn_date, from, to) {
            xbrl_entries_exec(&mut out, t, &snap.postings);
        }
        assert(out@ =~= h2 + xbrl_transactions(snap.transactions@, snap.postings@, from, to, i + 1));
    }
    push_str(&mut out, "</xbrl>\n");
    assert(out@ =~= xbrl_text(snap, from, to));
    chars_to_string(out.as_slice())
}

} // verus!
