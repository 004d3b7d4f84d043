//! Ledger snapshot and the accountants' hand-off exports: DATEV
//! Buchungsstapel CSV, SAF-T lite XML and a minimal XBRL-GL instance.
use vstd::prelude::*;
use crate::amount::Amount;
use crate::date::Date;
use crate::escape::{push_chars, xml_escaped};
use crate::text::str_to_chars;

pub mod datev;
pub mod saf_t;
pub mod xbrl;

verus! {

/// An instant as seconds and nanoseconds since the Unix epoch (UTC).
#[derive(Debug, Clone, Copy, PartialEq, Eq)]
pub struct Timestamp {
    pub secs: i64,
    pub nanos: u32,
}

#[derive(Debug, Clone)]
pub struct LedgerMeta {
    pub id: u128,
    pub owner_id: u128,
    pub name: String,
    pub base_currency: String,
    pub timezone: String,
    pub basis: String,
    pub created_at: Timestamp,
    pub updated_at: Timestamp,
}

#[derive(Debug, Clone)]
pub struct AccountRow {
    pub id: u128,
    pub parent_id: Option<u128>,
    pub name: String,
    pub code: Option<String>,
    pub kind: String,
    pub subtype: String,
    pub currency: String,
    pub is_archived: bool,
    pub description: Option<String>,
}

#[derive(Debug, Clone)]
pub struct TransactionRow {
    pub id: u128,
    pub txn_date: Date,
    pub description: String,
    pub payee: Option<String>,
    pub reference: Option<String>,
    pub currency: String,
    pub created_by: u128,
    pub created_at: Timestamp,
    pub tag_ids: Vec<u128>,
}

#[derive(Debug, Clone)]
pub struct PostingRow {
    pub id: u128,
    pub transaction_id: u128,
    pub account_id: u128,
    pub amount: Amount,
    pub currency: String,
    pub direction: String,
    pub memo: Option<String>,
}

#[derive(Debug, Clone)]
pub struct TagRow {
    pub id: u128,
    pub name: String,
}

#[derive(Debug, Clone)]
pub struct DocumentRef {
    pub id: u128,
    pub transaction_id: u128,
    pub filename: String,
    pub mime_type: String,
    pub size_bytes: i64,
    pub uploaded_at: Timestamp,
}

#[derive(Debug, Clone)]
pub struct BudgetRow {
    pub id: u128,
    pub account_id: u128,
    pub period: String,
    pub amount: Amount,
    pub currency: String,
    pub alert_threshold: Amount,
    pub start_date: Date,
    pub end_date: Date,
}

/// In-memory snapshot of one ledger.
#[derive(Debug, Clone)]
pub struct LedgerSnapshot {
    pub ledger: LedgerMeta,
    pub accounts: Vec<AccountRow>,
    pub transactions: Vec<TransactionRow>,
    pub postings: Vec<PostingRow>,
    pub tags: Vec<TagRow>,
    pub document_refs: Vec<DocumentRef>,
    pub budgets: Vec<BudgetRow>,
    /// ISO-4217 codes seen across all postings, deduplicated, in order of
    /// first appearance.
    pub currencies: Vec<String>,
}

/// The distinct entries of a sequence, each where it first occurs.
pub open spec fn first_seen(s: Seq<Seq<char>>) -> Seq<Seq<char>>
    decreases s.len(),
{
    if s.len() == 0 {
        Seq::empty()
    } else if first_seen(s.drop_last()).contains(s.last()) {
        first_seen(s.drop_last())
    } else {
        first_seen(s.drop_last()).push(s.last())
    }
}

/// The currencies of a snapshot: the codes of its postings, each once, in
/// order of first appearance.
pub open spec fn currencies_seen(postings: Seq<PostingRow>) -> Seq<Seq<char>> {
    first_seen(postings.map_values(|p: PostingRow| p.currency@))
}

proof fn lemma_first_seen(s: Seq<Seq<char>>)
    ensures
        forall|i: int, j: int| 0 <= i < j < first_seen(s).len() ==> first_seen(s)[i] != first_seen(s)[j],
        forall|x: Seq<char>| s.contains(x) <==> first_seen(s).contains(x),
    decreases s.len(),
{
    if s.len() > 0 {
        let p = s.drop_last();
        let fp = first_seen(p);
        lemma_first_seen(p);
        assert(s[s.len() - 1] == s.last());
        assert forall|x: Seq<char>| s.contains(x) <==> first_seen(s).contains(x) by {
            if s.contains(x) {
                let k = choose|k: int| 0 <= k < s.len() && s[k] == x;
                if k < s.len() - 1 {
                    assert(p[k] == x);
                    assert(p.contains(x));
                }
            }
            if p.contains(x) {
                let k = choose|k: int| 0 <= k < p.len() && p[k] == x;
                assert(s[k] == x);
            }
            if !fp.contains(s.last()) {
                let fs = fp.push(s.last());
                assert(fs[fp.len() as int] == s.last());
                if fp.contains(x) {
                    let k = choose|k: int| 0 <= k < fp.len() && fp[k] == x;
                    assert(fs[k] == x);
                }
                if fs.contains(x) {
                    let k = choose|k: int| 0 <= k < fs.len() && fs[k] == x;
                    if k < fp.len() {
                        assert(fp[k] == x);
                    }
                }
            }
        }
        if !fp.contains(s.last()) {
            let fs = fp.push(s.last());
            assert forall|i: int, j: int| 0 <= i < j < fs.len() implies fs[i] != fs[j] by {
                if j == fp.len() {
                    assert(fs[i] == fp[i]);
                    if fp[i] == s.last() {
                        assert(fp.contains(s.last()));
                    }
                }
            }
        }
    }
}

fn push_new(out: &mut Vec<String>, c: &str)
    ensures
        string_seq(final(out)@) == (if string_seq(old(out)@).contains(c@) {
            string_seq(old(out)@)
        } else {
            string_seq(old(out)@).push(c@)
        }),
{
    let ghost before = string_seq(out@);
    let mut i: usize = 0;
    while i < out.len()
        invariant
            i <= out@.len(),
            before == string_seq(out@),
            forall|j: int| 0 <= j < i ==> before[j] != c@,
        decreases out@.len() - i,
    {
        if crate::text::str_equal(out[i].as_str(), c) {
            assert(before[i as int] == c@);
            return;
        }
        i = i + 1;
    }
    out.push(c.to_string());
    assert(string_seq(out@) =~= before.push(c@));
}

pub open spec fn string_seq(v: Seq<String>) -> Seq<Seq<char>> {
    v.map_values(|s: String| s@)
}

/// The currencies of a snapshot (see `currencies_seen`): those of the
/// postings, each once, in the order first seen.
pub fn snapshot_currencies(postings: &Vec<PostingRow>) -> (r: Vec<String>)
    ensures
        string_seq(r@) == currencies_seen(postings@),
        forall|i: int, j: int| 0 <= i < j < r@.len() ==> r@[i]@ != r@[j]@,
        forall|c: Seq<char>|
            string_seq(r@).contains(c) <==> exists|k: int|
                0 <= k < postings@.len() && #[trigger] postings@[k].currency@ == c,
{
    let ghost all = postings@.map_values(|p: PostingRow| p.currency@);
    let mut out: Vec<String> = Vec::new();
    assert(string_seq(out@) =~= first_seen(all.subrange(0, 0)));
    let m = postings.len();
    for k in 0..m
        invariant
            m == postings@.len(),
            all == postings@.map_values(|p: PostingRow| p.currency@),
            string_seq(out@) == first_seen(all.subrange(0, k as int)),
    {
        assert(all.subrange(0, k + 1).drop_last() =~= all.subrange(0, k as int));
        assert(all[k as int] == postings@[k as int].currency@);
        push_new(&mut out, postings[k].currency.as_str());
    }
    assert(all.subrange(0, m as int) =~= all);
    proof {
        lemma_first_seen(all);
        assert forall|i: int, j: int| 0 <= i < j < out@.len() implies out@[i]@ != out@[j]@ by {
            assert(string_seq(out@)[i] == out@[i]@);
            assert(string_seq(out@)[j] == out@[j]@);
        }
        assert forall|c: Seq<char>|
            string_seq(out@).contains(c) <==> exists|k: int|
                0 <= k < postings@.len() && #[trigger] postings@[k].currency@ == c by {
            if all.contains(c) {
                let k = choose|k: int| 0 <= k < all.len() && all[k] == c;
                assert(postings@[k].currency@ == c);
            }
            if exists|k: int| 0 <= k < postings@.len() && #[trigger] postings@[k].currency@ == c {
                let k = choose|k: int| 0 <= k < postings@.len() && #[trigger] postings@[k].currency@ == c;
                assert(all[k] == c);
            }
        }
    }
    out
}

/// A snapshot whose dates and amounts are valid values.
pub open spec fn snapshot_wf(s: &LedgerSnapshot) -> bool {
    &&& forall|i: int| 0 <= i < s.transactions@.len() ==> (#[trigger] s.transactions@[i]).txn_date.wf()
    &&& forall|i: int| 0 <= i < s.postings@.len() ==> (#[trigger] s.postings@[i]).amount.wf()
}

/// A transaction date lies in `[from, to]`.
pub open spec fn in_period(d: Date, from: Date, to: Date) -> bool {
    !d.before(from) && !to.before(d)
}

pub fn in_period_exec(d: Date, from: Date, to: Date) -> (r: bool)
    ensures
        r == in_period(d, from, to),
{
    !crate::date::date_before(d, from) && !crate::date::date_before(to, d)
}

pub(crate) fn push_string(out: &mut Vec<char>, s: &String)
    ensures
        final(out)@ == old(out)@ + s@,
{
    let cs = str_to_chars(s.as_str());
    push_chars(out, &cs);
}

pub(crate) fn push_xml_escaped(out: &mut Vec<char>, s: &String)
    ensures
        final(out)@ == old(out)@ + xml_escaped(s@),
{
    let e = crate::escape::xml_escape(s.as_str());
    push_string(out, &e);
}

} // verus!
