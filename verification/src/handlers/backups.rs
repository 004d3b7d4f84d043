//! Backups: who may manage them, which old backup files are removed, and
//! the report of the database integrity check.
use vstd::prelude::*;
use crate::amount::{Amount, amount_text, decimal_text};
use crate::date::{Date, date_iso, iso_date_text};
use crate::error::{AppError, ErrorView};
use crate::escape::{push_chars, push_str};
use crate::text::{str_equal, str_to_chars, chars_to_string};
use crate::uuid_text::{uuid_chars, uuid_text};

verus! {

broadcast use vstd::seq_lib::to_multiset_insert;

/// Only administrators manage backups.
pub fn check_admin(role: &str) -> (r: Result<(), AppError>)
    ensures
        role@ == "admin"@ ==> r is Ok,
        role@ != "admin"@ ==> (r matches Err(e) && e@ == ErrorView::Forbidden),
{
    if !str_equal(role, "admin") {
        return Err(AppError::Forbidden);
    }
    Ok(())
}

/// How many backup files are kept.
pub const KEPT_BACKUPS: usize = 30;

/// A backup file and when it was last modified.
pub struct BackupFile {
    pub name: String,
    pub modified: u128,
}

pub open spec fn file_view(f: BackupFile) -> (Seq<char>, u128) {
    (f.name@, f.modified)
}

pub open spec fn files_view(v: Seq<BackupFile>) -> Seq<(Seq<char>, u128)> {
    v.map_values(|f: BackupFile| file_view(f))
}

/// Files ordered newest first.
pub open spec fn newest_first(v: Seq<(Seq<char>, u128)>) -> bool {
    forall|i: int, j: int| 0 <= i < j < v.len() ==> v[i].1 >= v[j].1
}

fn copy_file(f: &BackupFile) -> (r: BackupFile)
    ensures
        file_view(r) == file_view(*f),
{
    BackupFile { name: f.name.clone(), modified: f.modified }
}

/// The files to keep and to remove: the newest `KEPT_BACKUPS` files are
/// kept (files modified at the same moment keep their listing order),
/// the rest are removed.
pub fn prune_plan(files: &Vec<BackupFile>) -> (r: (Vec<BackupFile>, Vec<BackupFile>))
    ensures
        (files_view(r.0@) + files_view(r.1@)).to_multiset() == files_view(files@).to_multiset(),
        newest_first(files_view(r.0@) + files_view(r.1@)),
        r.0@.len() == if files@.len() < KEPT_BACKUPS {
            files@.len()
        } else {
            KEPT_BACKUPS as nat
        },
{
    let ghost orig = files_view(files@);
    let mut sorted: Vec<BackupFile> = Vec::new();
    assert(files_view(sorted@) =~= orig.subrange(0, 0));
    for i in 0..files.len()
        invariant
            orig == files_view(files@),
            sorted@.len() == i,
            newest_first(files_view(sorted@)),
            files_view(sorted@).to_multiset() == orig.subrange(0, i as int).to_multiset(),
    {
        let f = copy_file(&files[i]);
        let ghost fv = file_view(f);
        assert(fv == orig[i as int]);
        let mut j: usize = 0;
        while j < sorted.len() && sorted[j].modified >= f.modified
            invariant
                j <= sorted@.len(),
                forall|k: int| 0 <= k < j ==> (#[trigger] sorted@[k]).modified >= f.modified,
            decreases sorted@.len() - j,
        {
            j = j + 1;
        }
        let ghost before = files_view(sorted@);
        proof {
            assert forall|k: int| 0 <= k < j implies before[k].1 >= fv.1 by {
                assert(before[k] == file_view(sorted@[k]));
            }
            if j < before.len() {
                assert(before[j as int] == file_view(sorted@[j as int]));
            }
        }
        sorted.insert(j, f);
        proof {
            assert(files_view(sorted@) =~= before.insert(j as int, fv));
            assert(orig.subrange(0, i + 1) =~= orig.subrange(0, i as int).push(fv));
            assert(orig.subrange(0, i as int).push(fv) =~= orig.subrange(0, i as int).insert(i as int, fv));
            let after = files_view(sorted@);
            assert forall|a: int, c: int| 0 <= a < c < after.len() implies after[a].1 >= after[c].1 by {
                if a < j && c < j {
                    assert(after[a] == before[a] && after[c] == before[c]);
                } else if a < j && c == j {
                    assert(after[a] == before[a]);
                } else if a < j {
                    assert(after[a] == before[a] && after[c] == before[c - 1]);
                    assert(before[j as int].1 < fv.1);
                } else if a == j {
                    assert(after[c] == before[c - 1]);
                    assert(before[j as int].1 < fv.1);
                } else {
                    assert(after[a] == before[a - 1] && after[c] == before[c - 1]);
                }
            }
        }
    }
    assert(orig.subrange(0, orig.len() as int) =~= orig);
    let ghost all = files_view(sorted@);
    let mut kept: Vec<BackupFile> = Vec::new();
    let mut removed: Vec<BackupFile> = Vec::new();
    assert(files_view(kept@) + files_view(removed@) =~= all.subrange(0, 0));
    for k in 0..sorted.len()
        invariant
            all == files_view(sorted@),
            files_view(kept@) + files_view(removed@) == all.subrange(0, k as int),
            kept@.len() == if k < KEPT_BACKUPS {
                k as nat
            } else {
                KEPT_BACKUPS as nat
            },
            k <= KEPT_BACKUPS ==> removed@.len() == 0,
    {
        let f = copy_file(&sorted[k]);
        assert(file_view(f) == all[k as int]);
        let ghost kv = files_view(kept@);
        let ghost rv = files_view(removed@);
        if k < KEPT_BACKUPS {
            kept.push(f);
            assert(files_view(kept@) =~= kv.push(file_view(f)));
            assert(rv.len() == 0);
        } else {
            removed.push(f);
            assert(files_view(removed@) =~= rv.push(file_view(f)));
        }
        assert(all.subrange(0, k + 1) =~= all.subrange(0, k as int).push(all[k as int]));
        assert(files_view(kept@) + files_view(removed@) =~= all.subrange(0, k + 1));
    }
    assert(all.subrange(0, all.len() as int) =~= all);
    (kept, removed)
}

/// One finding of the integrity check.
pub struct IntegrityIssue {
    pub severity: String,
    pub check: String,
    pub message: String,
}

/// A transaction whose debits and credits differ.
pub struct UnbalancedTxn {
    pub id: u128,
    pub txn_date: Date,
    pub debits: Amount,
    pub credits: Amount,
}

pub open spec fn amount_display(a: Amount) -> Seq<char> {
    decimal_text(a.mantissa as int, a.scale as nat)
}

pub open spec fn unbalanced_message(t: UnbalancedTxn) -> Seq<char> {
    "Unbalanced transaction "@ + uuid_text(t.id) + " ("@ + iso_date_text(t.txn_date) + "): debits="@
        + amount_display(t.debits) + ", credits="@ + amount_display(t.credits)
}

/// A finding as contracts see it: check name and message.
pub open spec fn issue_view(i: IntegrityIssue) -> (Seq<char>, Seq<char>) {
    (i.check@, i.message@)
}

/// The findings in order: unbalanced transactions, postings on missing
/// accounts, accounts of missing ledgers, transactions of missing ledgers.
pub open spec fn expected_issues(
    unbalanced: Seq<UnbalancedTxn>,
    orphan_postings: Seq<u128>,
    orphan_accounts: Seq<u128>,
    orphan_transactions: Seq<u128>,
) -> Seq<(Seq<char>, Seq<char>)> {
    unbalanced.map_values(|t: UnbalancedTxn| ("balanced"@, unbalanced_message(t))) + orphan_postings.map_values(
        |id: u128| ("valid_account"@, "Posting "@ + uuid_text(id) + " references non-existent account"@),
    ) + orphan_accounts.map_values(
        |id: u128| ("valid_ledger"@, "Account "@ + uuid_text(id) + " references non-existent ledger"@),
    ) + orphan_transactions.map_values(
        |id: u128| ("valid_ledger"@, "Transaction "@ + uuid_text(id) + " references non-existent ledger"@),
    )
}

fn issue(check: &str, message: Vec<char>) -> (r: IntegrityIssue)
    ensures
        r.severity@ == "error"@,
        issue_view(r) == (check@, message@),
{
    IntegrityIssue {
        severity: "error".to_string(),
        check: check.to_string(),
        message: chars_to_string(message.as_slice()),
    }
}

fn id_message(prefix: &str, id: u128, suffix: &str) -> (r: Vec<char>)
    ensures
        r@ == prefix@ + uuid_text(id) + suffix@,
{
    let mut m = str_to_chars(prefix);
    push_chars(&mut m, &uuid_chars(id));
    push_str(&mut m, suffix);
    m
}

fn push_id_issues(out: &mut Vec<IntegrityIssue>, ids: &Vec<u128>, check: &str, prefix: &str, suffix: &str)
    ensures
        final(out)@.map_values(|i: IntegrityIssue| issue_view(i)) == old(out)@.map_values(
            |i: IntegrityIssue| issue_view(i),
        ) + ids@.map_values(|id: u128| (check@, prefix@ + uuid_text(id) + suffix@)),
        forall|k: int| 0 <= k < final(out)@.len() ==> (#[trigger] final(out)@[k]).severity@ == "error"@ || k
            < old(out)@.len(),
        forall|k: int| 0 <= k < old(out)@.len() ==> final(out)@[k] == old(out)@[k],
{
    let ghost start = out@.map_values(|i: IntegrityIssue| issue_view(i));
    let ghost start_len = out@.len();
    let ghost start_seq = out@;
    for j in 0..ids.len()
        invariant
            out@.len() == start_len + j,
            out@.map_values(|i: IntegrityIssue| issue_view(i)) == start + ids@.subrange(0, j as int).map_values(
                |id: u128| (check@, prefix@ + uuid_text(id) + suffix@),
            ),
            forall|k: int| 0 <= k < out@.len() ==> (#[trigger] out@[k]).severity@ == "error"@ || k < start_len,
            forall|k: int| 0 <= k < start_len ==> out@[k] == start_seq[k],
    {
        let ghost before = out@;
        let it = issue(check, id_message(prefix, ids[j], suffix));
        out.push(it);
        assert(out@.map_values(|i: IntegrityIssue| issue_view(i)) =~= before.map_values(
            |i: IntegrityIssue| issue_view(i),
        ).push(issue_view(it)));
        assert(ids@.subrange(0, j + 1).map_values(|id: u128| (check@, prefix@ + uuid_text(id) + suffix@))
            =~= ids@.subrange(0, j as int).map_values(|id: u128| (check@, prefix@ + uuid_text(id) + suffix@)).push(
            (check@, prefix@ + uuid_text(ids@[j as int]) + suffix@),
        ));
    }
    assert(ids@.subrange(0, ids@.len() as int) =~= ids@);
}

/// The findings of the integrity check (see `expected_issues`), each an
/// error, and whether the check passed: it passes when there are none.
pub fn integrity_check(
    unbalanced: &Vec<UnbalancedTxn>,
    orphan_postings: &Vec<u128>,
    orphan_accounts: &Vec<u128>,
    orphan_transactions: &Vec<u128>,
) -> (r: (Vec<IntegrityIssue>, bool))
    ensures
        r.0@.map_values(|i: IntegrityIssue| issue_view(i)) == expected_issues(
            unbalanced@,
            orphan_postings@,
            orphan_accounts@,
            orphan_transactions@,
        ),
        forall|k: int| 0 <= k < r.0@.len() ==> (#[trigger] r.0@[k]).severity@ == "error"@,
        r.1 == (r.0@.len() == 0),
{
    let mut out: Vec<IntegrityIssue> = Vec::new();
    let ghost us = unbalanced@.map_values(|t: UnbalancedTxn| ("balanced"@, unbalanced_message(t)));
    for j in 0..unbalanced.len()
        invariant
            us == unbalanced@.map_values(|t: UnbalancedTxn| ("balanced"@, unbalanced_message(t))),
            out@.map_values(|i: IntegrityIssue| issue_view(i)) == us.subrange(0, j as int),
            forall|k: int| 0 <= k < out@.len() ==> (#[trigger] out@[k]).severity@ == "error"@,
    {
        let t = &unbalanced[j];
        let mut m = id_message("Unbalanced transaction ", t.id, " (");
        push_chars(&mut m, &date_iso(t.txn_date));
        push_str(&mut m, "): debits=");
        push_chars(&mut m, &amount_text(t.debits));
        push_str(&mut m, ", credits=");
        push_chars(&mut m, &amount_text(t.credits));
        let ghost before = out@;
        let it = issue("balanced", m);
        out.push(it);
        assert(out@.map_values(|i: IntegrityIssue| issue_view(i)) =~= before.map_values(
            |i: IntegrityIssue| issue_view(i),
        ).push(issue_view(it)));
        assert(us.subrange(0, j + 1) =~= us.subrange(0, j as int).push(us[j as int]));
    }
    assert(us.subrange(0, us.len() as int) =~= us);
    push_id_issues(&mut out, orphan_postings, "valid_account", "Posting ", " references non-existent account");
    push_id_issues(&mut out, orphan_accounts, "valid_ledger", "Account ", " references non-existent ledger");
    push_id_issues(
        &mut out,
        orphan_transactions,
        "valid_ledger",
        "Transaction ",
        " references non-existent ledger",
    );
    let passed = out.len() == 0;
    (out, passed)
}

} // verus!
