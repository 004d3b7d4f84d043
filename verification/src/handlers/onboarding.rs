//! The setup checklist of a ledger: five milestones, each derived from
//! what the ledger already holds.
use vstd::prelude::*;
use crate::escape::{push_chars, push_str};
use crate::text::{str_to_chars, chars_to_string};
use crate::uuid_text::{uuid_chars, uuid_text};

verus! {

/// One milestone of the checklist.
pub struct SetupStep {
    pub id: String,
    pub label: String,
    pub description: String,
    pub done: bool,
    pub href: String,
}

/// The checklist: its steps, how many are done, of how many.
pub struct SetupStatus {
    pub steps: Vec<SetupStep>,
    pub done: usize,
    pub total: usize,
    pub complete: bool,
}

/// What the ledger holds, as far as the checklist asks.
#[derive(Clone, Copy)]
pub struct Milestones {
    /// A posted opening-balances transaction.
    pub opening_balances: bool,
    /// A posted transaction other than the opening balances.
    pub first_transaction: bool,
    /// A document of the ledger or of one of its transactions.
    pub documents: bool,
    /// A linked bank feed.
    pub bank_feed: bool,
    /// A member other than the owner.
    pub other_members: bool,
    /// A pending invitation.
    pub pending_invites: bool,
}

/// Whether each step is done, in checklist order; the collaborator step
/// counts a member or a pending invitation.
pub open spec fn step_flags(m: Milestones) -> Seq<bool> {
    seq![
        m.opening_balances,
        m.first_transaction,
        m.documents,
        m.bank_feed,
        m.other_members || m.pending_invites,
    ]
}

pub open spec fn count_done(s: Seq<bool>) -> nat
    decreases s.len(),
{
    if s.len() == 0 {
        0
    } else {
        count_done(s.drop_last()) + if s.last() {
            1nat
        } else {
            0nat
        }
    }
}

/// The ids and the pages (below `/ledgers/{id}`) of the steps.
pub open spec fn step_ids() -> Seq<Seq<char>> {
    seq!["opening_balances"@, "first_transaction"@, "documents"@, "bank_feed"@, "collaborator"@]
}

pub open spec fn step_labels() -> Seq<Seq<char>> {
    seq![
        "Set opening balances"@,
        "Record your first transaction"@,
        "Attach a receipt or invoice"@,
        "Link a bank account"@,
        "Invite a collaborator"@,
    ]
}

pub open spec fn step_descriptions() -> Seq<Seq<char>> {
    seq![
        "Bring your starting money, debts, and equity into the books."@,
        "Enter an expense, a sale, or a transfer."@,
        "Upload proof for a transaction."@,
        "Connect a bank feed or import a statement."@,
        "Share the books with your team or accountant."@,
    ]
}

pub open spec fn step_pages() -> Seq<Seq<char>> {
    seq!["/opening-balances"@, "/transactions/new"@, "/documents"@, "/bank-feeds"@, "/share"@]
}

fn step(id: &str, label: &str, description: &str, done: bool, ledger: &Vec<char>, page: &str) -> (r: SetupStep)
    ensures
        r.id@ == id@,
        r.label@ == label@,
        r.description@ == description@,
        r.done == done,
        r.href@ == "/ledgers/"@ + ledger@ + page@,
{
    let mut h = str_to_chars("/ledgers/");
    push_chars(&mut h, ledger);
    push_str(&mut h, page);
    SetupStep {
        id: id.to_string(),
        label: label.to_string(),
        description: description.to_string(),
        done,
        href: chars_to_string(h.as_slice()),
    }
}

/// The checklist of a ledger: the five steps in order with their links,
/// the number done, and whether all are.
pub fn compute_setup_status(ledger_id: u128, m: Milestones) -> (r: SetupStatus)
    ensures
        r.steps@.len() == 5,
        r.total == 5,
        forall|i: int|
            0 <= i < 5 ==> (#[trigger] r.steps@[i]).done == step_flags(m)[i] && r.steps@[i].id@ == step_ids()[i]
                && r.steps@[i].href@ == "/ledgers/"@ + uuid_text(ledger_id) + step_pages()[i]
                && r.steps@[i].label@ == step_labels()[i] && r.steps@[i].description@ == step_descriptions()[i],
        r.done == count_done(step_flags(m)),
        r.complete == (r.done == r.total),
{
    let l = uuid_chars(ledger_id);
    let mut steps: Vec<SetupStep> = Vec::new();
    steps.push(
        step(
            "opening_balances",
            "Set opening balances",
            "Bring your starting money, debts, and equity into the books.",
            m.opening_balances,
            &l,
            "/opening-balances",
        ),
    );
    steps.push(
        step(
            "first_transaction",
            "Record your first transaction",
            "Enter an expense, a sale, or a transfer.",
            m.first_transaction,
            &l,
            "/transactions/new",
        ),
    );
    steps.push(
        step(
            "documents",
            "Attach a receipt or invoice",
            "Upload proof for a transaction.",
            m.documents,
            &l,
            "/documents",
        ),
    );
    steps.push(
        step(
            "bank_feed",
            "Link a bank account",
            "Connect a bank feed or import a statement.",
            m.bank_feed,
            &l,
            "/bank-feeds",
        ),
    );
    steps.push(
        step(
            "collaborator",
            "Invite a collaborator",
            "Share the books with your team or accountant.",
            m.other_members || m.pending_invites,
            &l,
            "/share",
        ),
    );
    let mut done: usize = 0;
    let ghost flags = step_flags(m);
    for i in 0..steps.len()
        invariant
            steps@.len() == 5,
            flags == step_flags(m),
            forall|j: int| 0 <= j < 5 ==> (#[trigger] steps@[j]).done == flags[j],
            done == count_done(flags.subrange(0, i as int)),
            done <= i,
    {
        assert(flags.subrange(0, i + 1).drop_last() =~= flags.subrange(0, i as int));
        if steps[i].done {
            done = done + 1;
        }
    }
    assert(flags.subrange(0, 5) =~= flags);
    let total = steps.len();
    SetupStatus { steps, done, total, complete: done == total }
}

} // verus!
