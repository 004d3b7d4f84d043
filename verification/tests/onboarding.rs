use openaccounting::handlers::onboarding::{compute_setup_status, Milestones};

const LEDGER: u128 = 0x67e55044_10b1_426f_9247_bb680e5fe0c8;

fn none() -> Milestones {
    Milestones {
        opening_balances: false,
        first_transaction: false,
        documents: false,
        bank_feed: false,
        other_members: false,
        pending_invites: false,
    }
}

#[test]
fn checklist_links_and_counts() {
    let mut m = none();
    m.opening_balances = true;
    m.pending_invites = true;
    let s = compute_setup_status(LEDGER, m);
    assert_eq!(s.total, 5);
    assert_eq!(s.done, 2);
    assert!(!s.complete);
    let ids: Vec<&str> = s.steps.iter().map(|x| x.id.as_str()).collect();
    assert_eq!(ids, vec!["opening_balances", "first_transaction", "documents", "bank_feed", "collaborator"]);
    assert_eq!(s.steps[0].href, "/ledgers/67e55044-10b1-426f-9247-bb680e5fe0c8/opening-balances");
    assert_eq!(s.steps[4].href, "/ledgers/67e55044-10b1-426f-9247-bb680e5fe0c8/share");
    assert!(s.steps[4].done);
    assert_eq!(s.steps[1].label, "Record your first transaction");
}

#[test]
fn checklist_is_complete_when_every_step_is_done() {
    let m = Milestones {
        opening_balances: true,
        first_transaction: true,
        documents: true,
        bank_feed: true,
        other_members: true,
        pending_invites: false,
    };
    let s = compute_setup_status(LEDGER, m);
    assert_eq!(s.done, 5);
    assert!(s.complete);
    assert_eq!(compute_setup_status(LEDGER, none()).done, 0);
}
