//! Journal postings: one leg of a transaction, and the debit and credit
//! totals whose equality makes a transaction balanced.
use vstd::prelude::*;
use crate::amount::Amount;

verus! {

/// One leg of a transaction: an account, an amount and a direction.
#[derive(Debug, Clone, Copy)]
pub struct Posting {
    pub account: u128,
    pub amount: Amount,
    pub debit: bool,
}

impl Posting {
    pub fn debit(account: u128, amount: Amount) -> (r: Posting)
        ensures
            r == (Posting { account, amount, debit: true }),
    {
        Posting { account, amount, debit: true }
    }

    pub fn credit(account: u128, amount: Amount) -> (r: Posting)
        ensures
            r == (Posting { account, amount, debit: false }),
    {
        Posting { account, amount, debit: false }
    }
}

/// Sum of the debit legs (in units of 10^-28).
pub open spec fn debit_total(ps: Seq<Posting>) -> int
    decreases ps.len(),
{
    if ps.len() == 0 {
        0
    } else {
        debit_total(ps.drop_last()) + if ps.last().debit {
            ps.last().amount.value()
        } else {
            0
        }
    }
}

/// Sum of the credit legs (in units of 10^-28).
pub open spec fn credit_total(ps: Seq<Posting>) -> int
    decreases ps.len(),
{
    if ps.len() == 0 {
        0
    } else {
        credit_total(ps.drop_last()) + if ps.last().debit {
            0
        } else {
            ps.last().amount.value()
        }
    }
}

/// Debits equal credits.
pub open spec fn balanced(ps: Seq<Posting>) -> bool {
    debit_total(ps) == credit_total(ps)
}

/// The totals of a concatenation add up.
pub proof fn lemma_totals_concat(a: Seq<Posting>, b: Seq<Posting>)
    ensures
        debit_total(a + b) == debit_total(a) + debit_total(b),
        credit_total(a + b) == credit_total(a) + credit_total(b),
    decreases b.len(),
{
    if b.len() == 0 {
        assert(a + b =~= a);
    } else {
        lemma_totals_concat(a, b.drop_last());
        assert((a + b).drop_last() =~= a + b.drop_last());
    }
}

/// The totals of a single leg.
pub proof fn lemma_single_totals(p: Posting)
    ensures
        debit_total(seq![p]) == (if p.debit { p.amount.value() } else { 0 }),
        credit_total(seq![p]) == (if p.debit { 0 } else { p.amount.value() }),
{
    let s = seq![p];
    assert(s.drop_last() =~= Seq::<Posting>::empty());
    assert(s.last() == p);
    assert(debit_total(Seq::<Posting>::empty()) == 0);
    assert(credit_total(Seq::<Posting>::empty()) == 0);
}

/// Debits less credits on one account.
pub open spec fn account_net(ps: Seq<Posting>, account: u128) -> int
    decreases ps.len(),
{
    if ps.len() == 0 {
        0
    } else {
        account_net(ps.drop_last(), account) + if ps.last().account != account {
            0
        } else if ps.last().debit {
            ps.last().amount.value()
        } else {
            -ps.last().amount.value()
        }
    }
}

/// A two-leg entry that moves `amount` from the credited account to the
/// debited one.
pub fn transfer(debit_account: u128, credit_account: u128, amount: Amount) -> (r: Vec<Posting>)
    ensures
        r@ == seq![
            Posting { account: debit_account, amount, debit: true },
            Posting { account: credit_account, amount, debit: false },
        ],
        balanced(r@),
        debit_account != credit_account ==> account_net(r@, debit_account) == amount.value()
            && account_net(r@, credit_account) == -amount.value(),
{
    let mut r: Vec<Posting> = Vec::new();
    r.push(Posting::debit(debit_account, amount));
    r.push(Posting::credit(credit_account, amount));
    proof {
        let a = Posting { account: debit_account, amount, debit: true };
        let b = Posting { account: credit_account, amount, debit: false };
        assert(r@ =~= seq![a] + seq![b]);
        lemma_single_totals(a);
        lemma_single_totals(b);
        lemma_totals_concat(seq![a], seq![b]);
        assert(r@.drop_last() =~= seq![a]);
        assert(r@.last() == b);
        assert(seq![a].drop_last() =~= Seq::<Posting>::empty());
        assert(seq![a].last() == a);
        if debit_account != credit_account {
            assert(account_net(Seq::<Posting>::empty(), debit_account) == 0);
            assert(account_net(Seq::<Posting>::empty(), credit_account) == 0);
            assert(account_net(seq![a], debit_account) == amount.value());
            assert(account_net(seq![a], credit_account) == 0);
            assert(account_net(r@, debit_account) == amount.value());
            assert(account_net(r@, credit_account) == -amount.value());
        }
    }
    r
}

} // verus!
