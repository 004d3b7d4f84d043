//! Period closing: the year-end closing entry, the close and reopen
//! forms, the maker-checker threshold, and the answers to journal
//! approvals.
use vstd::prelude::*;
use crate::amount::{Amount, sum_all, sum_amounts, total_value, decimal_parse, parse_amount, int_text, int_to_text, lemma_sum_value};
use crate::date::{Date, chrono_parse_date, parse_date_with_format, from_ymd_opt, valid_ymd, iso_date_text, date_iso};
use crate::error::{AppError, ErrorView, fails_validation, validation};
use crate::journal::{Posting, debit_total, credit_total, balanced, lemma_single_totals, lemma_totals_concat};
use crate::text::{cat, chars_to_string, str_equal, trim_seq, trim_string};

verus! {

/// The net balance (debits less credits) of an income or expense account
/// over the closed year.
#[derive(Debug, Clone)]
pub struct AccountBalance {
    pub account: u128,
    pub account_type: String,
    pub raw_net: Amount,
}

pub open spec fn is_income(b: AccountBalance) -> bool {
    b.account_type@ == "INCOME"@
}

pub open spec fn is_expense(b: AccountBalance) -> bool {
    b.account_type@ == "EXPENSE"@
}

/// What an account adds to the year's net income: an income account its
/// credits less debits, an expense account minus its debits less credits;
/// for both that is its balance negated. Other accounts add nothing.
pub open spec fn income_contribution(b: AccountBalance) -> Amount {
    if is_income(b) || is_expense(b) {
        Amount { mantissa: (-b.raw_net.mantissa) as i128, scale: b.raw_net.scale }
    } else {
        Amount { mantissa: 0, scale: 0 }
    }
}

pub open spec fn contributions(bs: Seq<AccountBalance>) -> Seq<Amount> {
    bs.map_values(|b: AccountBalance| income_contribution(b))
}

pub open spec fn balances_wf(bs: Seq<AccountBalance>) -> bool {
    forall|i: int| 0 <= i < bs.len() ==> (#[trigger] bs[i]).raw_net.wf()
}

/// The magnitude of an amount, at its scale.
pub open spec fn magnitude(a: Amount) -> Amount {
    if a.mantissa < 0 {
        Amount { mantissa: (-a.mantissa) as i128, scale: a.scale }
    } else {
        a
    }
}

/// The closing legs of the accounts: each income and expense account is
/// brought to zero by a leg of the magnitude of its balance, a debit for a
/// credit balance and a credit for a debit balance; accounts with a zero
/// balance, and of other types, get no leg.
pub open spec fn closing_legs(bs: Seq<AccountBalance>) -> Seq<Posting>
    decreases bs.len(),
{
    if bs.len() == 0 {
        Seq::empty()
    } else {
        let b = bs.last();
        let prev = closing_legs(bs.drop_last());
        if b.raw_net.mantissa != 0 && (is_income(b) || is_expense(b)) {
            prev.push(
                Posting {
                    account: b.account,
                    amount: magnitude(b.raw_net),
                    debit: b.raw_net.mantissa < 0,
                },
            )
        } else {
            prev
        }
    }
}

/// The retained-earnings leg: credited with a positive net income,
/// debited with the magnitude of a negative one, absent for zero.
pub open spec fn retained_earnings_leg(net: Amount, retained_earnings: u128) -> Seq<Posting> {
    if net.mantissa > 0 {
        seq![Posting { account: retained_earnings, amount: net, debit: false }]
    } else if net.mantissa < 0 {
        seq![Posting { account: retained_earnings, amount: magnitude(net), debit: true }]
    } else {
        Seq::empty()
    }
}

fn magnitude_of(a: Amount) -> (r: Amount)
    requires
        a.wf(),
    ensures
        r == magnitude(a),
        r.wf(),
{
    if a.mantissa < 0 {
        Amount { mantissa: -a.mantissa, scale: a.scale }
    } else {
        a
    }
}

/// The year-end closing entry: the closing legs of the accounts, then the
/// retained-earnings leg for the net income the accounts add up to. The
/// net income is returned with it. The entry balances.
pub fn closing_entry(balances: &Vec<AccountBalance>, retained_earnings: u128) -> (r: (Vec<Posting>, Amount))
    requires
        balances_wf(balances@),
        sum_amounts(contributions(balances@)) is Some,
    ensures
        Some(r.1) == sum_amounts(contributions(balances@)),
        r.1.value() == total_value(contributions(balances@)),
        r.0@ == closing_legs(balances@) + retained_earnings_leg(r.1, retained_earnings),
        balanced(r.0@),
{
    let mut contribs: Vec<Amount> = Vec::new();
    let mut legs: Vec<Posting> = Vec::new();
    for i in 0..balances.len()
        invariant
            balances_wf(balances@),
            contribs@ == contributions(balances@.subrange(0, i as int)),
            legs@ == closing_legs(balances@.subrange(0, i as int)),
            forall|k: int| 0 <= k < contribs@.len() ==> (#[trigger] contribs@[k]).wf(),
    {
        assert(balances@.subrange(0, i + 1).drop_last() =~= balances@.subrange(0, i as int));
        let b = &balances[i];
        let closes = str_equal(b.account_type.as_str(), "INCOME") || str_equal(
            b.account_type.as_str(),
            "EXPENSE",
        );
        proof {
            crate::amount::lemma_negated_value(b.raw_net);
            crate::amount::lemma_zero_value();
        }
        assert(b.raw_net == balances@[i as int].raw_net);
        let c = if closes {
            Amount { mantissa: -b.raw_net.mantissa, scale: b.raw_net.scale }
        } else {
            Amount::zero()
        };
        contribs.push(c);
        assert(contribs@ =~= contributions(balances@.subrange(0, i + 1)));
        if b.raw_net.mantissa != 0 && closes {
            if b.raw_net.mantissa < 0 {
                legs.push(Posting::debit(b.account, magnitude_of(b.raw_net)));
            } else {
                legs.push(Posting::credit(b.account, magnitude_of(b.raw_net)));
            }
        }
    }
    assert(balances@.subrange(0, balances@.len() as int) =~= balances@);
    proof {
        lemma_sum_value(contributions(balances@));
    }
    let net = match sum_all(&contribs) {
        Some(n) => n,
        None => Amount::zero(),
    };
    let ghost before = legs@;
    if net.mantissa > 0 {
        legs.push(Posting::credit(retained_earnings, net));
    } else if net.mantissa < 0 {
        legs.push(Posting::debit(retained_earnings, magnitude_of(net)));
    }
    assert(legs@ =~= before + retained_earnings_leg(net, retained_earnings));
    proof {
        closing_entry_balances(balances@, net, retained_earnings);
    }
    (legs, net)
}

/// Debits less credits of the closing legs: the balances of the income
/// and expense accounts, negated.
pub open spec fn legs_excess(bs: Seq<AccountBalance>) -> int
    decreases bs.len(),
{
    if bs.len() == 0 {
        0
    } else {
        let b = bs.last();
        legs_excess(bs.drop_last()) + if is_income(b) || is_expense(b) {
            -b.raw_net.value()
        } else {
            0
        }
    }
}

proof fn lemma_magnitude_value(a: Amount)
    requires
        a.wf(),
    ensures
        magnitude(a).value() == if a.value() < 0 {
            -a.value()
        } else {
            a.value()
        },
        a.mantissa == 0 ==> a.value() == 0,
        a.mantissa < 0 <==> a.value() < 0,
{
    crate::amount::lemma_value_sign(a);
    crate::amount::lemma_negated_value(a);
}

proof fn lemma_balances_prefix(bs: Seq<AccountBalance>)
    requires
        balances_wf(bs),
        bs.len() > 0,
    ensures
        balances_wf(bs.drop_last()),
{
    assert forall|i: int| 0 <= i < bs.drop_last().len() implies (#[trigger] bs.drop_last()[i]).raw_net.wf() by {
        assert(bs.drop_last()[i] == bs[i]);
    }
}

proof fn lemma_closing_legs_totals(bs: Seq<AccountBalance>)
    requires
        balances_wf(bs),
    ensures
        debit_total(closing_legs(bs)) - credit_total(closing_legs(bs)) == legs_excess(bs),
    decreases bs.len(),
{
    if bs.len() > 0 {
        let b = bs.last();
        assert(b == bs[bs.len() - 1]);
        lemma_balances_prefix(bs);
        lemma_closing_legs_totals(bs.drop_last());
        lemma_magnitude_value(b.raw_net);
        let prev = closing_legs(bs.drop_last());
        if b.raw_net.mantissa != 0 && (is_income(b) || is_expense(b)) {
            assert(closing_legs(bs).drop_last() =~= prev);
        }
    }
}

proof fn lemma_excess_is_net(bs: Seq<AccountBalance>)
    requires
        balances_wf(bs),
    ensures
        legs_excess(bs) == total_value(contributions(bs)),
    decreases bs.len(),
{
    if bs.len() > 0 {
        let b = bs.last();
        assert(b == bs[bs.len() - 1]);
        assert(contributions(bs).drop_last() =~= contributions(bs.drop_last()));
        lemma_balances_prefix(bs);
        lemma_excess_is_net(bs.drop_last());
        crate::amount::lemma_negated_value(b.raw_net);
        crate::amount::lemma_zero_value();
    }
}

/// The year-end closing entry balances: its debits equal its credits, for
/// any balances of any accounts, whatever their sign.
pub proof fn closing_entry_balances(bs: Seq<AccountBalance>, net: Amount, retained_earnings: u128)
    requires
        balances_wf(bs),
        net.wf(),
        net.value() == total_value(contributions(bs)),
    ensures
        balanced(closing_legs(bs) + retained_earnings_leg(net, retained_earnings)),
{
    lemma_closing_legs_totals(bs);
    lemma_excess_is_net(bs);
    lemma_magnitude_value(net);
    crate::amount::lemma_value_sign(net);
    let re = retained_earnings_leg(net, retained_earnings);
    lemma_totals_concat(closing_legs(bs), re);
    if net.mantissa > 0 {
        lemma_single_totals(Posting { account: retained_earnings, amount: net, debit: false });
    } else if net.mantissa < 0 {
        lemma_single_totals(Posting { account: retained_earnings, amount: magnitude(net), debit: true });
    }
}

/// The description of the closing transaction.
pub fn closing_description(year: i32) -> (r: String)
    ensures
        r@ == "Year-end close "@ + int_text(year as int),
{
    cat("Year-end close ", chars_to_string(int_to_text(year as i128).as_slice()).as_str())
}

/// The refusal to close a year twice.
pub fn already_closed(year: i32) -> (r: AppError)
    ensures
        r@ == ErrorView::Validation("Period "@ + int_text(year as int) + " is already closed."@),
{
    let a = cat("Period ", chars_to_string(int_to_text(year as i128).as_slice()).as_str());
    AppError::Validation(cat(a.as_str(), " is already closed."))
}

/// The first and last days of a year.
pub fn year_bounds(year: i32) -> (r: Result<(Date, Date), AppError>)
    ensures
        valid_ymd(year as int, 1, 1) && valid_ymd(year as int, 12, 31) ==> r == Ok::<(Date, Date), AppError>(
            (Date { year, month: 1, day: 1 }, Date { year, month: 12, day: 31 }),
        ),
        !(valid_ymd(year as int, 1, 1) && valid_ymd(year as int, 12, 31)) ==> (r matches Err(e) && e@
            == ErrorView::Internal("Invalid year"@)),
{
    let start = match from_ymd_opt(year, 1, 1) {
        Some(d) => d,
        None => {
            return Err(AppError::Internal("Invalid year".to_string()));
        },
    };
    let end = match from_ymd_opt(year, 12, 31) {
        Some(d) => d,
        None => {
            return Err(AppError::Internal("Invalid year".to_string()));
        },
    };
    Ok((start, end))
}

pub struct ClosePeriodForm {
    pub closed_through: String,
}

pub open spec fn date_before_or_on(a: Date, b: Date) -> bool {
    a.year < b.year || (a.year == b.year && (a.month < b.month || (a.month == b.month && a.day
        <= b.day)))
}

/// A hard close through a date: the date (trimmed, `YYYY-MM-DD`) must lie
/// after the current watermark, if any. Yields the date.
pub fn close_through(form: &ClosePeriodForm, watermark: Option<Date>) -> (r: Result<Date, AppError>)
    ensures
        match chrono_parse_date(trim_seq(form.closed_through@), "%Y-%m-%d"@) {
            Err(_) => fails_validation(r, "Invalid closed_through date (YYYY-MM-DD)"@),
            Ok((y, m, d)) => {
                let t = Date { year: y, month: m, day: d };
                match watermark {
                    Some(w) => if date_before_or_on(t, w) {
                        fails_validation(
                            r,
                            "Ledger is already closed through "@ + iso_date_text(w) + "."@,
                        )
                    } else {
                        r == Ok::<Date, AppError>(t)
                    },
                    None => r == Ok::<Date, AppError>(t),
                }
            },
        },
{
    let t = trim_string(form.closed_through.as_str());
    let through = match parse_date_with_format(t.as_str(), "%Y-%m-%d") {
        Ok(d) => d,
        Err(_) => {
            return Err(validation("Invalid closed_through date (YYYY-MM-DD)"));
        },
    };
    if let Some(w) = watermark {
        if through.year < w.year || (through.year == w.year && (through.month < w.month || (
        through.month == w.month && through.day <= w.day))) {
            let a = cat(
                "Ledger is already closed through ",
                chars_to_string(date_iso(w).as_slice()).as_str(),
            );
            return Err(AppError::Validation(cat(a.as_str(), ".")));
        }
    }
    Ok(through)
}

pub struct ReopenForm {
    pub reason: String,
    pub closed_through: Option<String>,
}

/// The date a reopen goes back to: none when the field is absent or
/// blank (a full reopen), else a `YYYY-MM-DD` date.
pub fn reopen_through(form: &ReopenForm) -> (r: Result<Option<Date>, AppError>)
    ensures
        match form.closed_through {
            None => r == Ok::<Option<Date>, AppError>(None),
            Some(s) => if trim_seq(s@).len() == 0 {
                r == Ok::<Option<Date>, AppError>(None)
            } else {
                match chrono_parse_date(trim_seq(s@), "%Y-%m-%d"@) {
                    Err(_) => fails_validation(r, "Invalid closed_through date"@),
                    Ok((y, m, d)) => r == Ok::<Option<Date>, AppError>(
                        Some(Date { year: y, month: m, day: d }),
                    ),
                }
            },
        },
{
    match &form.closed_through {
        None => Ok(None),
        Some(s) => {
            let t = trim_string(s.as_str());
            if t.as_str().is_empty() {
                Ok(None)
            } else {
                match parse_date_with_format(t.as_str(), "%Y-%m-%d") {
                    Ok(d) => Ok(Some(d)),
                    Err(_) => Err(validation("Invalid closed_through date")),
                }
            }
        },
    }
}

pub struct ThresholdForm {
    pub approval_threshold: String,
}

/// The maker-checker threshold: a decimal (trimmed) that is not negative.
pub fn parse_threshold(form: &ThresholdForm) -> (r: Result<Amount, AppError>)
    ensures
        match decimal_parse(trim_seq(form.approval_threshold@)) {
            Err(_) => fails_validation(r, "Invalid threshold"@),
            Ok((m, sc)) => if m < 0 {
                fails_validation(r, "Threshold cannot be negative"@)
            } else {
                r == Ok::<Amount, AppError>(Amount { mantissa: m, scale: sc })
            },
        },
{
    let t = trim_string(form.approval_threshold.as_str());
    let threshold = match parse_amount(t.as_str()) {
        Ok(a) => a,
        Err(_) => {
            return Err(validation("Invalid threshold"));
        },
    };
    if threshold.mantissa < 0 {
        return Err(validation("Threshold cannot be negative"));
    }
    Ok(threshold)
}

/// Why the posting service refused to approve or reject a journal.
#[derive(Debug, Clone)]
pub enum PostingServiceError {
    SelfApproval,
    NotPending,
    Db(String),
    Other(String),
}

/// The answer to a refused journal approval (`approve`) or rejection
/// (`reject`): the maker may not decide on their own journal, only
/// pending journals can be decided.
pub fn journal_decision_error(e: PostingServiceError, approving: bool) -> (r: AppError)
    ensures
        match e {
            PostingServiceError::SelfApproval => r@ == ErrorView::ForbiddenMsg(
                if approving {
                    "Maker cannot approve their own journal."@
                } else {
                    "Maker cannot reject their own journal."@
                },
            ),
            PostingServiceError::NotPending => r@ == ErrorView::Validation(
                "Journal is not pending approval."@,
            ),
            PostingServiceError::Db(m) => r@ == ErrorView::Db(m@),
            PostingServiceError::Other(m) => r@ == ErrorView::Internal(m@),
        },
{
    match e {
        PostingServiceError::SelfApproval => if approving {
            AppError::ForbiddenMsg("Maker cannot approve their own journal.".to_string())
        } else {
            AppError::ForbiddenMsg("Maker cannot reject their own journal.".to_string())
        },
        PostingServiceError::NotPending => AppError::Validation(
            "Journal is not pending approval.".to_string(),
        ),
        PostingServiceError::Db(m) => AppError::Db(m),
        PostingServiceError::Other(m) => AppError::Internal(m),
    }
}

} // verus!
