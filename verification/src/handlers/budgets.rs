//! Budgets: the checks of a new budget, the variance of a budget against
//! the actual spending, and when spending raises an alert.
use vstd::prelude::*;
use crate::amount::{Amount, checked_sub, compare_amounts, decimal_parse, parse_amount, decimal_quotient, decimal_div, decimal_product, decimal_mul, from_int, exact_amount, representable_at, max_scale, fixed1, fixed2, fixed1_text, fixed2_text, lemma_exact_result};
use crate::date::{Date, chrono_parse_date, parse_date_with_format, date_before};
use crate::error::{AppError, ErrorView, validation};
use crate::escape::{push_chars, push_str};
use crate::text::{str_equal, str_to_chars, chars_to_string};
use crate::uuid_text::{uuid_parsed, parse_uuid};

verus! {

pub struct NewBudgetForm {
    pub account_id: String,
    pub period: String,
    pub amount: String,
    pub alert_threshold: Option<String>,
    pub start_date: String,
    pub end_date: String,
}

/// The values a budget is stored with.
pub struct NewBudget {
    pub account_id: u128,
    pub period: String,
    pub amount: Amount,
    pub alert_threshold: Amount,
    pub start_date: Date,
    pub end_date: Date,
}

/// The alert threshold as sent; a missing one reads as `0.8`.
pub open spec fn threshold_text(t: Option<String>) -> Seq<char> {
    match t {
        Some(s) => s@,
        None => "0.8"@,
    }
}

pub open spec fn is_budget_period(p: Seq<char>) -> bool {
    p == "monthly"@ || p == "quarterly"@ || p == "yearly"@
}

/// The checks of a new budget in order: an account id, an amount, a
/// threshold, a known period, a start and an end date, the end not before
/// the start. On success: the account, amount, threshold and dates.
pub open spec fn budget_checks(f: NewBudgetForm) -> Result<(u128, Amount, Amount, Date, Date), Seq<char>> {
    match uuid_parsed(f.account_id@) {
        None => Err("Invalid account"@),
        Some(acc) => match decimal_parse(f.amount@) {
            Err(_) => Err("Invalid amount"@),
            Ok((am, asc)) => match decimal_parse(threshold_text(f.alert_threshold)) {
                Err(_) => Err("Invalid threshold"@),
                Ok((tm, ts)) => if !is_budget_period(f.period@) {
                    Err("Invalid period"@)
                } else {
                    match chrono_parse_date(f.start_date@, "%Y-%m-%d"@) {
                        Err(_) => Err("Invalid start date"@),
                        Ok((y, m, d)) => match chrono_parse_date(f.end_date@, "%Y-%m-%d"@) {
                            Err(_) => Err("Invalid end date"@),
                            Ok((y2, m2, d2)) => {
                                let start = Date { year: y, month: m, day: d };
                                let end = Date { year: y2, month: m2, day: d2 };
                                if end.before(start) {
                                    Err("End date must be after start date"@)
                                } else {
                                    Ok(
                                        (
                                            acc,
                                            Amount { mantissa: am, scale: asc },
                                            Amount { mantissa: tm, scale: ts },
                                            start,
                                            end,
                                        ),
                                    )
                                }
                            },
                        },
                    }
                },
            },
        },
    }
}

/// The checks of a new budget (see `budget_checks`).
pub fn validate_budget(form: &NewBudgetForm) -> (r: Result<NewBudget, AppError>)
    ensures
        match (r, budget_checks(*form)) {
            (Ok(b), Ok((acc, amount, threshold, start, end))) => b.account_id == acc && b.amount == amount
                && b.alert_threshold == threshold && b.start_date == start && b.end_date == end
                && b.period@ == form.period@ && b.amount.wf() && b.alert_threshold.wf(),
            (Err(e), Err(m)) => e@ == ErrorView::Validation(m),
            _ => false,
        },
{
    let account_id = match parse_uuid(form.account_id.as_str()) {
        Some(a) => a,
        None => {
            return Err(validation("Invalid account"));
        },
    };
    let amount = match parse_amount(form.amount.as_str()) {
        Ok(a) => a,
        Err(_) => {
            return Err(validation("Invalid amount"));
        },
    };
    let parsed_threshold = match &form.alert_threshold {
        Some(t) => parse_amount(t.as_str()),
        None => parse_amount("0.8"),
    };
    let alert_threshold = match parsed_threshold {
        Ok(a) => a,
        Err(_) => {
            return Err(validation("Invalid threshold"));
        },
    };
    let p = form.period.as_str();
    if !(str_equal(p, "monthly") || str_equal(p, "quarterly") || str_equal(p, "yearly")) {
        return Err(validation("Invalid period"));
    }
    let start_date = match parse_date_with_format(form.start_date.as_str(), "%Y-%m-%d") {
        Ok(d) => d,
        Err(_) => {
            return Err(validation("Invalid start date"));
        },
    };
    let end_date = match parse_date_with_format(form.end_date.as_str(), "%Y-%m-%d") {
        Ok(d) => d,
        Err(_) => {
            return Err(validation("Invalid end date"));
        },
    };
    if date_before(end_date, start_date) {
        return Err(validation("End date must be after start date"));
    }
    Ok(NewBudget {
        account_id,
        period: form.period.clone(),
        amount,
        alert_threshold,
        start_date,
        end_date,
    })
}

/// A budget against its actual spending.
pub struct BudgetVariance {
    /// Budget less actual.
    pub variance: Amount,
    /// The variance as a percentage of the budget (nothing for a budget
    /// that is not positive).
    pub variance_pct: Amount,
}

pub open spec fn hundred() -> Amount {
    Amount { mantissa: 100, scale: 0 }
}

/// The variance and its percentage, `None` where the quotient or the
/// product overflows or the difference has no exact representation.
pub open spec fn variance_outcome(budget: Amount, actual: Amount) -> Option<(Amount, Amount)> {
    let vv = budget.value() - actual.value();
    let vs = max_scale(budget, actual);
    if !representable_at(vv, vs as nat) {
        None
    } else {
        let v = exact_amount(vv, vs);
        if budget.value() > 0 {
            match decimal_quotient(v, budget) {
                None => None,
                Some(q) => match decimal_product(q, hundred()) {
                    None => None,
                    Some(p) => Some((v, p)),
                },
            }
        } else {
            Some((v, Amount { mantissa: 0, scale: 0 }))
        }
    }
}

/// A row of the budget report (see `variance_outcome`).
pub fn budget_variance(budget: Amount, actual: Amount) -> (r: Option<BudgetVariance>)
    requires
        budget.wf(),
        actual.wf(),
    ensures
        match (r, variance_outcome(budget, actual)) {
            (None, None) => true,
            (Some(b), Some((v, p))) => b.variance == v && b.variance_pct == p && b.variance.value()
                == budget.value() - actual.value(),
            _ => false,
        },
{
    let v = match checked_sub(budget, actual) {
        Some(v) => v,
        None => {
            return None;
        },
    };
    proof {
        lemma_exact_result(v, budget.value() - actual.value(), max_scale(budget, actual));
    }
    let pct = if budget.is_positive() {
        let q = match decimal_div(v, budget) {
            Some(q) => q,
            None => {
                return None;
            },
        };
        match decimal_mul(q, from_int(100)) {
            Some(p) => p,
            None => {
                return None;
            },
        }
    } else {
        Amount::zero()
    };
    Some(BudgetVariance { variance: v, variance_pct: pct })
}

/// An alert raised by spending.
pub struct BudgetAlert {
    /// Spending as a share of the budget.
    pub ratio: Amount,
    pub message: String,
}

pub open spec fn alert_message(name: Seq<char>, amount: Amount, actual: Amount, pct: Amount) -> Seq<char> {
    name + ": "@ + fixed1_text(pct.mantissa as int, pct.scale as nat) + "% of budget used ("@ + fixed2_text(
        actual.mantissa as int,
        actual.scale as nat,
    ) + " / "@ + fixed2_text(amount.mantissa as int, amount.scale as nat) + ")"@
}

/// Whether spending raises an alert: only a positive budget does, once the
/// share spent reaches the threshold. The outer `None` is where the share
/// or the percentage overflows.
pub fn check_alerts(account_name: &str, amount: Amount, actual: Amount, threshold: Amount) -> (r: Option<
    Option<BudgetAlert>,
>)
    requires
        amount.wf(),
        actual.wf(),
        threshold.wf(),
    ensures
        amount.value() <= 0 ==> r matches Some(None),
        amount.value() > 0 ==> match decimal_quotient(actual, amount) {
            None => r is None,
            Some(q) => if q.value() < threshold.value() {
                r matches Some(None)
            } else {
                match decimal_product(q, hundred()) {
                    None => r is None,
                    Some(p) => r matches Some(Some(a)) && a.ratio == q && a.message@ == alert_message(
                        account_name@,
                        amount,
                        actual,
                        p,
                    ),
                }
            },
        },
{
    if !amount.is_positive() {
        return Some(None);
    }
    let q = match decimal_div(actual, amount) {
        Some(q) => q,
        None => {
            return None;
        },
    };
    if compare_amounts(q, threshold) < 0 {
        return Some(None);
    }
    let p = match decimal_mul(q, from_int(100)) {
        Some(p) => p,
        None => {
            return None;
        },
    };
    let mut m = str_to_chars(account_name);
    push_str(&mut m, ": ");
    push_chars(&mut m, &fixed1(p));
    push_str(&mut m, "% of budget used (");
    push_chars(&mut m, &fixed2(actual));
    push_str(&mut m, " / ");
    push_chars(&mut m, &fixed2(amount));
    push_str(&mut m, ")");
    Some(Some(BudgetAlert { ratio: q, message: chars_to_string(m.as_slice()) }))
}

} // verus!
