//! Amortization schedules: the checks of a new schedule and the date of
//! its last period.
use vstd::prelude::*;
use crate::amount::Amount;
use crate::date::{Date, amortization_advance, amortization_advance_spec};
use crate::error::{AppError, fails_validation, validation};
use crate::text::{cat, str_equal, trim_seq, trim_string};

verus! {

pub struct NewAmortizationForm {
    pub description: String,
    pub source_account_id: u128,
    pub target_account_id: u128,
    pub total_amount: Amount,
    pub period_unit: String,
    pub periods: i32,
    pub start_date: Date,
}

/// The skip form carries no field.
pub struct SkipForm {
    pub _placeholder: Option<String>,
}

/// A checked schedule: its description (trimmed) and last period.
pub struct NewSchedule {
    pub description: String,
    pub end_date: Date,
}

pub open spec fn is_period_unit(u: Seq<char>) -> bool {
    u == "monthly"@ || u == "quarterly"@ || u == "yearly"@
}

/// The checks of a new schedule, in order: a known period unit, at least
/// one period, a total that is not negative, and two different accounts.
/// The schedule ends `periods - 1` periods after its start.
pub fn validate_schedule(form: &NewAmortizationForm) -> (r: Result<NewSchedule, AppError>)
    requires
        form.start_date.wf(),
        form.total_amount.wf(),
        form.period_unit@ == "yearly"@ ==> i32::MIN <= form.start_date.year + form.periods - 1 <= i32::MAX,
    ensures
        !is_period_unit(form.period_unit@) ==> fails_validation(
            r,
            "invalid period_unit: "@ + form.period_unit@,
        ),
        is_period_unit(form.period_unit@) && form.periods <= 0 ==> fails_validation(
            r,
            "periods must be > 0"@,
        ),
        is_period_unit(form.period_unit@) && form.periods > 0 && form.total_amount.value() < 0
            ==> fails_validation(r, "total_amount must be >= 0"@),
        is_period_unit(form.period_unit@) && form.periods > 0 && form.total_amount.value() >= 0
            && form.source_account_id == form.target_account_id ==> fails_validation(
            r,
            "source and target must differ"@,
        ),
        r is Ok <==> (is_period_unit(form.period_unit@) && form.periods > 0
            && form.total_amount.value() >= 0 && form.source_account_id != form.target_account_id),
        r matches Ok(s) ==> s.description@ == trim_seq(form.description@) && s.end_date
            == amortization_advance_spec(form.start_date, form.period_unit@, form.periods - 1),
{
    let u = form.period_unit.as_str();
    if !(str_equal(u, "monthly") || str_equal(u, "quarterly") || str_equal(u, "yearly")) {
        return Err(AppError::Validation(cat("invalid period_unit: ", u)));
    }
    if form.periods <= 0 {
        return Err(validation("periods must be > 0"));
    }
    if form.total_amount.is_negative() {
        return Err(validation("total_amount must be >= 0"));
    }
    if form.source_account_id == form.target_account_id {
        return Err(validation("source and target must differ"));
    }
    let end_date = amortization_advance(form.start_date, u, form.periods - 1);
    Ok(NewSchedule { description: trim_string(form.description.as_str()), end_date })
}

/// Skipping a period of a schedule: an active schedule counts one more
/// skipped period and its next posting moves on by one period of its unit
/// (a month, a quarter or a year, as the schedule advances); an inactive one
/// is left as it is (`None`).
pub fn skip_period(is_active: bool, skipped_periods: i32, next_post_date: Date, period_unit: &str) -> (r: Option<(i32, Date)>)
    requires
        next_post_date.wf(),
        skipped_periods < i32::MAX,
        period_unit@ == "yearly"@ ==> next_post_date.year < i32::MAX,
    ensures
        is_active ==> (r matches Some((n, d)) && n == skipped_periods + 1 && d
            == amortization_advance_spec(next_post_date, period_unit@, 1)),
        !is_active ==> r is None,
{
    if !is_active {
        return None;
    }
    Some((skipped_periods + 1, amortization_advance(next_post_date, period_unit, 1)))
}

} // verus!
