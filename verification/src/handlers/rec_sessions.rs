//! Reconciliation sessions: the zero-difference gate that closes a
//! session, and reopening a closed one.
use vstd::prelude::*;
use crate::amount::{Amount, amount_to_string, decimal_text};
use crate::error::{AppError, ErrorView, fails_validation, validation};
use crate::text::{cat, str_equal};

verus! {

pub struct UnreconcileForm {
    pub reason: Option<String>,
}

/// The reason given for reopening (empty when none).
pub fn unreconcile_reason(form: &UnreconcileForm) -> (r: String)
    ensures
        r@ == (match form.reason {
            Some(s) => s@,
            None => Seq::empty(),
        }),
{
    match &form.reason {
        Some(s) => s.clone(),
        None => String::new(),
    }
}

/// Only a closed session can be reopened.
pub fn check_session_closed(status: &str) -> (r: Result<(), AppError>)
    ensures
        status@ == "closed"@ ==> r is Ok,
        status@ != "closed"@ ==> fails_validation(r, "session is not closed"@),
{
    if !str_equal(status, "closed") {
        return Err(validation("session is not closed"));
    }
    Ok(())
}

/// The finish gate: a closed session cannot be finished again, and a
/// session finishes only when its difference is zero; otherwise it stays
/// open and the difference is shown.
pub open spec fn finish_outcome(status: Seq<char>, difference: Amount) -> Result<(), ErrorView> {
    if status == "closed"@ {
        Err(ErrorView::Conflict("session is already closed"@))
    } else if difference.mantissa != 0 {
        Err(
            ErrorView::Conflict(
                "difference "@ + decimal_text(difference.mantissa as int, difference.scale as nat)
                    + " must be zero to finish; clear the remaining lines first"@,
            ),
        )
    } else {
        Ok(())
    }
}

/// Whether a reconciliation session may be finished (closed and locked).
pub fn finish_decision(status: &str, difference: Amount) -> (r: Result<(), AppError>)
    ensures
        match (r, finish_outcome(status@, difference)) {
            (Ok(()), Ok(())) => true,
            (Err(e), Err(v)) => e@ == v,
            _ => false,
        },
{
    if str_equal(status, "closed") {
        return Err(AppError::Conflict("session is already closed".to_string()));
    }
    if difference.mantissa != 0 {
        let a = cat("difference ", amount_to_string(difference).as_str());
        return Err(
            AppError::Conflict(cat(a.as_str(), " must be zero to finish; clear the remaining lines first")),
        );
    }
    Ok(())
}

} // verus!
