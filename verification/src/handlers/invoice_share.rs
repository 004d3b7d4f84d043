//! Shared estimate links: the customer's accept or decline.
use vstd::prelude::*;
use crate::error::{AppError, ErrorView, fails_validation, validation};
use crate::text::str_equal;

verus! {

pub struct DecisionForm {
    pub decision: String,
}

/// The status an estimate takes on the customer's decision.
pub fn decision_status(form: &DecisionForm) -> (r: Result<&'static str, AppError>)
    ensures
        form.decision@ == "accept"@ ==> (r matches Ok(s) && s@ == "accepted"@),
        form.decision@ == "decline"@ ==> (r matches Ok(s) && s@ == "declined"@),
        form.decision@ != "accept"@ && form.decision@ != "decline"@ ==> fails_validation(r, "invalid decision"@),
{
    proof {
        reveal_strlit("accept");
        reveal_strlit("decline");
        assert("accept"@.len() != "decline"@.len());
    }
    if str_equal(form.decision.as_str(), "accept") {
        Ok("accepted")
    } else if str_equal(form.decision.as_str(), "decline") {
        Ok("declined")
    } else {
        Err(validation("invalid decision"))
    }
}

/// The answer when no open estimate matched the link.
pub fn stale_estimate() -> (r: AppError)
    ensures
        r@ == ErrorView::Conflict("this estimate can no longer be acted on"@),
{
    AppError::Conflict("this estimate can no longer be acted on".to_string())
}

} // verus!
