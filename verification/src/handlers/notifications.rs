//! Push notifications: device registration and the per-event channel
//! preferences.
use vstd::prelude::*;
use crate::error::{AppError, fails_validation};
use crate::text::{cat, str_equal, str_to_chars, to_ascii_lowercase_chars, lower_seq, chars_to_string};

verus! {

pub struct RegisterRequest {
    pub token: String,
    pub platform: String,
}

pub struct UnregisterRequest {
    pub token: String,
}

pub open spec fn is_platform(p: Seq<char>) -> bool {
    p == "ios"@ || p == "android"@ || p == "web"@
}

/// A device registers for one of the known platforms.
pub fn check_platform(body: &RegisterRequest) -> (r: Result<(), AppError>)
    ensures
        is_platform(body.platform@) ==> r is Ok,
        !is_platform(body.platform@) ==> fails_validation(r, "unknown platform: "@ + body.platform@),
{
    let p = body.platform.as_str();
    if !(str_equal(p, "ios") || str_equal(p, "android") || str_equal(p, "web")) {
        return Err(AppError::Validation(cat("unknown platform: ", p)));
    }
    Ok(())
}

pub struct ToggleForm {
    pub channel: String,
    pub event: String,
    pub enabled: String,
}

/// A preference is switched on by `on`, `true` or `1` (any ASCII case);
/// anything else switches it off.
pub open spec fn enabled_value(s: Seq<char>) -> bool {
    lower_seq(s) == "on"@ || lower_seq(s) == "true"@ || lower_seq(s) == "1"@
}

pub fn toggle_enabled(form: &ToggleForm) -> (r: bool)
    ensures
        r == enabled_value(form.enabled@),
{
    let l = to_ascii_lowercase_chars(&str_to_chars(form.enabled.as_str()));
    let t = chars_to_string(l.as_slice());
    str_equal(t.as_str(), "on") || str_equal(t.as_str(), "true") || str_equal(t.as_str(), "1")
}

/// The refusal of an unknown channel or event name.
pub fn unknown_preference(kind: &str, value: &str) -> (r: AppError)
    ensures
        r@ == crate::error::ErrorView::Validation("invalid "@ + kind@ + ": "@ + value@),
{
    let a = cat("invalid ", kind);
    let b = cat(a.as_str(), ": ");
    AppError::Validation(cat(b.as_str(), value))
}

} // verus!
