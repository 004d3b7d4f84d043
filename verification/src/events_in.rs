//! Signed incoming events: the fail-closed decision on one request. No
//! secret, a missing or bad signature, a body that is not JSON or an event
//! type that is not allowlisted is refused; otherwise the event type is
//! handed on to the rule engine.
use vstd::prelude::*;
use crate::error::{AppError, ErrorView};
use crate::signature::{signature_valid, verify_signature};
use crate::text::{cat, one_of, str_equal, string_views};

verus! {

/// What `serde_json::from_slice::<serde_json::Value>` makes of `body`,
/// read at `key`: `None` when the body is not JSON; `Some(Some(s))` when the
/// body is an object whose `key` is the string `s`; `Some(None)` otherwise.
pub uninterp spec fn json_string_field(body: Seq<u8>, key: Seq<char>) -> Option<Option<Seq<char>>>;

/// Parses `body` with `serde_json::from_slice::<serde_json::Value>` and
/// reads `key` with `Value::get`: a parse error gives `None`, a string at
/// `key` gives `Some(Some(..))`, anything else `Some(None)`. The result
/// depends on its arguments alone and is named `json_string_field`; the JSON
/// grammar is not stated here.
#[verifier::external_body]
pub(crate) fn read_json_string_field(body: &[u8], key: &str) -> (r: Option<Option<String>>)
    ensures
        match (r, json_string_field(body@, key@)) {
            (None, None) => true,
            (Some(None), Some(None)) => true,
            (Some(Some(s)), Some(Some(t))) => s@ == t,
            _ => false,
        },
{
    match serde_json::from_slice::<serde_json::Value>(body) {
        Err(_) => None,
        Ok(v) => match v.get(key) {
            Some(serde_json::Value::String(s)) => Some(Some(s.clone())),
            _ => Some(None),
        },
    }
}

/// The event type of an incoming body: its string `type`, the empty text
/// when there is none; `None` when the body is not JSON.
pub open spec fn event_type_of(body: Seq<u8>) -> Option<Seq<char>> {
    match json_string_field(body, "type"@) {
        None => None,
        Some(None) => Some(Seq::empty()),
        Some(Some(t)) => Some(t),
    }
}

/// What the intake answers: the accepted event type, or the refusal.
pub open spec fn intake_outcome(
    secret: Option<Seq<char>>,
    header: Seq<char>,
    body: Seq<u8>,
    allowed: Seq<Seq<char>>,
) -> Result<Seq<char>, ErrorView> {
    match secret {
        None => Err(ErrorView::NotFound),
        Some(s) => if s.len() == 0 {
            Err(ErrorView::NotFound)
        } else if !signature_valid(body, header, s) {
            Err(ErrorView::Unauthorized)
        } else {
            match event_type_of(body) {
                None => Err(ErrorView::Validation("body must be valid JSON"@)),
                Some(t) => if one_of(t, allowed) {
                    Ok(t)
                } else {
                    Err(
                        ErrorView::Validation(
                            "event type '"@ + t + "' is not an allowlisted incoming type"@,
                        ),
                    )
                },
            }
        },
    }
}

fn is_allowed(t: &str, allowed: &Vec<String>) -> (r: bool)
    ensures
        r == one_of(t@, string_views(allowed@)),
{
    for i in 0..allowed.len()
        invariant
            forall|k: int| 0 <= k < i ==> allowed@[k]@ != t@,
    {
        if str_equal(allowed[i].as_str(), t) {
            assert(string_views(allowed@)[i as int] == t@);
            return true;
        }
    }
    assert(!one_of(t@, string_views(allowed@))) by {
        if one_of(t@, string_views(allowed@)) {
            let k = choose|k: int|
                0 <= k < string_views(allowed@).len() && string_views(allowed@)[k] == t@;
            assert(allowed@[k]@ == t@);
        }
    }
    false
}

/// The decision on one signed incoming event, given the ledger's secret
/// (`None` when it has none), the `X-OA-Event-Signature` header (empty when
/// absent), the raw body and the allowlisted event types. A refused
/// signature is `Unauthorized`: the handler answers 401 "bad signature".
pub fn intake_decision(
    secret: Option<String>,
    header: &str,
    body: &[u8],
    allowed: &Vec<String>,
) -> (r: Result<String, AppError>)
    ensures
        match (r, intake_outcome(
            match secret {
                Some(s) => Some(s@),
                None => None,
            },
            header@,
            body@,
            string_views(allowed@),
        )) {
            (Ok(t), Ok(u)) => t@ == u,
            (Err(e), Err(v)) => e@ == v,
            _ => false,
        },
{
    proof {
        reveal_strlit("type");
    }
    let s = match secret {
        None => {
            return Err(AppError::NotFound);
        },
        Some(s) => s,
    };
    if s.as_str().is_empty() {
        return Err(AppError::NotFound);
    }
    if !verify_signature(body, header, s.as_str()) {
        return Err(AppError::Unauthorized);
    }
    let t = match read_json_string_field(body, "type") {
        None => {
            return Err(AppError::Validation("body must be valid JSON".to_string()));
        },
        Some(None) => String::new(),
        Some(Some(t)) => t,
    };
    proof {
        reveal_strlit("");
    }
    if is_allowed(t.as_str(), allowed) {
        Ok(t)
    } else {
        let m = cat(cat("event type '", t.as_str()).as_str(), "' is not an allowlisted incoming type");
        Err(AppError::Validation(m))
    }
}

} // verus!
