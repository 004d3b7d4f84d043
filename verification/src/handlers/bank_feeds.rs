//! Bank feeds: the providers a ledger can link an account through, and
//! what a Plaid webhook leads to.
use vstd::prelude::*;
use crate::error::{AppError, fails_validation};
use crate::events_in::{json_string_field, read_json_string_field};
use crate::signature::{plaid_signature_valid, verify_plaid_signature};
use crate::text::{cat, one_of, str_equal};

verus! {

pub struct LinkForm {
    pub provider: String,
    pub public_token: String,
    pub institution_id: Option<String>,
    pub account_id_at_provider: Option<String>,
    pub account_id_in_ledger: Option<u128>,
}

pub open spec fn providers() -> Seq<Seq<char>> {
    seq!["plaid"@, "gocardless"@, "salt_edge"@, "simplefin"@, "manual"@]
}

/// A link names one of the known providers.
pub fn check_provider(provider: &str) -> (r: Result<(), AppError>)
    ensures
        one_of(provider@, providers()) ==> r is Ok,
        !one_of(provider@, providers()) ==> fails_validation(r, "unknown provider: "@ + provider@),
{
    proof {
        reveal_strlit("plaid");
        reveal_strlit("gocardless");
        reveal_strlit("salt_edge");
        reveal_strlit("simplefin");
        reveal_strlit("manual");
    }
    if str_equal(provider, "plaid") || str_equal(provider, "gocardless") || str_equal(provider, "salt_edge")
        || str_equal(provider, "simplefin") || str_equal(provider, "manual") {
        assert(one_of(provider@, providers())) by {
            if provider@ == "plaid"@ {
                assert(providers()[0] == provider@);
            } else if provider@ == "gocardless"@ {
                assert(providers()[1] == provider@);
            } else if provider@ == "salt_edge"@ {
                assert(providers()[2] == provider@);
            } else if provider@ == "simplefin"@ {
                assert(providers()[3] == provider@);
            } else {
                assert(providers()[4] == provider@);
            }
        }
        Ok(())
    } else {
        assert(!one_of(provider@, providers())) by {
            if one_of(provider@, providers()) {
                let i = choose|i: int| 0 <= i < providers().len() && providers()[i] == provider@;
                assert(0 <= i < 5);
            }
        }
        Err(AppError::Validation(cat("unknown provider: ", provider)))
    }
}

/// The item a Plaid webhook names: its string `item_id`, the empty text
/// when there is none or the body is not JSON.
pub open spec fn plaid_item_of(body: Seq<u8>) -> Seq<char> {
    match json_string_field(body, "item_id"@) {
        Some(Some(id)) => id,
        _ => Seq::empty(),
    }
}

/// `item_id` of a Plaid webhook body (empty when absent or unparsable).
pub fn plaid_item_id(body: &[u8]) -> (r: String)
    ensures
        r@ == plaid_item_of(body@),
{
    proof {
        reveal_strlit("item_id");
    }
    match read_json_string_field(body, "item_id") {
        Some(Some(id)) => id,
        _ => String::new(),
    }
}

/// What a Plaid webhook leads to: `Err(Unauthorized)` (401 "bad
/// signature") when a secret is configured and the signature does not check
/// out; otherwise `Ok(Some(item))` when the body names an item, whose link
/// is then synced, and `Ok(None)` when it names none.
pub open spec fn plaid_webhook_outcome(secret: Seq<char>, header: Seq<char>, body: Seq<u8>) -> Result<
    Option<Seq<char>>,
    crate::error::ErrorView,
> {
    if secret.len() != 0 && !plaid_signature_valid(body, header, secret) {
        Err(crate::error::ErrorView::Unauthorized)
    } else if plaid_item_of(body).len() == 0 {
        Ok(None)
    } else {
        Ok(Some(plaid_item_of(body)))
    }
}

/// The decision on one Plaid webhook, given `PLAID_WEBHOOK_SECRET` (empty
/// when unset: the check is skipped), the `plaid-verification` header and
/// the raw body.
pub fn plaid_webhook_decision(secret: &str, header: &str, body: &[u8]) -> (r: Result<
    Option<String>,
    AppError,
>)
    ensures
        match (r, plaid_webhook_outcome(secret@, header@, body@)) {
            (Ok(Some(a)), Ok(Some(b))) => a@ == b,
            (Ok(None), Ok(None)) => true,
            (Err(e), Err(v)) => e@ == v,
            _ => false,
        },
{
    if !secret.is_empty() && !verify_plaid_signature(body, header, secret) {
        return Err(AppError::Unauthorized);
    }
    let id = plaid_item_id(body);
    if id.as_str().is_empty() {
        Ok(None)
    } else {
        Ok(Some(id))
    }
}

} // verus!
