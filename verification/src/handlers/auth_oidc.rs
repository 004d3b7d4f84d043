//! Single sign-on: the callback's parameters and the provider settings
//! an admin saves.
use vstd::prelude::*;
use crate::error::{AppError, fails_validation, validation};
use crate::form_body::{urlencoded_pairs, pair_views, parse_urlencoded};
use crate::text::{str_equal, str_to_chars, trim_seq, trim_string, occurs_at};

verus! {

pub struct CallbackParams {
    pub code: Option<String>,
    pub state: Option<String>,
}

/// Where a failed sign-in is sent.
pub fn login_error_url() -> (r: &'static str)
    ensures
        r@ == "/login?error=oidc"@,
{
    "/login?error=oidc"
}

/// The code and state of a callback; a callback missing either goes back
/// to the sign-in page.
pub fn callback_code_and_state(params: &CallbackParams) -> (r: Option<(String, String)>)
    ensures
        match (params.code, params.state) {
            (Some(c), Some(s)) => r matches Some((rc, rs)) && rc@ == c@ && rs@ == s@,
            _ => r is None,
        },
{
    match (&params.code, &params.state) {
        (Some(c), Some(s)) => Some((c.clone(), s.clone())),
        _ => None,
    }
}

/// Whether an unknown identity is provisioned: only when the provider
/// provisions automatically and the link failed because the instance is
/// invite-only.
pub fn provision_on_invite_only(invite_only_refusal: bool, provisioning: &str) -> (r: bool)
    ensures
        r == (invite_only_refusal && provisioning@ == "auto"@),
{
    invite_only_refusal && str_equal(provisioning, "auto")
}

pub struct OidcAdminForm {
    pub issuer_url: String,
    pub client_id: String,
    pub client_secret: String,
    pub scopes: String,
    pub provisioning: String,
    pub sso_only: bool,
}

impl Default for OidcAdminForm {
    fn default() -> (r: OidcAdminForm)
        ensures
            r.issuer_url@.len() == 0 && r.client_id@.len() == 0 && r.client_secret@.len() == 0
                && r.scopes@.len() == 0 && r.provisioning@.len() == 0 && !r.sso_only,
    {
        OidcAdminForm {
            issuer_url: String::new(),
            client_id: String::new(),
            client_secret: String::new(),
            scopes: String::new(),
            provisioning: String::new(),
            sso_only: false,
        }
    }
}

/// The value of the last pair with key `key`, or empty text.
pub open spec fn last_value(pairs: Seq<(Seq<char>, Seq<char>)>, key: Seq<char>) -> Seq<char>
    decreases pairs.len(),
{
    if pairs.len() == 0 {
        Seq::empty()
    } else if pairs.last().0 == key {
        pairs.last().1
    } else {
        last_value(pairs.drop_last(), key)
    }
}

pub open spec fn has_key(pairs: Seq<(Seq<char>, Seq<char>)>, key: Seq<char>) -> bool {
    exists|i: int| 0 <= i < pairs.len() && (#[trigger] pairs[i]).0 == key
}

/// The provider form read from its body: each field takes the last value
/// sent, and `sso_only` is on when the field is present at all.
pub fn read_oidc_form(body: &str) -> (r: OidcAdminForm)
    ensures
        ({
            let pairs = urlencoded_pairs(body@);
            &&& r.issuer_url@ == last_value(pairs, "issuer_url"@)
            &&& r.client_id@ == last_value(pairs, "client_id"@)
            &&& r.client_secret@ == last_value(pairs, "client_secret"@)
            &&& r.scopes@ == last_value(pairs, "scopes"@)
            &&& r.provisioning@ == last_value(pairs, "provisioning"@)
            &&& r.sso_only == has_key(pairs, "sso_only"@)
        }),
{
    let pairs = parse_urlencoded(body);
    let ghost pv = pair_views(pairs@);
    let mut form = OidcAdminForm::default();
    for i in 0..pairs.len()
        invariant
            pv == pair_views(pairs@),
            form.issuer_url@ == last_value(pv.subrange(0, i as int), "issuer_url"@),
            form.client_id@ == last_value(pv.subrange(0, i as int), "client_id"@),
            form.client_secret@ == last_value(pv.subrange(0, i as int), "client_secret"@),
            form.scopes@ == last_value(pv.subrange(0, i as int), "scopes"@),
            form.provisioning@ == last_value(pv.subrange(0, i as int), "provisioning"@),
            form.sso_only == has_key(pv.subrange(0, i as int), "sso_only"@),
    {
        proof {
            reveal_strlit("issuer_url");
            reveal_strlit("client_id");
            reveal_strlit("client_secret");
            reveal_strlit("scopes");
            reveal_strlit("provisioning");
            reveal_strlit("sso_only");
            assert("issuer_url"@.len() == 10 && "client_id"@.len() == 9);
            assert("client_secret"@.len() == 13 && "scopes"@.len() == 6);
            assert("provisioning"@.len() == 12 && "sso_only"@.len() == 8);
        }
        let ghost pre = pv.subrange(0, i + 1);
        assert(pre.drop_last() =~= pv.subrange(0, i as int));
        assert(pre.last() == (pairs@[i as int].0@, pairs@[i as int].1@));
        let k = pairs[i].0.as_str();
        let v = pairs[i].1.clone();
        if str_equal(k, "issuer_url") {
            form.issuer_url = v;
        } else if str_equal(k, "client_id") {
            form.client_id = v;
        } else if str_equal(k, "client_secret") {
            form.client_secret = v;
        } else if str_equal(k, "scopes") {
            form.scopes = v;
        } else if str_equal(k, "provisioning") {
            form.provisioning = v;
        } else if str_equal(k, "sso_only") {
            form.sso_only = true;
        }
        assert(has_key(pre, "sso_only"@) == (has_key(pv.subrange(0, i as int), "sso_only"@) || pre.last().0
            == "sso_only"@)) by {
            if has_key(pre, "sso_only"@) {
                let j = choose|j: int| 0 <= j < pre.len() && (#[trigger] pre[j]).0 == "sso_only"@;
                if j < i {
                    assert(pv.subrange(0, i as int)[j] == pre[j]);
                }
            }
            if has_key(pv.subrange(0, i as int), "sso_only"@) {
                let j = choose|j: int| 0 <= j < i && (#[trigger] pv.subrange(0, i as int)[j]).0 == "sso_only"@;
                assert(pre[j] == pv.subrange(0, i as int)[j]);
            }
            if pre.last().0 == "sso_only"@ {
                assert(pre[i as int] == pre.last());
            }
        }
    }
    assert(pv.subrange(0, pv.len() as int) =~= pv);
    form
}

/// The provider settings that are stored.
pub struct OidcSettings {
    pub issuer_url: String,
    pub client_id: String,
    pub client_secret: String,
    pub scopes: String,
    pub provisioning: String,
    pub sso_only: bool,
}

/// The checks of the provider form: an `https://` issuer, and a client id
/// and secret that are not blank. Values are stored trimmed; blank scopes
/// mean `openid email profile`; provisioning is `auto` or `invite-only`.
pub fn validate_oidc_form(form: &OidcAdminForm) -> (r: Result<OidcSettings, AppError>)
    ensures
        !occurs_at(form.issuer_url@, "https://"@, 0) ==> fails_validation(r, "issuer_url must be https"@),
        occurs_at(form.issuer_url@, "https://"@, 0) && (trim_seq(form.client_id@).len() == 0 || trim_seq(
            form.client_secret@,
        ).len() == 0) ==> fails_validation(r, "client id/secret are required"@),
        r is Ok <==> (occurs_at(form.issuer_url@, "https://"@, 0) && trim_seq(form.client_id@).len()
            > 0 && trim_seq(form.client_secret@).len() > 0),
        r matches Ok(s) ==> s.issuer_url@ == trim_seq(form.issuer_url@) && s.client_id@ == trim_seq(
            form.client_id@,
        ) && s.client_secret@ == trim_seq(form.client_secret@) && s.scopes@ == (if trim_seq(
            form.scopes@,
        ).len() == 0 {
            "openid email profile"@
        } else {
            trim_seq(form.scopes@)
        }) && s.provisioning@ == (if form.provisioning@ == "auto"@ {
            "auto"@
        } else {
            "invite-only"@
        }) && s.sso_only == form.sso_only,
{
    let url = str_to_chars(form.issuer_url.as_str());
    let prefix = str_to_chars("https://");
    proof {
        reveal_strlit("https://");
    }
    let mut https = url.len() >= prefix.len();
    if https {
        for i in 0..prefix.len()
            invariant
                prefix@.len() <= url@.len(),
                https == (forall|k: int| 0 <= k < i ==> url@[k] == prefix@[k]),
        {
            if url[i] != prefix[i] {
                https = false;
            }
        }
        assert(https == occurs_at(url@, prefix@, 0)) by {
            if https {
                assert(url@.subrange(0, prefix@.len() as int) =~= prefix@);
            } else if occurs_at(url@, prefix@, 0) {
                assert forall|k: int| 0 <= k < prefix@.len() implies url@[k] == prefix@[k] by {
                    assert(url@.subrange(0, prefix@.len() as int)[k] == url@[k]);
                }
            }
        }
    }
    if !https {
        return Err(validation("issuer_url must be https"));
    }
    let client_id = trim_string(form.client_id.as_str());
    let client_secret = trim_string(form.client_secret.as_str());
    if client_id.as_str().is_empty() || client_secret.as_str().is_empty() {
        return Err(validation("client id/secret are required"));
    }
    let scopes_t = trim_string(form.scopes.as_str());
    let scopes = if scopes_t.as_str().is_empty() {
        "openid email profile".to_string()
    } else {
        scopes_t
    };
    let provisioning = if str_equal(form.provisioning.as_str(), "auto") {
        "auto".to_string()
    } else {
        "invite-only".to_string()
    };
    Ok(OidcSettings {
        issuer_url: trim_string(form.issuer_url.as_str()),
        client_id,
        client_secret,
        scopes,
        provisioning,
        sso_only: form.sso_only,
    })
}

} // verus!
