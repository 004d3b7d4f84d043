//! The user's own settings: password change, API token names, locale and
//! theme preferences with their redirect back, and the two-factor forms.
use vstd::prelude::*;
use crate::error::{AppError, fails_validation, validation};
use crate::text::{cat, str_equal, trim_seq, is_blank_str, one_of};

verus! {

pub struct PasswordFormInput {
    pub current_password: String,
    pub new_password: String,
    pub confirm_password: String,
}

/// What the account page shows after a password change.
pub enum PasswordOutcome {
    /// The change went through; the page shows this notice.
    Updated(String),
    /// The form is shown again with this message.
    Retry(String),
    /// The request fails.
    Failed(AppError),
}

/// The new password must be typed the same twice.
pub fn check_password_confirmation(form: &PasswordFormInput) -> (r: Option<String>)
    ensures
        form.new_password@ == form.confirm_password@ ==> r is None,
        form.new_password@ != form.confirm_password@ ==> (r matches Some(m) && m@
            == "New password and confirmation do not match."@),
{
    if form.new_password == form.confirm_password {
        None
    } else {
        Some("New password and confirmation do not match.".to_string())
    }
}

/// The page after the password store answered: a wrong current password
/// and a weak new one are shown on the form, other failures fail the
/// request.
pub fn password_change_outcome(result: Result<(), AppError>) -> (r: PasswordOutcome)
    ensures
        match result {
            Ok(()) => r matches PasswordOutcome::Updated(m) && m@ == "Password updated."@,
            Err(AppError::Unauthorized) => r matches PasswordOutcome::Retry(m) && m@
                == "Current password is incorrect."@,
            Err(AppError::Validation(v)) => r matches PasswordOutcome::Retry(m) && m@ == v@,
            Err(e) => r matches PasswordOutcome::Failed(f) && f@ == e@,
        },
{
    match result {
        Ok(()) => PasswordOutcome::Updated("Password updated.".to_string()),
        Err(AppError::Unauthorized) => PasswordOutcome::Retry("Current password is incorrect.".to_string()),
        Err(AppError::Validation(m)) => PasswordOutcome::Retry(m),
        Err(e) => PasswordOutcome::Failed(e),
    }
}

pub struct CreateForm {
    pub name: String,
}

/// An API token needs a name that is not blank.
pub fn check_token_name(form: &CreateForm) -> (r: Result<(), AppError>)
    ensures
        trim_seq(form.name@).len() == 0 ==> fails_validation(r, "name is required"@),
        trim_seq(form.name@).len() > 0 ==> r is Ok,
{
    if is_blank_str(form.name.as_str()) {
        return Err(validation("name is required"));
    }
    Ok(())
}

/// Where a settings form sends the user back to: `next` when it is a path
/// on this site (starts with `/` but not `//`), else `/account`.
pub open spec fn redirect_target(next: Option<Seq<char>>) -> Seq<char> {
    match next {
        Some(n) => if n.len() > 0 && n[0] == '/' && !(n.len() > 1 && n[1] == '/') {
            n
        } else {
            "/account"@
        },
        None => "/account"@,
    }
}

pub open spec fn opt_text(o: Option<String>) -> Option<Seq<char>> {
    match o {
        Some(s) => Some(s@),
        None => None,
    }
}

pub fn safe_redirect(next: &Option<String>) -> (r: String)
    ensures
        r@ == redirect_target(opt_text(*next)),
{
    match next {
        Some(n) => {
            let cs = crate::text::str_to_chars(n.as_str());
            if cs.len() > 0 && cs[0] == '/' && !(cs.len() > 1 && cs[1] == '/') {
                n.clone()
            } else {
                "/account".to_string()
            }
        },
        None => "/account".to_string(),
    }
}

/// A settings redirect never leaves the site: the target is a path that
/// starts with a single `/`.
pub proof fn redirect_stays_on_site(next: Option<Seq<char>>)
    ensures
        redirect_target(next).len() > 0,
        redirect_target(next)[0] == '/',
        !(redirect_target(next).len() > 1 && redirect_target(next)[1] == '/'),
{
    reveal_strlit("/account");
}

pub struct LocaleForm {
    pub locale: String,
    pub next: Option<String>,
}

/// The locales a user may pick.
pub open spec fn locales() -> Seq<Seq<char>> {
    seq!["en"@, "zh-CN"@, "es"@, "fr"@, "de"@, "ja"@]
}

pub fn check_locale(form: &LocaleForm) -> (r: Result<(), AppError>)
    ensures
        one_of(form.locale@, locales()) ==> r is Ok,
        !one_of(form.locale@, locales()) ==> fails_validation(r, "unsupported locale: "@ + form.locale@),
{
    let l = form.locale.as_str();
    let ok = str_equal(l, "en") || str_equal(l, "zh-CN") || str_equal(l, "es") || str_equal(l, "fr")
        || str_equal(l, "de") || str_equal(l, "ja");
    proof {
        let ls = locales();
        if one_of(l@, ls) {
            let i = choose|i: int| 0 <= i < ls.len() && ls[i] == l@;
            assert(0 <= i < 6);
        }
        if ok {
            if l@ == "en"@ {
                assert(ls[0] == l@);
            } else if l@ == "zh-CN"@ {
                assert(ls[1] == l@);
            } else if l@ == "es"@ {
                assert(ls[2] == l@);
            } else if l@ == "fr"@ {
                assert(ls[3] == l@);
            } else if l@ == "de"@ {
                assert(ls[4] == l@);
            } else {
                assert(ls[5] == l@);
            }
        }
    }
    if !ok {
        return Err(AppError::Validation(cat("unsupported locale: ", l)));
    }
    Ok(())
}

pub struct ThemeForm {
    pub theme: String,
    pub next: Option<String>,
}

/// The themes a user may pick.
pub open spec fn is_theme(t: Seq<char>) -> bool {
    t == "system"@ || t == "light"@ || t == "dark"@
}

pub fn check_theme(form: &ThemeForm) -> (r: Result<(), AppError>)
    ensures
        is_theme(form.theme@) ==> r is Ok,
        !is_theme(form.theme@) ==> fails_validation(r, "Invalid theme: "@ + form.theme@),
{
    let t = form.theme.as_str();
    if !(str_equal(t, "system") || str_equal(t, "light") || str_equal(t, "dark")) {
        return Err(AppError::Validation(cat("Invalid theme: ", t)));
    }
    Ok(())
}

pub struct EnrollForm {
    pub code: String,
    pub secret: String,
}

pub struct DisableForm {
    pub password: String,
    pub code: String,
}

/// The message shown when a two-factor code does not verify.
pub fn invalid_code_message() -> (r: String)
    ensures
        r@ == "Invalid 6-digit code; please try again."@,
{
    "Invalid 6-digit code; please try again.".to_string()
}

} // verus!
