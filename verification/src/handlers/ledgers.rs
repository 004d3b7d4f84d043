//! Ledgers: the checks of a new ledger.
use vstd::prelude::*;
use crate::text::{trim_seq, trim_string, to_uppercase, unicode_upper, str_to_chars};
use crate::wrap::{byte_len, chars_byte_len};
use crate::error::{AppError, ErrorView};

verus! {

pub struct NewLedgerForm {
    pub name: String,
    pub base_currency: String,
    pub timezone: String,
}

/// The values a ledger is stored with.
pub struct NewLedger {
    pub name: String,
    pub base_currency: String,
    pub timezone: String,
}

/// The checks of a new ledger: a name (stored trimmed) and a currency
/// code that is three bytes once trimmed and upper-cased; a blank time
/// zone means UTC. The message is shown on the form.
pub fn validate_ledger(form: &NewLedgerForm) -> (r: Result<NewLedger, String>)
    ensures
        trim_seq(form.name@).len() == 0 ==> (r matches Err(m) && m@ == "Name is required"@),
        trim_seq(form.name@).len() > 0 && byte_len(unicode_upper(trim_seq(form.base_currency@))) != 3
            ==> (r matches Err(m) && m@ == "Currency must be a 3-letter code (e.g. USD, EUR)"@),
        trim_seq(form.name@).len() > 0 && byte_len(unicode_upper(trim_seq(form.base_currency@))) == 3
            ==> (r matches Ok(l) && l.name@ == trim_seq(form.name@) && l.base_currency@ == unicode_upper(
            trim_seq(form.base_currency@),
        ) && l.timezone@ == (if trim_seq(form.timezone@).len() == 0 {
            "UTC"@
        } else {
            form.timezone@
        })),
{
    let name = trim_string(form.name.as_str());
    if name.as_str().is_empty() {
        return Err("Name is required".to_string());
    }
    let currency = to_uppercase(trim_string(form.base_currency.as_str()).as_str());
    if chars_byte_len(&str_to_chars(currency.as_str())) != 3 {
        return Err("Currency must be a 3-letter code (e.g. USD, EUR)".to_string());
    }
    let timezone = if trim_string(form.timezone.as_str()).as_str().is_empty() {
        "UTC".to_string()
    } else {
        form.timezone.clone()
    };
    Ok(NewLedger { name, base_currency: currency, timezone })
}

/// A user's role on a ledger: the owner is `owner`, a member has the
/// role of their membership; anyone else is told the ledger does not
/// exist.
pub fn ensure_access(owner_id: u128, user_id: u128, membership: Option<String>) -> (r: Result<String, AppError>)
    ensures
        owner_id == user_id ==> (r matches Ok(role) && role@ == "owner"@),
        owner_id != user_id ==> match membership {
            Some(m) => r matches Ok(role) && role@ == m@,
            None => r matches Err(e) && e@ == ErrorView::NotFound,
        },
{
    if owner_id == user_id {
        return Ok("owner".to_string());
    }
    match membership {
        Some(m) => Ok(m),
        None => Err(AppError::NotFound),
    }
}

/// Editing needs a role other than `viewer`.
pub fn ensure_editor(role: &str) -> (r: Result<(), AppError>)
    ensures
        role@ == "viewer"@ ==> (r matches Err(e) && e@ == ErrorView::Unauthorized),
        role@ != "viewer"@ ==> r is Ok,
{
    if crate::text::str_equal(role, "viewer") {
        return Err(AppError::Unauthorized);
    }
    Ok(())
}

/// Exports need the owner or an editor.
pub fn ensure_owner_or_editor(role: &str) -> (r: Result<(), AppError>)
    ensures
        (role@ == "owner"@ || role@ == "editor"@) ==> r is Ok,
        !(role@ == "owner"@ || role@ == "editor"@) ==> (r matches Err(e) && e@ == ErrorView::Forbidden),
{
    if !crate::text::str_equal(role, "owner") && !crate::text::str_equal(role, "editor") {
        return Err(AppError::Forbidden);
    }
    Ok(())
}

/// Changing a document needs an administrator, or a role on its ledger
/// other than `viewer`; a viewer is told the ledger does not exist.
/// `ledger_access` is the outcome of `ensure_access`; an administrator
/// needs none.
pub fn ensure_doc_mutation_access(user_role: &str, ledger_access: Result<String, AppError>) -> (r: Result<(), AppError>)
    ensures
        user_role@ == "admin"@ ==> r is Ok,
        user_role@ != "admin"@ ==> match ledger_access {
            Err(e) => r == Err::<(), AppError>(e),
            Ok(role) => if role@ == "viewer"@ {
                r matches Err(e) && e@ == ErrorView::NotFound
            } else {
                r is Ok
            },
        },
{
    if crate::text::str_equal(user_role, "admin") {
        return Ok(());
    }
    let role = ledger_access?;
    if crate::text::str_equal(role.as_str(), "viewer") {
        return Err(AppError::NotFound);
    }
    Ok(())
}

/// Reading a document needs an administrator or any role on its ledger.
pub fn ensure_doc_access(user_role: &str, ledger_access: Result<String, AppError>) -> (r: Result<(), AppError>)
    ensures
        user_role@ == "admin"@ ==> r is Ok,
        user_role@ != "admin"@ ==> match ledger_access {
            Err(e) => r == Err::<(), AppError>(e),
            Ok(_) => r is Ok,
        },
{
    if crate::text::str_equal(user_role, "admin") {
        return Ok(());
    }
    let _role = ledger_access?;
    Ok(())
}

} // verus!
