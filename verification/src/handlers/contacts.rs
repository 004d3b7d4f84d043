//! Contacts (customers and vendors): the checks of a new contact.
use vstd::prelude::*;
use crate::text::{str_equal, trim_seq, trim_string};

verus! {

pub struct NewContactForm {
    pub name: String,
    pub email: Option<String>,
    pub phone: Option<String>,
    pub kind: String,
}

/// The values a contact is stored with.
pub struct NewContact {
    pub name: String,
    pub email: Option<String>,
    pub phone: Option<String>,
    pub kind: String,
}

pub open spec fn is_contact_kind(k: Seq<char>) -> bool {
    k == "customer"@ || k == "vendor"@ || k == "both"@
}

/// A field that is present and not empty.
pub open spec fn present(f: Option<String>) -> Option<Seq<char>> {
    match f {
        Some(s) => if s@.len() > 0 {
            Some(s@)
        } else {
            None
        },
        None => None,
    }
}

pub fn present_field(f: &Option<String>) -> (r: Option<String>)
    ensures
        match r {
            Some(s) => present(*f) == Some(s@),
            None => present(*f) is None,
        },
{
    match f {
        Some(s) => if s.as_str().is_empty() {
            None
        } else {
            Some(s.clone())
        },
        None => None,
    }
}

/// The checks of a new contact: a name (stored trimmed) and a kind of
/// customer, vendor or both; empty email and phone count as none. The
/// message is shown on the form.
pub fn validate_contact(form: &NewContactForm) -> (r: Result<NewContact, String>)
    ensures
        trim_seq(form.name@).len() == 0 ==> (r matches Err(m) && m@ == "Name is required"@),
        trim_seq(form.name@).len() > 0 && !is_contact_kind(form.kind@) ==> (r matches Err(m) && m@
            == "Invalid contact kind"@),
        trim_seq(form.name@).len() > 0 && is_contact_kind(form.kind@) ==> (r matches Ok(c) && c.name@
            == trim_seq(form.name@) && c.kind@ == form.kind@ && (match c.email {
            Some(e) => present(form.email) == Some(e@),
            None => present(form.email) is None,
        }) && (match c.phone {
            Some(p) => present(form.phone) == Some(p@),
            None => present(form.phone) is None,
        })),
{
    let name = trim_string(form.name.as_str());
    if name.as_str().is_empty() {
        return Err("Name is required".to_string());
    }
    let k = form.kind.as_str();
    if !(str_equal(k, "customer") || str_equal(k, "vendor") || str_equal(k, "both")) {
        return Err("Invalid contact kind".to_string());
    }
    Ok(NewContact {
        name,
        email: present_field(&form.email),
        phone: present_field(&form.phone),
        kind: form.kind.clone(),
    })
}

} // verus!
