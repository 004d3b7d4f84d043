//! Cost centers and projects: the name a new dimension needs.
use vstd::prelude::*;
use crate::error::{AppError, fails_validation, validation};
use crate::text::{trim_seq, trim_string};

verus! {

pub struct NewDimensionForm {
    pub name: String,
}

/// A cost center or project needs a name; it is stored trimmed.
pub fn dimension_name(form: &NewDimensionForm) -> (r: Result<String, AppError>)
    ensures
        trim_seq(form.name@).len() == 0 ==> fails_validation(r, "name is required"@),
        trim_seq(form.name@).len() > 0 ==> (r matches Ok(n) && n@ == trim_seq(form.name@)),
{
    let name = trim_string(form.name.as_str());
    if name.as_str().is_empty() {
        return Err(validation("name is required"));
    }
    Ok(name)
}

} // verus!
