//! Approval policies of reimbursement claims: the checks of a new policy.
use vstd::prelude::*;
use crate::amount::Amount;
use crate::text::{str_equal, trim_seq, trim_string};

verus! {

pub struct NewPolicyForm {
    pub name: String,
    pub min_amount: Amount,
    pub approver_role: String,
    pub level: i32,
}

/// The message the form is shown again with, for the first check that
/// fails: a name, a level of at least 1, a minimum amount that is not
/// negative, and an approver role of Admin or Accountant.
pub open spec fn policy_error(f: NewPolicyForm) -> Option<Seq<char>> {
    if trim_seq(f.name@).len() == 0 {
        Some("name is required"@)
    } else if f.level < 1 {
        Some("level must be >= 1"@)
    } else if f.min_amount.value() < 0 {
        Some("min_amount must be >= 0"@)
    } else if f.approver_role@ != "Admin"@ && f.approver_role@ != "Accountant"@ {
        Some("approver_role must be Admin or Accountant"@)
    } else {
        None
    }
}

/// The checks of a new policy (see `policy_error`); on success, the name
/// the policy is stored under (trimmed).
pub fn check_policy(form: &NewPolicyForm) -> (r: Result<String, String>)
    requires
        form.min_amount.wf(),
    ensures
        match policy_error(*form) {
            Some(m) => r matches Err(e) && e@ == m,
            None => r matches Ok(n) && n@ == trim_seq(form.name@),
        },
{
    let name = trim_string(form.name.as_str());
    if name.as_str().is_empty() {
        return Err("name is required".to_string());
    }
    if form.level < 1 {
        return Err("level must be >= 1".to_string());
    }
    if form.min_amount.is_negative() {
        return Err("min_amount must be >= 0".to_string());
    }
    let role = form.approver_role.as_str();
    if !str_equal(role, "Admin") && !str_equal(role, "Accountant") {
        return Err("approver_role must be Admin or Accountant".to_string());
    }
    Ok(name)
}

} // verus!
