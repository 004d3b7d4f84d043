//! The dashboard's widget order chosen by a user, and the share of a
//! budget spent that the burn widget draws.
use vstd::prelude::*;
use crate::amount::{Amount, decimal_div, decimal_mul, decimal_product, decimal_quotient, from_int};
use crate::error::{AppError, fails_validation, validation};
use crate::handlers::documents::{parse_tags, tags_of};
use crate::text::string_views;

verus! {

pub struct LayoutForm {
    pub widgets: String,
}

/// The widget ids of the form (comma-separated, trimmed, empty ones
/// dropped); at least one is needed.
pub fn layout_widgets(form: &LayoutForm) -> (r: Result<Vec<String>, AppError>)
    ensures
        tags_of(form.widgets@).len() == 0 ==> fails_validation(r, "widgets must contain at least one id"@),
        tags_of(form.widgets@).len() > 0 ==> (r matches Ok(w) && string_views(w@) == tags_of(form.widgets@)),
{
    let w = parse_tags(form.widgets.as_str());
    if w.len() == 0 {
        return Err(validation("widgets must contain at least one id"));
    }
    Ok(w)
}

/// The share of a budget spent, in percent, as `rust_decimal` computes
/// it: `spent / amount * 100`, zero for a zero budget, `None` where the
/// decimal arithmetic overflows.
pub open spec fn burn_percent(amount: Amount, spent: Amount) -> Option<Amount> {
    if amount.value() == 0 {
        Some(Amount { mantissa: 0, scale: 0 })
    } else {
        match decimal_quotient(spent, amount) {
            Some(q) => decimal_product(q, Amount { mantissa: 100, scale: 0 }),
            None => None,
        }
    }
}

/// The burn widget's percentage of a budget spent (drawn as a float).
pub fn budget_burn(amount: Amount, spent: Amount) -> (r: Option<Amount>)
    requires
        amount.wf(),
        spent.wf(),
    ensures
        r == burn_percent(amount, spent),
        r matches Some(p) ==> p.wf(),
{
    if amount.is_zero() {
        return Some(Amount::zero());
    }
    match decimal_div(spent, amount) {
        Some(q) => decimal_mul(q, from_int(100)),
        None => None,
    }
}

} // verus!
