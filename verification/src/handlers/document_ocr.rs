//! Receipt recognition: turning a recognized receipt into a line of a
//! reimbursement claim.
use vstd::prelude::*;
use crate::amount::Amount;
use crate::date::Date;
use crate::error::{AppError, fails_validation, validation};

verus! {

/// The claim a recognized receipt is added to.
pub struct ApplyForm {
    pub claim_id: u128,
}

/// The claim line a recognized receipt gives: its amount and date must
/// have been recognized; the merchant, when recognized, is the line's
/// description.
pub fn ocr_claim_line(amount: Option<Amount>, txn_date: Option<Date>, merchant: Option<String>) -> (r: Result<
    (Amount, Date, String),
    AppError,
>)
    ensures
        amount is None ==> fails_validation(r, "No amount in OCR result"@),
        amount is Some && txn_date is None ==> fails_validation(r, "No date in OCR result"@),
        amount is Some && txn_date is Some ==> (r matches Ok((a, d, desc)) && Some(a) == amount && Some(d)
            == txn_date && desc@ == match merchant {
            Some(m) => m@,
            None => "Receipt (OCR)"@,
        }),
{
    let a = match amount {
        Some(a) => a,
        None => {
            return Err(validation("No amount in OCR result"));
        },
    };
    let d = match txn_date {
        Some(d) => d,
        None => {
            return Err(validation("No date in OCR result"));
        },
    };
    let description = match merchant {
        Some(m) => m,
        None => "Receipt (OCR)".to_string(),
    };
    Ok((a, d, description))
}

/// Whether corrections of recognized receipts are recorded, given the
/// `OCR_FEEDBACK` setting (`None` when unset or unreadable): on unless
/// the setting is `false`, `0`, `no` or `off`.
pub fn is_enabled(setting: &Option<String>) -> (r: bool)
    ensures
        r == match setting {
            Some(v) => !(v@ == "false"@ || v@ == "0"@ || v@ == "no"@ || v@ == "off"@),
            None => true,
        },
{
    match setting {
        Some(v) => {
            let s = v.as_str();
            !(crate::text::str_equal(s, "false") || crate::text::str_equal(s, "0") || crate::text::str_equal(
                s,
                "no",
            ) || crate::text::str_equal(s, "off"))
        },
        None => true,
    }
}

} // verus!
