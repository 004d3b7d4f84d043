//! Electronic invoices: which XML syntax a download asks for, and the
//! answer when an invoice lacks mandatory fields.
use vstd::prelude::*;
use crate::error::{AppError, ErrorView, fails_validation};
use crate::escape::push_str;
use crate::text::{cat, joined, join_strings, str_equal, chars_to_string, string_views};
use crate::uuid_text::{uuid_chars, uuid_text};

verus! {

/// The XML syntaxes an invoice can be downloaded in.
#[derive(Clone, Copy, PartialEq, Eq, Debug, Structural)]
pub enum EInvoiceSyntax {
    /// UN/CEFACT Cross Industry Invoice (Factur-X).
    Cii,
    /// OASIS UBL.
    Ubl,
}

/// The syntax named by the `format` parameter (UBL when absent): `facturx`
/// and `cii` name CII, `ubl` names UBL.
pub fn einvoice_syntax(format: Option<&str>) -> (r: Result<EInvoiceSyntax, AppError>)
    ensures
        match format {
            None => r == Ok::<EInvoiceSyntax, AppError>(EInvoiceSyntax::Ubl),
            Some(f) => if f@ == "facturx"@ || f@ == "cii"@ {
                r == Ok::<EInvoiceSyntax, AppError>(EInvoiceSyntax::Cii)
            } else if f@ == "ubl"@ {
                r == Ok::<EInvoiceSyntax, AppError>(EInvoiceSyntax::Ubl)
            } else {
                fails_validation(r, "unknown format '"@ + f@ + "', expected 'ubl' or 'facturx'"@)
            },
        },
{
    match format {
        None => Ok(EInvoiceSyntax::Ubl),
        Some(f) => if str_equal(f, "facturx") || str_equal(f, "cii") {
            Ok(EInvoiceSyntax::Cii)
        } else if str_equal(f, "ubl") {
            Ok(EInvoiceSyntax::Ubl)
        } else {
            let a = cat("unknown format '", f);
            Err(AppError::Validation(cat(a.as_str(), "', expected 'ubl' or 'facturx'")))
        },
    }
}

/// The refusal of an invoice that lacks mandatory fields, naming them.
pub fn missing_fields_error(fields: &Vec<String>) -> (r: AppError)
    ensures
        r@ == ErrorView::Validation("missing mandatory e-invoice fields: "@ + joined(string_views(fields@), ", "@)),
{
    let list = join_strings(fields, ", ");
    AppError::Validation(cat("missing mandatory e-invoice fields: ", list.as_str()))
}

/// The file name of a downloaded e-invoice: `<invoice id>.<format>.xml`.
pub fn einvoice_filename(invoice_id: u128, format: &str) -> (r: String)
    ensures
        r@ == uuid_text(invoice_id) + "."@ + format@ + ".xml"@,
{
    let mut v = uuid_chars(invoice_id);
    push_str(&mut v, ".");
    push_str(&mut v, format);
    push_str(&mut v, ".xml");
    chars_to_string(v.as_slice())
}

} // verus!
