use openaccounting::error::AppError;
use openaccounting::handlers::einvoice::{einvoice_filename, einvoice_syntax, missing_fields_error, EInvoiceSyntax};

#[test]
fn syntax_defaults_to_ubl() {
    assert_eq!(einvoice_syntax(None), Ok(EInvoiceSyntax::Ubl));
    assert_eq!(einvoice_syntax(Some("ubl")), Ok(EInvoiceSyntax::Ubl));
    assert_eq!(einvoice_syntax(Some("facturx")), Ok(EInvoiceSyntax::Cii));
    assert_eq!(einvoice_syntax(Some("cii")), Ok(EInvoiceSyntax::Cii));
    assert_eq!(
        einvoice_syntax(Some("pdf")),
        Err(AppError::Validation("unknown format 'pdf', expected 'ubl' or 'facturx'".to_string()))
    );
}

#[test]
fn missing_fields_are_listed() {
    let fields = vec!["seller VAT id".to_string(), "buyer address".to_string()];
    assert_eq!(
        missing_fields_error(&fields),
        AppError::Validation("missing mandatory e-invoice fields: seller VAT id, buyer address".to_string())
    );
    assert_eq!(
        einvoice_filename(0x67e55044_10b1_426f_9247_bb680e5fe0c8, "ubl"),
        "67e55044-10b1-426f-9247-bb680e5fe0c8.ubl.xml"
    );
}
