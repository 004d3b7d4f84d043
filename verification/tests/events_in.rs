use openaccounting::error::AppError;
use openaccounting::events_in::intake_decision;
use openaccounting::handlers::bank_feeds::{plaid_item_id, plaid_webhook_decision};
use openaccounting::signature::verify_plaid_signature;
use hmac::{Hmac, Mac};
use openaccounting::signature::verify_signature;
use sha2::Sha256;

#[test]
fn signature_roundtrip_and_rejection() {
    let secret = "oa_in_testsecret";
    let body = br#"{"type":"external.sync"}"#;
    let mut mac = Hmac::<Sha256>::new_from_slice(secret.as_bytes()).unwrap();
    mac.update(body);
    let sig = format!("sha256={}", hex::encode(mac.finalize().into_bytes()));
    assert!(verify_signature(body, &sig, secret));
    assert!(!verify_signature(body, "sha256=deadbeef", secret));
    assert!(!verify_signature(body, "nope", secret));
    assert!(!verify_signature(b"tampered", &sig, secret));
}

fn sign(body: &[u8], secret: &str) -> String {
    let mut mac = Hmac::<Sha256>::new_from_slice(secret.as_bytes()).unwrap();
    mac.update(body);
    hex::encode(mac.finalize().into_bytes())
}

#[test]
fn plaid_signature_is_checked() {
    let body = b"{}";
    assert!(!verify_plaid_signature(body, "bogus", "s3cret"));
    let good = sign(body, "s3cret");
    assert!(verify_plaid_signature(body, &good, "s3cret"));
    assert!(verify_plaid_signature(body, &format!("  {}\n", good.to_uppercase()), "s3cret"));
    assert!(!verify_plaid_signature(body, &good, "other"));
    assert!(!verify_plaid_signature(b"{ }", &good, "s3cret"));
}

#[test]
fn intake_is_fail_closed() {
    let allowed = vec!["external.sync".to_string(), "external.invoice".to_string()];
    let secret = "oa_in_testsecret";
    let body = br#"{"type":"external.sync","data":{}}"#;
    let sig = format!("sha256={}", sign(body, secret));
    assert_eq!(intake_decision(None, &sig, body, &allowed), Err(AppError::NotFound));
    assert_eq!(intake_decision(Some(String::new()), &sig, body, &allowed), Err(AppError::NotFound));
    assert_eq!(intake_decision(Some(secret.to_string()), "", body, &allowed), Err(AppError::Unauthorized));
    assert_eq!(
        intake_decision(Some(secret.to_string()), "sha256=deadbeef", body, &allowed),
        Err(AppError::Unauthorized)
    );
    assert_eq!(
        intake_decision(Some(secret.to_string()), &sig, body, &allowed),
        Ok("external.sync".to_string())
    );
    let not_json = b"type=external.sync";
    let sig2 = format!("sha256={}", sign(not_json, secret));
    assert_eq!(
        intake_decision(Some(secret.to_string()), &sig2, not_json, &allowed),
        Err(AppError::Validation("body must be valid JSON".to_string()))
    );
    let other = br#"{"type":"external.unknown"}"#;
    let sig3 = format!("sha256={}", sign(other, secret));
    assert_eq!(
        intake_decision(Some(secret.to_string()), &sig3, other, &allowed),
        Err(AppError::Validation(
            "event type 'external.unknown' is not an allowlisted incoming type".to_string()
        ))
    );
    let untyped = br#"{"data":1}"#;
    let sig4 = format!("sha256={}", sign(untyped, secret));
    assert_eq!(
        intake_decision(Some(secret.to_string()), &sig4, untyped, &allowed),
        Err(AppError::Validation("event type '' is not an allowlisted incoming type".to_string()))
    );
}

#[test]
fn plaid_webhook_syncs_named_items_only() {
    let body = br#"{"item_id":"itm_42","webhook_type":"TRANSACTIONS"}"#;
    assert_eq!(plaid_item_id(body), "itm_42");
    assert_eq!(plaid_item_id(b"not json"), "");
    assert_eq!(plaid_item_id(br#"{"item_id":7}"#), "");
    // No secret configured: the signature is not checked.
    assert_eq!(plaid_webhook_decision("", "", body), Ok(Some("itm_42".to_string())));
    assert_eq!(plaid_webhook_decision("", "", br#"{}"#), Ok(None));
    assert_eq!(plaid_webhook_decision("s3cret", "bogus", body), Err(AppError::Unauthorized));
    let sig = sign(body, "s3cret");
    assert_eq!(plaid_webhook_decision("s3cret", &sig, body), Ok(Some("itm_42".to_string())));
}
