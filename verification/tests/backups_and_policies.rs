use openaccounting::amount::Amount;
use openaccounting::date::Date;
use openaccounting::error::AppError;
use openaccounting::handlers::approval_policies::{check_policy, NewPolicyForm};
use openaccounting::handlers::backups::{
    check_admin, integrity_check, prune_plan, BackupFile, UnbalancedTxn, KEPT_BACKUPS,
};
use openaccounting::handlers::bank_feeds::check_provider;
use openaccounting::handlers::document_ocr::{is_enabled, ocr_claim_line};
use openaccounting::handlers::ledgers::{
    ensure_doc_mutation_access, ensure_doc_access, ensure_access, ensure_editor, ensure_owner_or_editor,
};

#[test]
fn only_admins_manage_backups() {
    assert!(check_admin("admin").is_ok());
    assert_eq!(check_admin("Admin"), Err(AppError::Forbidden));
    assert_eq!(check_admin("user"), Err(AppError::Forbidden));
}

#[test]
fn the_newest_backups_are_kept() {
    let files: Vec<BackupFile> = (0..35u128)
        .map(|i| BackupFile { name: format!("b{i:02}.sql.gz"), modified: (i * 13) % 35 })
        .collect();
    let (kept, removed) = prune_plan(&files);
    assert_eq!(kept.len(), KEPT_BACKUPS);
    assert_eq!(removed.len(), 5);
    let oldest_kept = kept.iter().map(|f| f.modified).min().unwrap();
    assert!(removed.iter().all(|f| f.modified < oldest_kept));
    assert!(kept.windows(2).all(|w| w[0].modified >= w[1].modified));
    let (few, none) = prune_plan(&files[..3].iter().map(|f| BackupFile { name: f.name.clone(), modified: f.modified }).collect());
    assert_eq!(few.len(), 3);
    assert!(none.is_empty());
}

#[test]
fn integrity_report_lists_each_finding() {
    let unbalanced = vec![UnbalancedTxn {
        id: 1,
        txn_date: Date { year: 2026, month: 1, day: 5 },
        debits: Amount { mantissa: 10000, scale: 2 },
        credits: Amount { mantissa: 95, scale: 0 },
    }];
    let (issues, passed) = integrity_check(&unbalanced, &vec![2], &vec![], &vec![3]);
    assert!(!passed);
    assert_eq!(issues.len(), 3);
    assert_eq!(issues[0].check, "balanced");
    assert_eq!(
        issues[0].message,
        "Unbalanced transaction 00000000-0000-0000-0000-000000000001 (2026-01-05): debits=100.00, credits=95"
    );
    assert_eq!(issues[1].check, "valid_account");
    assert_eq!(issues[1].message, "Posting 00000000-0000-0000-0000-000000000002 references non-existent account");
    assert_eq!(issues[2].message, "Transaction 00000000-0000-0000-0000-000000000003 references non-existent ledger");
    assert!(issues.iter().all(|i| i.severity == "error"));
    let (none, ok) = integrity_check(&vec![], &vec![], &vec![], &vec![]);
    assert!(none.is_empty() && ok);
}

fn policy(name: &str, min: i128, role: &str, level: i32) -> NewPolicyForm {
    NewPolicyForm {
        name: name.to_string(),
        min_amount: Amount { mantissa: min, scale: 0 },
        approver_role: role.to_string(),
        level,
    }
}

#[test]
fn approval_policy_checks() {
    assert_eq!(check_policy(&policy(" Large ", 1000, "Admin", 1)), Ok("Large".to_string()));
    assert_eq!(check_policy(&policy(" ", 1000, "Admin", 1)), Err("name is required".to_string()));
    assert_eq!(check_policy(&policy("L", 1000, "Admin", 0)), Err("level must be >= 1".to_string()));
    assert_eq!(check_policy(&policy("L", -1, "Admin", 2)), Err("min_amount must be >= 0".to_string()));
    assert_eq!(
        check_policy(&policy("L", 0, "admin", 2)),
        Err("approver_role must be Admin or Accountant".to_string())
    );
}

#[test]
fn recognized_receipts_become_claim_lines() {
    let a = Amount { mantissa: 1250, scale: 2 };
    let d = Date { year: 2026, month: 2, day: 3 };
    assert_eq!(ocr_claim_line(Some(a), Some(d), None), Ok((a, d, "Receipt (OCR)".to_string())));
    assert_eq!(ocr_claim_line(Some(a), Some(d), Some("Cafe".to_string())), Ok((a, d, "Cafe".to_string())));
    assert_eq!(
        ocr_claim_line(None, Some(d), None),
        Err(AppError::Validation("No amount in OCR result".to_string()))
    );
    assert_eq!(
        ocr_claim_line(Some(a), None, None),
        Err(AppError::Validation("No date in OCR result".to_string()))
    );
}

#[test]
fn ledger_access_decisions() {
    assert_eq!(ensure_access(1, 1, None), Ok("owner".to_string()));
    assert_eq!(ensure_access(1, 2, Some("viewer".to_string())), Ok("viewer".to_string()));
    assert_eq!(ensure_access(1, 2, None), Err(AppError::NotFound));
    assert_eq!(ensure_editor("viewer"), Err(AppError::Unauthorized));
    assert!(ensure_editor("editor").is_ok());
    assert_eq!(ensure_owner_or_editor("viewer"), Err(AppError::Forbidden));
    assert!(ensure_owner_or_editor("owner").is_ok());
    assert!(ensure_doc_mutation_access("admin", Err(AppError::NotFound)).is_ok());
    assert!(ensure_doc_access("admin", Err(AppError::NotFound)).is_ok());
    assert_eq!(ensure_doc_access("user", Err(AppError::NotFound)), Err(AppError::NotFound));
    assert_eq!(ensure_doc_mutation_access("user", ensure_access(1, 2, Some("viewer".to_string()))), Err(AppError::NotFound));
    assert_eq!(ensure_doc_mutation_access("user", ensure_access(1, 2, None)), Err(AppError::NotFound));
    assert!(ensure_doc_mutation_access("user", ensure_access(1, 2, Some("editor".to_string()))).is_ok());
    assert!(ensure_doc_access("user", ensure_access(1, 2, Some("viewer".to_string()))).is_ok());
    assert_eq!(ensure_doc_access("user", ensure_access(1, 2, None)), Err(AppError::NotFound));
}

#[test]
fn ocr_feedback_setting() {
    let on = |s: &str| is_enabled(&Some(s.to_string()));
    assert!(is_enabled(&None));
    assert!(on("true"));
    assert!(on("OFF"));
    assert!(!on("off"));
    assert!(!on("0"));
    assert!(!on("no"));
    assert!(!on("false"));
}

#[test]
fn bank_feed_providers() {
    for p in ["plaid", "gocardless", "salt_edge", "simplefin", "manual"] {
        assert!(check_provider(p).is_ok());
    }
    assert_eq!(check_provider("Plaid"), Err(AppError::Validation("unknown provider: Plaid".to_string())));
}
