use openaccounting::error::AppError;
use openaccounting::handlers::automations::{validate_rule, CreateRuleForm};

fn lists() -> (Vec<String>, Vec<String>) {
    (
        vec!["invoice.created".to_string(), "payment.received".to_string()],
        vec![
            "webhook_post".to_string(),
            "email_notify".to_string(),
            "categorize_transaction".to_string(),
            "noop".to_string(),
        ],
    )
}

fn form(action: &str, conditions: Option<&str>, config: Option<&str>) -> CreateRuleForm {
    CreateRuleForm {
        name: "  Notify ".to_string(),
        trigger: "invoice.created".to_string(),
        conditions: conditions.map(|s| s.to_string()),
        action: action.to_string(),
        action_config: config.map(|s| s.to_string()),
    }
}

fn validation_of<T>(r: Result<T, AppError>) -> String {
    match r {
        Err(AppError::Validation(m)) => m,
        Err(e) => panic!("unexpected error {:?}", e),
        Ok(_) => panic!("expected a validation error"),
    }
}

#[test]
fn rule_with_object_config_is_accepted() {
    let (t, a) = lists();
    let r = match validate_rule(&form("email_notify", Some("  "), Some(" {\"to\": \"a@b.c\"} ")), &t, &a) {
        Ok(r) => r,
        Err(e) => panic!("{:?}", e),
    };
    assert_eq!(r.name, "Notify");
    assert_eq!(r.conditions, "{}");
    assert_eq!(r.action_config, "{\"to\": \"a@b.c\"}");
    let r2 = validate_rule(
        &form("webhook_post", Some("{\"min\": 10}"), Some("{\"subscription_id\": 1}")),
        &t,
        &a,
    );
    assert!(r2.is_ok());
}

#[test]
fn rule_errors() {
    let (t, a) = lists();
    let mut f = form("email_notify", None, Some("{\"to\": 1}"));
    f.name = " ".to_string();
    assert_eq!(validation_of(validate_rule(&f, &t, &a)), "name is required");
    let mut f = form("email_notify", None, Some("{\"to\": 1}"));
    f.trigger = "invoice.deleted".to_string();
    assert_eq!(validation_of(validate_rule(&f, &t, &a)), "trigger not on the allowlist");
    let f = form("send_sms", None, Some("{\"to\": 1}"));
    assert_eq!(validation_of(validate_rule(&f, &t, &a)), "action not on the allowlist");
    let f = form("email_notify", Some("[1, 2]"), Some("{\"to\": 1}"));
    assert_eq!(validation_of(validate_rule(&f, &t, &a)), "conditions must be a JSON object");
    let f = form("email_notify", None, Some("to=me"));
    assert_eq!(validation_of(validate_rule(&f, &t, &a)), "action config must be a JSON object");
    let f = form("email_notify", None, Some("{\"subscription_id\": 1}"));
    assert_eq!(
        validation_of(validate_rule(&f, &t, &a)),
        "action config missing required key for this action"
    );
    let f = form("categorize_transaction", None, None);
    assert_eq!(
        validation_of(validate_rule(&f, &t, &a)),
        "action config missing required key for this action"
    );
    let f = form("noop", None, Some("{\"x\": 1}"));
    assert_eq!(
        validation_of(validate_rule(&f, &t, &a)),
        "action config missing required key for this action"
    );
}
