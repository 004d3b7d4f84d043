//! Automation rules: the checks of a new event → condition → action rule.
use vstd::prelude::*;
use crate::error::{AppError, ErrorView, validation};
use crate::text::{one_of, str_equal, string_views, trim_seq, trim_string};

verus! {

pub struct CreateRuleForm {
    pub name: String,
    pub trigger: String,
    pub conditions: Option<String>,
    pub action: String,
    pub action_config: Option<String>,
}

/// What `serde_json::from_str::<serde_json::Value>` makes of a text: the
/// keys of the object when the text is a JSON object, else `None`.
pub uninterp spec fn json_object_keys(raw: Seq<char>) -> Option<Seq<Seq<char>>>;

/// Calls `serde_json::from_str::<serde_json::Value>` and hands back the
/// keys of a `Value::Object`; any other value, and a parse error, give
/// `None`. The result depends on the text alone and is named
/// `json_object_keys`; the JSON grammar is not stated here.
#[verifier::external_body]
fn object_keys(raw: &str) -> (r: Option<Vec<String>>)
    ensures
        match (r, json_object_keys(raw@)) {
            (Some(v), Some(k)) => string_views(v@) == k,
            (None, None) => true,
            _ => false,
        },
{
    match serde_json::from_str::<serde_json::Value>(raw) {
        Ok(serde_json::Value::Object(m)) => Some(m.keys().cloned().collect()),
        _ => None,
    }
}

/// A JSON object field of the form: absent or blank is the empty object,
/// otherwise its trimmed text must be a JSON object. On success: the text
/// that is stored and the object's keys.
pub open spec fn json_field(f: Option<String>) -> Option<(Seq<char>, Seq<Seq<char>>)> {
    match f {
        None => Some(("{}"@, Seq::empty())),
        Some(s) => {
            let t = trim_seq(s@);
            if t.len() == 0 {
                Some(("{}"@, Seq::empty()))
            } else {
                match json_object_keys(t) {
                    Some(k) => Some((t, k)),
                    None => None,
                }
            }
        },
    }
}

fn read_json_field(f: &Option<String>) -> (r: Option<(String, Vec<String>)>)
    ensures
        match (r, json_field(*f)) {
            (Some((t, k)), Some((st, sk))) => t@ == st && string_views(k@) == sk,
            (None, None) => true,
            _ => false,
        },
{
    match f {
        None => {
            let k: Vec<String> = Vec::new();
            assert(string_views(k@) =~= Seq::<Seq<char>>::empty());
            Some(("{}".to_string(), k))
        },
        Some(s) => {
            let t = trim_string(s.as_str());
            if t.as_str().is_empty() {
                let k: Vec<String> = Vec::new();
                assert(string_views(k@) =~= Seq::<Seq<char>>::empty());
                Some(("{}".to_string(), k))
            } else {
                match object_keys(t.as_str()) {
                    Some(k) => Some((t, k)),
                    None => None,
                }
            }
        },
    }
}

/// The key an action's configuration must hold; other actions have none
/// that would do.
pub open spec fn config_ok(action: Seq<char>, keys: Seq<Seq<char>>) -> bool {
    if action == "webhook_post"@ {
        keys.contains("subscription_id"@)
    } else if action == "email_notify"@ {
        keys.contains("to"@)
    } else if action == "categorize_transaction"@ {
        keys.contains("cost_center"@)
    } else {
        false
    }
}

fn has_key(keys: &Vec<String>, key: &str) -> (r: bool)
    ensures
        r == string_views(keys@).contains(key@),
{
    let ghost ks = string_views(keys@);
    for i in 0..keys.len()
        invariant
            ks == string_views(keys@),
            forall|j: int| 0 <= j < i ==> ks[j] != key@,
    {
        if str_equal(keys[i].as_str(), key) {
            assert(ks[i as int] == key@);
            return true;
        }
    }
    false
}

/// A rule as it is stored; the conditions and the action configuration
/// are JSON object texts.
pub struct NewRule {
    pub name: String,
    pub trigger: String,
    pub conditions: String,
    pub action: String,
    pub action_config: String,
}

/// The checks of a new rule in order, against the allowed triggers and
/// actions: a name, a known trigger and action, conditions and an action
/// configuration that are JSON objects, and the key the action needs.
pub open spec fn rule_checks(f: CreateRuleForm, triggers: Seq<Seq<char>>, actions: Seq<Seq<char>>) -> Result<
    (Seq<char>, Seq<char>),
    Seq<char>,
> {
    if trim_seq(f.name@).len() == 0 {
        Err("name is required"@)
    } else if !one_of(f.trigger@, triggers) {
        Err("trigger not on the allowlist"@)
    } else if !one_of(f.action@, actions) {
        Err("action not on the allowlist"@)
    } else {
        match json_field(f.conditions) {
            None => Err("conditions must be a JSON object"@),
            Some((ct, _)) => match json_field(f.action_config) {
                None => Err("action config must be a JSON object"@),
                Some((at, ak)) => if !config_ok(f.action@, ak) {
                    Err("action config missing required key for this action"@)
                } else {
                    Ok((ct, at))
                },
            },
        }
    }
}

fn listed(s: &str, words: &Vec<String>) -> (r: bool)
    ensures
        r == one_of(s@, string_views(words@)),
{
    let ghost ws = string_views(words@);
    for i in 0..words.len()
        invariant
            ws == string_views(words@),
            forall|j: int| 0 <= j < i ==> ws[j] != s@,
    {
        if str_equal(words[i].as_str(), s) {
            assert(ws[i as int] == s@);
            return true;
        }
    }
    false
}

/// The checks of a new rule (see `rule_checks`); the name is stored
/// trimmed.
pub fn validate_rule(form: &CreateRuleForm, triggers: &Vec<String>, actions: &Vec<String>) -> (r: Result<
    NewRule,
    AppError,
>)
    ensures
        match (r, rule_checks(*form, string_views(triggers@), string_views(actions@))) {
            (Ok(n), Ok((ct, at))) => n.name@ == trim_seq(form.name@) && n.trigger@ == form.trigger@
                && n.action@ == form.action@ && n.conditions@ == ct && n.action_config@ == at,
            (Err(e), Err(m)) => e@ == ErrorView::Validation(m),
            _ => false,
        },
{
    let name = trim_string(form.name.as_str());
    if name.as_str().is_empty() {
        return Err(validation("name is required"));
    }
    if !listed(form.trigger.as_str(), triggers) {
        return Err(validation("trigger not on the allowlist"));
    }
    if !listed(form.action.as_str(), actions) {
        return Err(validation("action not on the allowlist"));
    }
    let (conditions, _) = match read_json_field(&form.conditions) {
        Some(c) => c,
        None => {
            return Err(validation("conditions must be a JSON object"));
        },
    };
    let (action_config, keys) = match read_json_field(&form.action_config) {
        Some(c) => c,
        None => {
            return Err(validation("action config must be a JSON object"));
        },
    };
    let a = form.action.as_str();
    let ok = if str_equal(a, "webhook_post") {
        has_key(&keys, "subscription_id")
    } else if str_equal(a, "email_notify") {
        has_key(&keys, "to")
    } else if str_equal(a, "categorize_transaction") {
        has_key(&keys, "cost_center")
    } else {
        false
    };
    if !ok {
        return Err(validation("action config missing required key for this action"));
    }
    Ok(NewRule { name, trigger: form.trigger.clone(), conditions, action: form.action.clone(), action_config })
}

} // verus!
