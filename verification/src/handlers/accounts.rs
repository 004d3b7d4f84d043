//! The chart of accounts: the checks of the new-account and edit forms,
//! and the opening-balances entry, which moves each balance-sheet account
//! to the balance the user enters and books the difference against the
//! Opening Balances equity account.
use vstd::prelude::*;
use std::collections::HashMap;
use crate::amount::{
    Amount, checked_sub, sum_all, sum_amounts, total_value, decimal_parse, parse_amount,
    representable_at, max_scale, lemma_sum_value, lemma_negated_value, amount_text, decimal_text,
    int_text, int_to_text,
};
use crate::date::{Date, chrono_parse_date, parse_date_with_format};
use crate::error::{AppError, ErrorView, fails_validation};
use crate::text::{cat, chars_to_string, str_equal, trim_seq, trim_string};
use crate::uuid_text::{uuid_chars, uuid_text};

verus! {

pub struct NewAccountForm {
    pub name: String,
    pub code: Option<String>,
    pub account_type: String,
    pub account_subtype: String,
    pub description: Option<String>,
}

pub struct EditAccountForm {
    pub name: String,
    pub code: Option<String>,
    pub description: Option<String>,
    pub account_type: Option<String>,
    pub account_subtype: Option<String>,
}

/// The five account types.
pub open spec fn is_account_type(s: Seq<char>) -> bool {
    s == "ASSET"@ || s == "LIABILITY"@ || s == "EQUITY"@ || s == "INCOME"@ || s == "EXPENSE"@
}

pub fn account_type_valid(s: &str) -> (r: bool)
    ensures
        r == is_account_type(s@),
{
    str_equal(s, "ASSET") || str_equal(s, "LIABILITY") || str_equal(s, "EQUITY") || str_equal(
        s,
        "INCOME",
    ) || str_equal(s, "EXPENSE")
}

/// An optional text field trimmed, absent when blank.
pub open spec fn trimmed_optional(f: Option<String>) -> Option<Seq<char>> {
    match f {
        Some(s) => if trim_seq(s@).len() > 0 {
            Some(trim_seq(s@))
        } else {
            None
        },
        None => None,
    }
}

fn trimmed_field(f: &Option<String>) -> (r: Option<String>)
    ensures
        match r {
            Some(s) => trimmed_optional(*f) == Some(s@),
            None => trimmed_optional(*f) is None,
        },
{
    match f {
        Some(s) => {
            let t = trim_string(s.as_str());
            if t.as_str().is_empty() {
                None
            } else {
                Some(t)
            }
        },
        None => None,
    }
}

/// The values an account is stored with.
pub struct AccountFields {
    pub name: String,
    pub code: Option<String>,
    pub description: Option<String>,
    pub account_type: String,
}

/// The checks of the new-account form that do not depend on the
/// subtype table: the type is one of the five, and the trimmed name is
/// not empty. The message is shown on the form.
pub fn validate_new_account(form: &NewAccountForm) -> (r: Result<AccountFields, String>)
    ensures
        !is_account_type(form.account_type@) ==> (r matches Err(m) && m@ == "Invalid account type: "@
            + form.account_type@),
        is_account_type(form.account_type@) && trim_seq(form.name@).len() == 0 ==> (r matches Err(m)
            && m@ == "Name is required"@),
        is_account_type(form.account_type@) && trim_seq(form.name@).len() > 0 ==> (r matches Ok(a)
            && a.name@ == trim_seq(form.name@) && a.account_type@ == form.account_type@
            && (match a.code {
            Some(c) => trimmed_optional(form.code) == Some(c@),
            None => trimmed_optional(form.code) is None,
        }) && (match a.description {
            Some(d) => trimmed_optional(form.description) == Some(d@),
            None => trimmed_optional(form.description) is None,
        })),
{
    if !account_type_valid(form.account_type.as_str()) {
        return Err(cat("Invalid account type: ", form.account_type.as_str()));
    }
    let name = trim_string(form.name.as_str());
    if name.as_str().is_empty() {
        return Err("Name is required".to_string());
    }
    Ok(AccountFields {
        name,
        code: trimmed_field(&form.code),
        description: trimmed_field(&form.description),
        account_type: form.account_type.clone(),
    })
}

/// The checks of the edit form that do not depend on the subtype table:
/// a non-blank name, and, when the account has no postings yet (so its
/// type may change), one of the five types. An account with postings
/// keeps its type.
pub fn validate_edit_account(form: &EditAccountForm, can_change_type: bool, current_type: &str) -> (r: Result<AccountFields, String>)
    ensures
        trim_seq(form.name@).len() == 0 ==> (r matches Err(m) && m@ == "Name is required"@),
        trim_seq(form.name@).len() > 0 && can_change_type && !(form.account_type matches Some(t)
            && is_account_type(t@)) ==> (r matches Err(m) && m@ == "Invalid account type"@),
        r matches Ok(a) ==> a.name@ == trim_seq(form.name@) && (if can_change_type {
            form.account_type matches Some(t) && a.account_type@ == t@
        } else {
            a.account_type@ == current_type@
        }) && (match a.code {
            Some(c) => trimmed_optional(form.code) == Some(c@),
            None => trimmed_optional(form.code) is None,
        }) && (match a.description {
            Some(d) => trimmed_optional(form.description) == Some(d@),
            None => trimmed_optional(form.description) is None,
        }),
        r is Ok <==> (trim_seq(form.name@).len() > 0 && (!can_change_type || (
        form.account_type matches Some(t) && is_account_type(t@)))),
{
    let name = trim_string(form.name.as_str());
    if name.as_str().is_empty() {
        return Err("Name is required".to_string());
    }
    let account_type = if can_change_type {
        match &form.account_type {
            Some(t) => if account_type_valid(t.as_str()) {
                t.clone()
            } else {
                return Err("Invalid account type".to_string());
            },
            None => {
                return Err("Invalid account type".to_string());
            },
        }
    } else {
        current_type.to_string()
    };
    Ok(AccountFields {
        name,
        code: trimmed_field(&form.code),
        description: trimmed_field(&form.description),
        account_type,
    })
}

// ---------------------------------------------------------------------
// Opening balances
// ---------------------------------------------------------------------

pub struct OpeningBalancesForm {
    pub date: String,
    /// The `amount[<account id>]` field of each balance-sheet account, in
    /// the order of the accounts (absent when the form has none).
    pub amounts: Vec<Option<String>>,
}

/// A balance-sheet account and its current balance.
#[derive(Debug, Clone)]
pub struct BalanceSheetAccount {
    pub id: u128,
    pub name: String,
    pub account_type: String,
    pub current: Amount,
}

/// One line of the opening-balances entry: a signed amount (positive
/// debits) on an account.
#[derive(Debug, Clone)]
pub struct TxnLine {
    pub account_id: u128,
    pub signed_amount: Amount,
    pub memo: String,
}

/// The name of an account's field on the form.
pub fn opening_field_key(account: u128) -> (r: String)
    ensures
        r@ == "amount["@ + uuid_text(account) + "]"@,
{
    let a = cat("amount[", chars_to_string(uuid_chars(account).as_slice()).as_str());
    cat(a.as_str(), "]")
}

/// A transaction of the ledger as the opening-balance check reads it.
pub struct TxnSummary {
    pub description: String,
    pub kind: String,
}

pub open spec fn txn_summary_view(t: TxnSummary) -> (Seq<char>, Seq<char>) {
    (t.description@, t.kind@)
}

/// Recorded opening balances: a transaction described `Opening balances`
/// that is not a draft.
pub open spec fn is_opening_entry(t: (Seq<char>, Seq<char>)) -> bool {
    t.0 == "Opening balances"@ && t.1 != "draft"@
}

pub open spec fn opening_recorded(ts: Seq<(Seq<char>, Seq<char>)>) -> bool {
    exists|i: int| 0 <= i < ts.len() && is_opening_entry(#[trigger] ts[i])
}

/// Whether the ledger's transactions hold recorded opening balances.
pub fn opening_balances_exist(txns: &Vec<TxnSummary>) -> (r: bool)
    ensures
        r == opening_recorded(txns@.map_values(|t: TxnSummary| txn_summary_view(t))),
{
    let ghost ts = txns@.map_values(|t: TxnSummary| txn_summary_view(t));
    for i in 0..txns.len()
        invariant
            ts == txns@.map_values(|t: TxnSummary| txn_summary_view(t)),
            forall|k: int| 0 <= k < i ==> !is_opening_entry(#[trigger] ts[k]),
    {
        assert(ts[i as int] == txn_summary_view(txns@[i as int]));
        if str_equal(txns[i].description.as_str(), "Opening balances") && !str_equal(
            txns[i].kind.as_str(),
            "draft",
        ) {
            assert(is_opening_entry(ts[i as int]));
            return true;
        }
    }
    false
}

/// The transaction the opening balances are recorded as (a standard
/// entry described `Opening balances`).
pub open spec fn opening_entry() -> (Seq<char>, Seq<char>) {
    ("Opening balances"@, "standard"@)
}

/// The summary of the transaction the opening balances are recorded as.
pub fn opening_entry_summary() -> (r: TxnSummary)
    ensures
        txn_summary_view(r) == opening_entry(),
{
    TxnSummary { description: "Opening balances".to_string(), kind: "standard".to_string() }
}

/// What `opening_date` answers: the refusal when opening balances exist,
/// else the date (`YYYY-MM-DD`) or the message for a bad one.
pub open spec fn opening_date_outcome(exists: bool, date: Seq<char>) -> Result<Date, Seq<char>> {
    if exists {
        Err(
            "Opening balances have already been recorded for this ledger. Reverse the existing \"Opening balances\" entry to change them."@,
        )
    } else {
        match chrono_parse_date(date, "%Y-%m-%d"@) {
            Err(_) => Err("Invalid date (YYYY-MM-DD)"@),
            Ok((y, m, d)) => Ok(Date { year: y, month: m, day: d }),
        }
    }
}

/// The date of the entry; refused when opening balances exist already.
/// The message is shown on the form.
pub fn opening_date(exists: bool, date: &str) -> (r: Result<Date, String>)
    ensures
        match (r, opening_date_outcome(exists, date@)) {
            (Ok(d), Ok(e)) => d == e,
            (Err(m), Err(e)) => m@ == e,
            _ => false,
        },
{
    if exists {
        return Err(
            "Opening balances have already been recorded for this ledger. Reverse the existing \"Opening balances\" entry to change them.".to_string(),
        );
    }
    match parse_date_with_format(date, "%Y-%m-%d") {
        Ok(d) => Ok(d),
        Err(_) => Err("Invalid date (YYYY-MM-DD)".to_string()),
    }
}

/// Opening balances are recorded only once: once the opening entry is
/// among the ledger's transactions, every later attempt is refused,
/// whatever date it gives.
pub proof fn opening_balances_recorded_once(ts: Seq<(Seq<char>, Seq<char>)>, date: Seq<char>)
    ensures
        opening_recorded(ts.push(opening_entry())),
        opening_date_outcome(opening_recorded(ts.push(opening_entry())), date) is Err,
{
    let t = ts.push(opening_entry());
    reveal_strlit("standard");
    reveal_strlit("draft");
    assert("standard"@.len() != "draft"@.len());
    assert(is_opening_entry(t[ts.len() as int]));
}

/// The target an account's field names: none for an absent or blank
/// field, else the amount its trimmed text denotes.
pub open spec fn field_target(f: Option<String>) -> Option<Result<Amount, ()>> {
    match f {
        None => None,
        Some(s) => if trim_seq(s@).len() == 0 {
            None
        } else {
            match decimal_parse(trim_seq(s@)) {
                Ok((m, sc)) => Some(Ok(Amount { mantissa: m, scale: sc })),
                Err(_) => Some(Err(())),
            }
        },
    }
}

/// The first account (in order) whose field does not parse.
pub open spec fn first_bad_field(fields: Seq<Option<String>>, n: int) -> Option<int>
    decreases n,
{
    if n <= 0 {
        None
    } else {
        match first_bad_field(fields, n - 1) {
            Some(k) => Some(k),
            None => if field_target(fields[n - 1]) matches Some(Err(_)) {
                Some(n - 1)
            } else {
                None
            },
        }
    }
}

/// The target balance of each account; the first account whose field
/// does not parse is named in the error.
pub fn parse_opening_targets(accounts: &Vec<BalanceSheetAccount>, fields: &Vec<Option<String>>) -> (r: Result<Vec<Option<Amount>>, AppError>)
    requires
        fields@.len() == accounts@.len(),
    ensures
        match first_bad_field(fields@, fields@.len() as int) {
            Some(k) => fails_validation(r, "Invalid amount for "@ + accounts@[k].name@),
            None => r matches Ok(ts) && ts@.len() == fields@.len() && forall|i: int|
                0 <= i < ts@.len() ==> (match field_target(#[trigger] fields@[i]) {
                    Some(Ok(a)) => ts@[i] == Some(a),
                    _ => ts@[i] is None,
                }),
        },
        r matches Ok(ts) ==> forall|i: int| 0 <= i < ts@.len() ==> (#[trigger] ts@[i] matches Some(a) ==> a.wf()),
{
    let mut out: Vec<Option<Amount>> = Vec::new();
    for i in 0..fields.len()
        invariant
            fields@.len() == accounts@.len(),
            out@.len() == i,
            first_bad_field(fields@, i as int) is None,
            forall|j: int| 0 <= j < i ==> (match field_target(#[trigger] fields@[j]) {
                Some(Ok(a)) => out@[j] == Some(a),
                _ => out@[j] is None,
            }),
            forall|j: int| 0 <= j < i ==> (#[trigger] out@[j] matches Some(a) ==> a.wf()),
    {
        let t: Option<Amount> = match &fields[i] {
            None => None,
            Some(s) => {
                let raw = trim_string(s.as_str());
                if raw.as_str().is_empty() {
                    None
                } else {
                    match parse_amount(raw.as_str()) {
                        Ok(a) => Some(a),
                        Err(_) => {
                            proof {
                                assert(first_bad_field(fields@, i + 1) == Some(i as int));
                                lemma_first_bad_stays(fields@, i + 1, fields@.len() as int);
                            }
                            return Err(
                                AppError::Validation(cat("Invalid amount for ", accounts[i].name.as_str())),
                            );
                        },
                    }
                }
            },
        };
        out.push(t);
    }
    Ok(out)
}

proof fn lemma_first_bad_stays(fields: Seq<Option<String>>, k: int, n: int)
    requires
        0 <= k <= n,
        first_bad_field(fields, k) is Some,
    ensures
        first_bad_field(fields, n) == first_bad_field(fields, k),
    decreases n - k,
{
    if k < n {
        lemma_first_bad_stays(fields, k, n - 1);
    }
}

/// The change an account needs, in its normal direction: target less
/// current for assets (debit-normal), negated for the others
/// (credit-normal); at the larger of the two scales.
pub open spec fn signed_amount_of(a: BalanceSheetAccount, t: Amount) -> Amount {
    let sc = max_scale(t, a.current);
    let m = crate::amount::mantissa_at(t.value() - a.current.value(), sc as nat);
    if a.account_type@ == "ASSET"@ {
        Amount { mantissa: m as i128, scale: sc }
    } else {
        Amount { mantissa: (-m) as i128, scale: sc }
    }
}

/// The lines for the first `n` accounts: (account index, signed change)
/// for each account whose target is given and differs from its balance.
pub open spec fn opening_changes(accounts: Seq<BalanceSheetAccount>, targets: Seq<Option<Amount>>, n: int) -> Seq<(int, Amount)>
    decreases n,
{
    if n <= 0 {
        Seq::empty()
    } else {
        let prev = opening_changes(accounts, targets, n - 1);
        match targets[n - 1] {
            Some(t) => if t.value() != accounts[n - 1].current.value() {
                prev.push((n - 1, signed_amount_of(accounts[n - 1], t)))
            } else {
                prev
            },
            None => prev,
        }
    }
}

/// Each opening-balance line moves its account to the target entered:
/// its signed amount is the target less the current balance for an asset
/// (debit-normal) account, and the current balance less the target for
/// any other (credit-normal) account; a line exists only for an account
/// whose target is given and differs from its balance.
pub proof fn opening_lines_reach_targets(accounts: Seq<BalanceSheetAccount>, targets: Seq<Option<Amount>>, n: int)
    requires
        targets_fit(accounts, targets),
        0 <= n <= accounts.len(),
    ensures
        forall|k: int| 0 <= k < opening_changes(accounts, targets, n).len() ==> {
            let (i, amt) = #[trigger] opening_changes(accounts, targets, n)[k];
            &&& 0 <= i < n
            &&& targets[i] matches Some(t) && t.value() != accounts[i].current.value()
                && amt.value() == (if accounts[i].account_type@ == "ASSET"@ {
                t.value() - accounts[i].current.value()
            } else {
                accounts[i].current.value() - t.value()
            })
        },
    decreases n,
{
    if n > 0 {
        opening_lines_reach_targets(accounts, targets, n - 1);
        let prev = opening_changes(accounts, targets, n - 1);
        let cur = opening_changes(accounts, targets, n);
        if let Some(t) = targets[n - 1] {
            if t.value() != accounts[n - 1].current.value() {
                let a = accounts[n - 1];
                assert(targets[n - 1] matches Some(x) ==> x.wf() && representable_at(
                    x.value() - a.current.value(),
                    max_scale(x, a.current) as nat,
                ));
                let sc = max_scale(t, a.current);
                crate::amount::lemma_representable_value(t.value() - a.current.value(), sc);
                crate::amount::lemma_negated_value(
                    Amount { mantissa: crate::amount::mantissa_at(t.value() - a.current.value(), sc as nat) as i128, scale: sc },
                );
                assert forall|k: int| 0 <= k < cur.len() implies {
                    let (i, amt) = #[trigger] cur[k];
                    &&& 0 <= i < n
                    &&& targets[i] matches Some(t) && t.value() != accounts[i].current.value()
                        && amt.value() == (if accounts[i].account_type@ == "ASSET"@ {
                        t.value() - accounts[i].current.value()
                    } else {
                        accounts[i].current.value() - t.value()
                    })
                } by {
                    if k < prev.len() {
                        assert(cur[k] == prev[k]);
                    }
                }
            }
        }
    }
}

proof fn lemma_changes_index(accounts: Seq<BalanceSheetAccount>, targets: Seq<Option<Amount>>, n: int)
    ensures
        forall|k: int| 0 <= k < opening_changes(accounts, targets, n).len() ==> 0 <= (
        #[trigger] opening_changes(accounts, targets, n)[k]).0 < n,
    decreases n,
{
    if n > 0 {
        lemma_changes_index(accounts, targets, n - 1);
        let prev = opening_changes(accounts, targets, n - 1);
        let cur = opening_changes(accounts, targets, n);
        assert forall|k: int| 0 <= k < cur.len() implies 0 <= (#[trigger] cur[k]).0 < n by {
            if k < prev.len() {
                assert(cur[k] == prev[k]);
            }
        }
    }
}

pub open spec fn change_amounts(cs: Seq<(int, Amount)>) -> Seq<Amount> {
    cs.map_values(|c: (int, Amount)| c.1)
}

pub open spec fn line_values(lines: Seq<TxnLine>) -> Seq<Amount> {
    lines.map_values(|l: TxnLine| l.signed_amount)
}

pub open spec fn targets_fit(accounts: Seq<BalanceSheetAccount>, targets: Seq<Option<Amount>>) -> bool {
    &&& targets.len() == accounts.len()
    &&& forall|i: int| 0 <= i < accounts.len() ==> (#[trigger] accounts[i]).current.wf()
    &&& forall|i: int|
        0 <= i < targets.len() ==> (#[trigger] targets[i] matches Some(t) ==> t.wf()
            && representable_at(
            t.value() - accounts[i].current.value(),
            max_scale(t, accounts[i].current) as nat,
        ))
}

/// `Opening balance — <name>`.
pub open spec fn opening_memo(name: Seq<char>) -> Seq<char> {
    "Opening balance — "@ + name
}

/// The opening-balances entry: one line per account whose target differs
/// from its balance, with the signed change, then a contra line on the
/// Opening Balances account for the negated total. Refused (message shown
/// on the form) when no account changes or the changes cancel out. The
/// lines of the entry sum to zero.
pub fn opening_balance_lines(accounts: &Vec<BalanceSheetAccount>, targets: &Vec<Option<Amount>>, opening_account: u128) -> (r: Result<Vec<TxnLine>, String>)
    requires
        targets_fit(accounts@, targets@),
        sum_amounts(change_amounts(opening_changes(accounts@, targets@, accounts@.len() as int))) is Some,
    ensures
        ({
            let cs = opening_changes(accounts@, targets@, accounts@.len() as int);
            match r {
                Ok(lines) => {
                    &&& lines@.len() == cs.len() + 1
                    &&& forall|k: int|
                        0 <= k < cs.len() ==> {
                            &&& (#[trigger] lines@[k]).account_id == accounts@[cs[k].0].id
                            &&& lines@[k].signed_amount == cs[k].1
                            &&& lines@[k].memo@ == opening_memo(accounts@[cs[k].0].name@)
                        }
                    &&& lines@.last().account_id == opening_account
                    &&& lines@.last().memo@ == "Opening balances contra"@
                    &&& Some(lines@.last().signed_amount.neg_spec()) == sum_amounts(change_amounts(cs))
                    &&& total_value(line_values(lines@)) == 0
                    &&& total_value(change_amounts(cs)) != 0
                },
                Err(m) => m@
                    == "Enter at least one opening balance that differs from the account's current balance."@
                    && (cs.len() == 0 || total_value(change_amounts(cs)) == 0),
            }
        }),
{
    let mut lines: Vec<TxnLine> = Vec::new();
    let mut values: Vec<Amount> = Vec::new();
    let mut i: usize = 0;
    while i < accounts.len()
        invariant
            targets_fit(accounts@, targets@),
            i <= accounts@.len(),
            lines@.len() == opening_changes(accounts@, targets@, i as int).len(),
            values@ == change_amounts(opening_changes(accounts@, targets@, i as int)),
            line_values(lines@) == values@,
            forall|k: int| 0 <= k < values@.len() ==> (#[trigger] values@[k]).wf(),
            forall|k: int|
                0 <= k < lines@.len() ==> {
                    let c = opening_changes(accounts@, targets@, i as int)[k];
                    &&& 0 <= c.0 < accounts@.len()
                    &&& (#[trigger] lines@[k]).account_id == accounts@[c.0].id
                    &&& lines@[k].signed_amount == c.1
                    &&& lines@[k].memo@ == opening_memo(accounts@[c.0].name@)
                },
        decreases accounts@.len() - i,
    {
        proof {
            lemma_changes_index(accounts@, targets@, i as int);
        }
        let ghost prev_cs = opening_changes(accounts@, targets@, i as int);
        let a = &accounts[i];
        match targets[i] {
            Some(t) => {
                assert(targets@[i as int] == Some(t));
                assert(accounts@[i as int].current.wf());
                let delta = match checked_sub(t, a.current) {
                    Some(d) => d,
                    None => Amount::zero(),
                };
                proof {
                    crate::amount::lemma_exact_result(delta, t.value() - a.current.value(), max_scale(t, a.current));
                    crate::amount::lemma_value_sign(delta);
                }
                if !delta.is_zero() {
                    let signed = if str_equal(a.account_type.as_str(), "ASSET") {
                        delta
                    } else {
                        proof {
                            lemma_negated_value(delta);
                        }
                        Amount { mantissa: -delta.mantissa, scale: delta.scale }
                    };
                    let memo = cat("Opening balance — ", a.name.as_str());
                    let ghost before = lines@;
                    lines.push(TxnLine { account_id: a.id, signed_amount: signed, memo });
                    values.push(signed);
                    assert(line_values(lines@) =~= line_values(before).push(signed));
                    assert(opening_changes(accounts@, targets@, i + 1) == prev_cs.push(
                        (i as int, signed),
                    ));
                } else {
                    assert(opening_changes(accounts@, targets@, i + 1) == prev_cs);
                }
            },
            None => {
                assert(opening_changes(accounts@, targets@, i + 1) == prev_cs);
            },
        }
        assert(change_amounts(opening_changes(accounts@, targets@, i + 1)) =~= values@);
        i = i + 1;
    }
    let ghost cs = opening_changes(accounts@, targets@, accounts@.len() as int);
    proof {
        lemma_sum_value(change_amounts(cs));
    }
    let net = match sum_all(&values) {
        Some(n) => n,
        None => Amount::zero(),
    };
    if lines.len() == 0 || net.is_zero() {
        return Err(
            "Enter at least one opening balance that differs from the account's current balance.".to_string(),
        );
    }
    proof {
        lemma_negated_value(net);
    }
    let contra = Amount { mantissa: -net.mantissa, scale: net.scale };
    let ghost before = lines@;
    lines.push(TxnLine { account_id: opening_account, signed_amount: contra, memo: "Opening balances contra".to_string() });
    proof {
        assert(line_values(lines@) =~= line_values(before).push(contra));
        assert(line_values(lines@).drop_last() =~= line_values(before));
        assert(contra.neg_spec() == net);
    }
    Ok(lines)
}

/// Why the entry could not be posted.
#[derive(Debug, Clone)]
pub enum OpeningPostError {
    PeriodClosed { year: i32 },
    Unbalanced { debits: Amount, credits: Amount },
    Other(String),
}

/// The answer to a refused opening-balances entry.
pub fn opening_post_error(e: &OpeningPostError) -> (r: AppError)
    ensures
        match *e {
            OpeningPostError::PeriodClosed { year } => r@ == ErrorView::Validation(
                "Period "@ + int_text(year as int) + " is closed"@,
            ),
            OpeningPostError::Unbalanced { debits, credits } => r@ == ErrorView::Validation(
                "Opening balances do not balance (debits="@ + decimal_text(
                    debits.mantissa as int,
                    debits.scale as nat,
                ) + ", credits="@ + decimal_text(credits.mantissa as int, credits.scale as nat)
                    + ")"@,
            ),
            OpeningPostError::Other(m) => r@ == ErrorView::Internal("opening balances: "@ + m@),
        },
{
    match e {
        OpeningPostError::PeriodClosed { year } => {
            let a = cat("Period ", chars_to_string(int_to_text(*year as i128).as_slice()).as_str());
            AppError::Validation(cat(a.as_str(), " is closed"))
        },
        OpeningPostError::Unbalanced { debits, credits } => {
            let a = cat(
                "Opening balances do not balance (debits=",
                chars_to_string(amount_text(*debits).as_slice()).as_str(),
            );
            let b = cat(a.as_str(), ", credits=");
            let c = cat(b.as_str(), chars_to_string(amount_text(*credits).as_slice()).as_str());
            AppError::Validation(cat(c.as_str(), ")"))
        },
        OpeningPostError::Other(m) => AppError::Internal(cat("opening balances: ", m.as_str())),
    }
}

/// An account's balance as debits less credits, with its type.
pub struct RawBalance {
    pub account: u128,
    pub account_type: String,
    pub raw: Amount,
}

/// A balance read the way the account normally runs: assets and expenses
/// as debits less credits, all other accounts as credits less debits.
pub open spec fn normal_balance(account_type: Seq<char>, raw: Amount) -> Amount {
    if account_type == "ASSET"@ || account_type == "EXPENSE"@ {
        raw
    } else {
        raw.neg_spec()
    }
}

/// The balances by account (a later row for an account replaces an
/// earlier one).
pub open spec fn balance_map(rows: Seq<RawBalance>) -> Map<u128, Amount>
    decreases rows.len(),
{
    if rows.len() == 0 {
        Map::empty()
    } else {
        balance_map(rows.drop_last()).insert(
            rows.last().account,
            normal_balance(rows.last().account_type@, rows.last().raw),
        )
    }
}

/// The balance of each account, read the way it normally runs (see
/// `normal_balance`).
pub fn balances_for(rows: &Vec<RawBalance>) -> (r: HashMap<u128, Amount>)
    requires
        forall|i: int| 0 <= i < rows@.len() ==> (#[trigger] rows@[i]).raw.wf(),
    ensures
        r@ == balance_map(rows@),
{
    broadcast use vstd::std_specs::hash::group_hash_axioms;

    let mut map: HashMap<u128, Amount> = HashMap::new();
    assert(rows@.subrange(0, 0) =~= Seq::<RawBalance>::empty());
    assert(map@ =~= balance_map(rows@.subrange(0, 0)));
    for i in 0..rows.len()
        invariant
            forall|j: int| 0 <= j < rows@.len() ==> (#[trigger] rows@[j]).raw.wf(),
            map@ == balance_map(rows@.subrange(0, i as int)),
    {
        let row = &rows[i];
        let t = row.account_type.as_str();
        let v = if crate::text::str_equal(t, "ASSET") || crate::text::str_equal(t, "EXPENSE") {
            row.raw
        } else {
            row.raw.neg()
        };
        assert(rows@.subrange(0, i + 1).drop_last() =~= rows@.subrange(0, i as int));
        assert(rows@.subrange(0, i + 1).last() == rows@[i as int]);
        map.insert(row.account, v);
    }
    assert(rows@.subrange(0, rows@.len() as int) =~= rows@);
    map
}

} // verus!
