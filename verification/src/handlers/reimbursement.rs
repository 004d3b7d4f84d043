//! Expense reimbursement claims: the claim statuses, the checks each step
//! of a claim makes (create, add a line, approve, pay), the policy-violation
//! message, and the journal entries that approval and payout post.
use vstd::prelude::*;
use crate::amount::{Amount, checked_sub, sum_all, sum_amounts, total_value, representable_at, max_scale, int_text, int_to_text};
use crate::error::{AppError, ErrorView, fails_validation, validation};
use crate::text::{
    cat, is_blank_str, join_strings, joined, str_equal, string_views, trim_seq, trim_string,
    to_uppercase, to_lowercase, unicode_upper, unicode_lower, contains_seq, contains_chars,
    str_to_chars, chars_to_string,
};
use crate::wrap::{byte_len, chars_byte_len};
use crate::journal::{Posting, debit_total, credit_total, balanced, lemma_totals_concat, lemma_single_totals};
use crate::amount::{mantissa_at, lemma_sum_value, lemma_exact_result, parse_amount, decimal_parse};
use crate::date::{Date, parse_date_with_format, chrono_parse_date};

verus! {

/// Where a claim is in its life.
#[derive(Debug, Clone, Copy, PartialEq, Eq, Structural)]
pub enum ClaimStatus {
    Draft,
    Submitted,
    PartiallyApproved,
    FullyApproved,
    Approved,
    Rejected,
    Paid,
}

/// The name a status is stored under.
pub open spec fn status_name(s: ClaimStatus) -> Seq<char> {
    match s {
        ClaimStatus::Draft => "draft"@,
        ClaimStatus::Submitted => "submitted"@,
        ClaimStatus::PartiallyApproved => "partially_approved"@,
        ClaimStatus::FullyApproved => "fully_approved"@,
        ClaimStatus::Approved => "approved"@,
        ClaimStatus::Rejected => "rejected"@,
        ClaimStatus::Paid => "paid"@,
    }
}

/// The status stored under a name, if any.
pub open spec fn status_named(s: Seq<char>) -> Option<ClaimStatus> {
    if s == "draft"@ {
        Some(ClaimStatus::Draft)
    } else if s == "submitted"@ {
        Some(ClaimStatus::Submitted)
    } else if s == "partially_approved"@ {
        Some(ClaimStatus::PartiallyApproved)
    } else if s == "fully_approved"@ {
        Some(ClaimStatus::FullyApproved)
    } else if s == "approved"@ {
        Some(ClaimStatus::Approved)
    } else if s == "rejected"@ {
        Some(ClaimStatus::Rejected)
    } else if s == "paid"@ {
        Some(ClaimStatus::Paid)
    } else {
        None
    }
}

impl ClaimStatus {
    pub fn as_str(&self) -> (r: &'static str)
        ensures
            r@ == status_name(*self),
    {
        match self {
            ClaimStatus::Draft => "draft",
            ClaimStatus::Submitted => "submitted",
            ClaimStatus::PartiallyApproved => "partially_approved",
            ClaimStatus::FullyApproved => "fully_approved",
            ClaimStatus::Approved => "approved",
            ClaimStatus::Rejected => "rejected",
            ClaimStatus::Paid => "paid",
        }
    }

    pub fn parse(s: &str) -> (r: Option<ClaimStatus>)
        ensures
            r == status_named(s@),
    {
        if str_equal(s, "draft") {
            Some(ClaimStatus::Draft)
        } else if str_equal(s, "submitted") {
            Some(ClaimStatus::Submitted)
        } else if str_equal(s, "partially_approved") {
            Some(ClaimStatus::PartiallyApproved)
        } else if str_equal(s, "fully_approved") {
            Some(ClaimStatus::FullyApproved)
        } else if str_equal(s, "approved") {
            Some(ClaimStatus::Approved)
        } else if str_equal(s, "rejected") {
            Some(ClaimStatus::Rejected)
        } else if str_equal(s, "paid") {
            Some(ClaimStatus::Paid)
        } else {
            None
        }
    }
}

/// Reading back the name a status is stored under gives the status.
pub proof fn lemma_status_name_round_trip(s: ClaimStatus)
    ensures
        status_named(status_name(s)) == Some(s),
{
    reveal_strlit("draft");
    reveal_strlit("submitted");
    reveal_strlit("partially_approved");
    reveal_strlit("fully_approved");
    reveal_strlit("approved");
    reveal_strlit("rejected");
    reveal_strlit("paid");
    assert("draft"@.len() == 5);
    assert("submitted"@.len() == 9);
    assert("partially_approved"@.len() == 18);
    assert("fully_approved"@.len() == 14);
    assert("approved"@.len() == 8 && "approved"@[0] == 'a');
    assert("rejected"@.len() == 8 && "rejected"@[0] == 'r');
    assert("paid"@.len() == 4);
}

/// The event recorded when a claim moves to a status.
pub open spec fn status_event_name(s: ClaimStatus) -> Seq<char> {
    match s {
        ClaimStatus::Submitted => "submit"@,
        ClaimStatus::PartiallyApproved | ClaimStatus::FullyApproved | ClaimStatus::Approved => "approve"@,
        ClaimStatus::Rejected => "reject"@,
        ClaimStatus::Paid => "pay"@,
        ClaimStatus::Draft => "create"@,
    }
}

pub fn status_event(s: ClaimStatus) -> (r: &'static str)
    ensures
        r@ == status_event_name(s),
{
    match s {
        ClaimStatus::Submitted => "submit",
        ClaimStatus::PartiallyApproved => "approve",
        ClaimStatus::FullyApproved => "approve",
        ClaimStatus::Approved => "approve",
        ClaimStatus::Rejected => "reject",
        ClaimStatus::Paid => "pay",
        ClaimStatus::Draft => "create",
    }
}

// ---------------------------------------------------------------------
// Creating a claim
// ---------------------------------------------------------------------

pub struct NewClaimForm {
    pub title: String,
    pub description: Option<String>,
    pub currency: String,
    pub employee_name: String,
}

/// The values a new claim is stored with.
pub struct NewClaim {
    pub title: String,
    pub description: String,
    pub currency: String,
    pub employee_name: String,
}

/// `claim 'X' vs ledger base 'Y'` message of a currency mismatch.
pub open spec fn currency_mismatch_text(claim: Seq<char>, base: Seq<char>) -> Seq<char> {
    "currency mismatch: claim '"@ + claim + "' vs ledger base '"@ + base + "'"@
}

/// The checks a new claim passes, in order: a title, a currency code of
/// three bytes, an employee name, and the ledger's currency (compared
/// upper-cased). Title and name are stored trimmed, the currency
/// upper-cased, a missing description as empty text.
pub fn validate_new_claim(form: &NewClaimForm, ledger_base_currency: &str) -> (r: Result<NewClaim, AppError>)
    ensures
        trim_seq(form.title@).len() == 0 ==> fails_validation(r, "title is required"@),
        trim_seq(form.title@).len() != 0 && byte_len(form.currency@) != 3 ==> fails_validation(
            r,
            "currency must be a 3-letter code"@,
        ),
        trim_seq(form.title@).len() != 0 && byte_len(form.currency@) == 3 && trim_seq(
            form.employee_name@,
        ).len() == 0 ==> fails_validation(r, "employee_name is required"@),
        trim_seq(form.title@).len() != 0 && byte_len(form.currency@) == 3 && trim_seq(
            form.employee_name@,
        ).len() != 0 && unicode_upper(form.currency@) != unicode_upper(ledger_base_currency@)
            ==> fails_validation(
            r,
            currency_mismatch_text(unicode_upper(form.currency@), ledger_base_currency@),
        ),
        r is Ok <==> (trim_seq(form.title@).len() != 0 && byte_len(form.currency@) == 3
            && trim_seq(form.employee_name@).len() != 0 && unicode_upper(form.currency@)
            == unicode_upper(ledger_base_currency@)),
        r matches Ok(c) ==> c.title@ == trim_seq(form.title@) && c.employee_name@ == trim_seq(
            form.employee_name@,
        ) && c.currency@ == unicode_upper(form.currency@) && c.description@ == (match form.description {
            Some(d) => d@,
            None => Seq::empty(),
        }),
{
    if is_blank_str(form.title.as_str()) {
        return Err(validation("title is required"));
    }
    let cur = str_to_chars(form.currency.as_str());
    if chars_byte_len(&cur) != 3 {
        return Err(validation("currency must be a 3-letter code"));
    }
    if is_blank_str(form.employee_name.as_str()) {
        return Err(validation("employee_name is required"));
    }
    let upper = to_uppercase(form.currency.as_str());
    let base_upper = to_uppercase(ledger_base_currency);
    if !str_equal(upper.as_str(), base_upper.as_str()) {
        let m1 = cat("currency mismatch: claim '", upper.as_str());
        let m2 = cat(m1.as_str(), "' vs ledger base '");
        let m3 = cat(m2.as_str(), ledger_base_currency);
        let m4 = cat(m3.as_str(), "'");
        return Err(AppError::Validation(m4));
    }
    let description = match &form.description {
        Some(d) => d.clone(),
        None => String::new(),
    };
    Ok(NewClaim {
        title: trim_string(form.title.as_str()),
        description,
        currency: upper,
        employee_name: trim_string(form.employee_name.as_str()),
    })
}

// ---------------------------------------------------------------------
// Policy violations
// ---------------------------------------------------------------------

/// A reimbursement policy as the violation message needs it: its name and
/// whether its violations block the claim.
#[derive(Debug, Clone)]
pub struct Policy {
    pub name: String,
    pub hard: bool,
}

/// A broken policy rule; amounts are in cents.
#[derive(Debug, Clone)]
pub enum Violation {
    CategoryCapOver { category: String, actual: i64, cap: i64 },
    ReceiptMissing { amount: i64, min_required: i64 },
    PerDiemOver { destination: String, actual: i64, daily_rate: i64 },
}

pub open spec fn violation_detail(v: Violation) -> Seq<char> {
    match v {
        Violation::CategoryCapOver { category, actual, cap } => "category '"@ + category@
            + "' cap exceeded (actual "@ + int_text(actual as int) + "¢ > cap "@ + int_text(
            cap as int,
        ) + "¢)"@,
        Violation::ReceiptMissing { amount, min_required } => "receipt required for "@ + int_text(
            amount as int,
        ) + "¢ (min "@ + int_text(min_required as int) + "¢)"@,
        Violation::PerDiemOver { destination, actual, daily_rate } => "per-diem for '"@
            + destination@ + "' exceeded (actual "@ + int_text(actual as int) + "¢ > rate "@
            + int_text(daily_rate as int) + "¢)"@,
    }
}

/// `[policy] detail` for each violation of a hard policy, in order.
pub open spec fn hard_messages(vs: Seq<(Policy, Violation)>) -> Seq<Seq<char>>
    decreases vs.len(),
{
    if vs.len() == 0 {
        Seq::empty()
    } else if vs.last().0.hard {
        hard_messages(vs.drop_last()).push(
            "["@ + vs.last().0.name@ + "] "@ + violation_detail(vs.last().1),
        )
    } else {
        hard_messages(vs.drop_last())
    }
}

/// The message that blocks a claim: every hard violation, joined by `; `.
pub open spec fn hard_violation_text(vs: Seq<(Policy, Violation)>) -> Option<Seq<char>> {
    if hard_messages(vs).len() == 0 {
        None
    } else {
        Some("policy violation: "@ + joined(hard_messages(vs), "; "@))
    }
}

fn i64_text(n: i64) -> (r: String)
    ensures
        r@ == int_text(n as int),
{
    let v = int_to_text(n as i128);
    chars_to_string(v.as_slice())
}

fn violation_detail_text(v: &Violation) -> (r: String)
    ensures
        r@ == violation_detail(*v),
{
    match v {
        Violation::CategoryCapOver { category, actual, cap } => {
            let a = cat("category '", category.as_str());
            let b = cat(a.as_str(), "' cap exceeded (actual ");
            let c = cat(b.as_str(), i64_text(*actual).as_str());
            let d = cat(c.as_str(), "¢ > cap ");
            let e = cat(d.as_str(), i64_text(*cap).as_str());
            cat(e.as_str(), "¢)")
        },
        Violation::ReceiptMissing { amount, min_required } => {
            let a = cat("receipt required for ", i64_text(*amount).as_str());
            let b = cat(a.as_str(), "¢ (min ");
            let c = cat(b.as_str(), i64_text(*min_required).as_str());
            cat(c.as_str(), "¢)")
        },
        Violation::PerDiemOver { destination, actual, daily_rate } => {
            let a = cat("per-diem for '", destination.as_str());
            let b = cat(a.as_str(), "' exceeded (actual ");
            let c = cat(b.as_str(), i64_text(*actual).as_str());
            let d = cat(c.as_str(), "¢ > rate ");
            let e = cat(d.as_str(), i64_text(*daily_rate).as_str());
            cat(e.as_str(), "¢)")
        },
    }
}

/// The validation message for the hard policy violations of a claim, or
/// `None` when no hard policy is broken (soft ones only warn).
pub fn hard_violation_message(violations: &Vec<(Policy, Violation)>) -> (r: Option<String>)
    ensures
        match (r, hard_violation_text(violations@)) {
            (Some(m), Some(t)) => m@ == t,
            (None, None) => true,
            _ => false,
        },
{
    let mut msgs: Vec<String> = Vec::new();
    for i in 0..violations.len()
        invariant
            string_views(msgs@) == hard_messages(violations@.subrange(0, i as int)),
    {
        assert(violations@.subrange(0, i + 1).drop_last() =~= violations@.subrange(0, i as int));
        let (policy, v) = &violations[i];
        if policy.hard {
            let head = cat("[", policy.name.as_str());
            let head2 = cat(head.as_str(), "] ");
            let detail = violation_detail_text(v);
            let m = cat(head2.as_str(), detail.as_str());
            let ghost before = msgs@;
            msgs.push(m);
            assert(string_views(msgs@) =~= string_views(before).push(m@));
        }
    }
    assert(violations@.subrange(0, violations@.len() as int) =~= violations@);
    if msgs.len() == 0 {
        None
    } else {
        let j = join_strings(&msgs, "; ");
        Some(cat("policy violation: ", j.as_str()))
    }
}

// ---------------------------------------------------------------------
// Approval
// ---------------------------------------------------------------------

pub struct RejectForm {
    pub reason: String,
}

pub struct ApproveQuery {
    pub level: Option<i32>,
}

impl Default for ApproveQuery {
    fn default() -> (r: ApproveQuery)
        ensures
            r.level is None,
    {
        ApproveQuery { level: None }
    }
}

/// The approval level a request asks for (level 1 when it names none).
pub open spec fn requested_level(level: Option<i32>) -> i32 {
    match level {
        Some(l) => l,
        None => 1,
    }
}

pub open spec fn is_approved_status(s: ClaimStatus) -> bool {
    s == ClaimStatus::FullyApproved || s == ClaimStatus::Approved
}

pub open spec fn awaits_approval(s: ClaimStatus) -> bool {
    s == ClaimStatus::Submitted || s == ClaimStatus::PartiallyApproved
}

/// The checks an approval makes before it looks at the approval levels:
/// an approved claim is a conflict, a claim that is not waiting for
/// approval and a claim with hard policy violations are refused, and the
/// level must be at least 1. Yields the level.
pub fn approve_precheck(status: ClaimStatus, violations: &Vec<(Policy, Violation)>, query: &ApproveQuery) -> (r: Result<i32, AppError>)
    ensures
        is_approved_status(status) ==> (r matches Err(e) && e@ == ErrorView::Conflict(
            "claim is already approved"@,
        )),
        !is_approved_status(status) && !awaits_approval(status) ==> fails_validation(
            r,
            "claim cannot be approved from status '"@ + status_name(status) + "'"@,
        ),
        awaits_approval(status) && hard_violation_text(violations@) is Some ==> fails_validation(
            r,
            hard_violation_text(violations@)->0,
        ),
        awaits_approval(status) && hard_violation_text(violations@) is None && requested_level(
            query.level,
        ) < 1 ==> fails_validation(r, "level must be >= 1"@),
        r is Ok <==> (awaits_approval(status) && hard_violation_text(violations@) is None
            && requested_level(query.level) >= 1),
        r matches Ok(l) ==> l == requested_level(query.level),
{
    if status == ClaimStatus::FullyApproved || status == ClaimStatus::Approved {
        return Err(AppError::Conflict("claim is already approved".to_string()));
    }
    if !(status == ClaimStatus::Submitted || status == ClaimStatus::PartiallyApproved) {
        let m = cat("claim cannot be approved from status '", status.as_str());
        return Err(AppError::Validation(cat(m.as_str(), "'")));
    }
    if let Some(msg) = hard_violation_message(violations) {
        return Err(AppError::Validation(msg));
    }
    let level = match query.level {
        Some(l) => l,
        None => 1,
    };
    if level < 1 {
        return Err(validation("level must be >= 1"));
    }
    Ok(level)
}

/// `{:?}` of a list of levels: `[1, 2]`.
pub open spec fn levels_debug(levels: Seq<i32>) -> Seq<char> {
    "["@ + joined(levels.map_values(|l: i32| int_text(l as int)), ", "@) + "]"@
}

fn levels_debug_text(levels: &Vec<i32>) -> (r: String)
    ensures
        r@ == levels_debug(levels@),
{
    let mut parts: Vec<String> = Vec::new();
    for i in 0..levels.len()
        invariant
            string_views(parts@) == levels@.subrange(0, i as int).map_values(
                |l: i32| int_text(l as int),
            ),
    {
        let t = chars_to_string(int_to_text(levels[i] as i128).as_slice());
        let ghost before = parts@;
        parts.push(t);
        assert(string_views(parts@) =~= string_views(before).push(t@));
        assert(levels@.subrange(0, i + 1).map_values(|l: i32| int_text(l as int)) =~= levels@.subrange(
            0,
            i as int,
        ).map_values(|l: i32| int_text(l as int)).push(int_text(levels@[i as int] as int)));
    }
    assert(levels@.subrange(0, levels@.len() as int) =~= levels@);
    let j = join_strings(&parts, ", ");
    let a = cat("[", j.as_str());
    cat(a.as_str(), "]")
}

fn contains_level(levels: &Vec<i32>, level: i32) -> (r: bool)
    ensures
        r == levels@.contains(level),
{
    for i in 0..levels.len()
        invariant
            forall|k: int| 0 <= k < i ==> levels@[k] != level,
    {
        if levels[i] == level {
            return true;
        }
    }
    false
}

/// Whether the approval at `level` is to be recorded: the level must be
/// one the claim requires; a level already recorded is answered as done
/// (`Ok(true)`, nothing more happens), any other yields `Ok(false)`.
pub fn approve_level_check(level: i32, required: &Vec<i32>, recorded: &Vec<i32>) -> (r: Result<bool, AppError>)
    ensures
        !required@.contains(level) ==> fails_validation(
            r,
            "level "@ + int_text(level as int) + " is not required for this claim (required: "@
                + levels_debug(required@) + ")"@,
        ),
        required@.contains(level) ==> r == Ok::<bool, AppError>(recorded@.contains(level)),
{
    if !contains_level(required, level) {
        let a = cat("level ", chars_to_string(int_to_text(level as i128).as_slice()).as_str());
        let b = cat(a.as_str(), " is not required for this claim (required: ");
        let c = cat(b.as_str(), levels_debug_text(required).as_str());
        return Err(AppError::Validation(cat(c.as_str(), ")")));
    }
    Ok(contains_level(recorded, level))
}

/// Who may approve: one of the eligible approvers, and not the claim's
/// author unless the ledger has a single user.
pub fn approver_check(eligible: &Vec<u128>, user: u128, user_count: i64, author: u128) -> (r: Result<(), AppError>)
    ensures
        !eligible@.contains(user) ==> (r matches Err(e) && e@ == ErrorView::Forbidden),
        eligible@.contains(user) && user_count > 1 && author == user ==> (r matches Err(e) && e@
            == ErrorView::ForbiddenMsg("Authors cannot approve their own claims."@)),
        r is Ok <==> (eligible@.contains(user) && !(user_count > 1 && author == user)),
{
    let mut found = false;
    for i in 0..eligible.len()
        invariant
            found == (exists|k: int| 0 <= k < i && eligible@[k] == user),
    {
        if eligible[i] == user {
            found = true;
        }
    }
    if !found {
        return Err(AppError::Forbidden);
    }
    if user_count > 1 && author == user {
        return Err(AppError::ForbiddenMsg("Authors cannot approve their own claims.".to_string()));
    }
    Ok(())
}

/// Every required level has been recorded.
pub fn fully_approved(required: &Vec<i32>, recorded: &Vec<i32>) -> (r: bool)
    ensures
        r == (forall|k: int| 0 <= k < required@.len() ==> recorded@.contains(#[trigger] required@[k])),
{
    for i in 0..required.len()
        invariant
            forall|k: int| 0 <= k < i ==> recorded@.contains(#[trigger] required@[k]),
    {
        if !contains_level(recorded, required[i]) {
            return false;
        }
    }
    true
}

/// Levels the viewer of a claim may approve now: the required levels not
/// yet recorded for which the viewer is eligible, unless the viewer wrote
/// the claim in a ledger with more than one user. `eligible[k]` says
/// whether the viewer is an eligible approver for `required[k]`.
pub fn approvable_levels(required: &Vec<i32>, recorded: &Vec<i32>, eligible: &Vec<bool>, user_count: i64, viewer_is_author: bool) -> (r: Vec<i32>)
    requires
        eligible@.len() == required@.len(),
    ensures
        r@ == approvable_spec(required@, recorded@, eligible@, user_count <= 1 || !viewer_is_author),
{
    let can = user_count <= 1 || !viewer_is_author;
    let mut out: Vec<i32> = Vec::new();
    for i in 0..required.len()
        invariant
            eligible@.len() == required@.len(),
            can == (user_count <= 1 || !viewer_is_author),
            out@ == approvable_spec(
                required@.subrange(0, i as int),
                recorded@,
                eligible@.subrange(0, i as int),
                can,
            ),
    {
        assert(required@.subrange(0, i + 1).drop_last() =~= required@.subrange(0, i as int));
        assert(eligible@.subrange(0, i + 1).drop_last() =~= eligible@.subrange(0, i as int));
        let lvl = required[i];
        if !contains_level(recorded, lvl) && eligible[i] && can {
            out.push(lvl);
        }
    }
    assert(required@.subrange(0, required@.len() as int) =~= required@);
    assert(eligible@.subrange(0, eligible@.len() as int) =~= eligible@);
    out
}

pub open spec fn approvable_spec(required: Seq<i32>, recorded: Seq<i32>, eligible: Seq<bool>, can: bool) -> Seq<i32>
    decreases required.len(),
{
    if required.len() == 0 || eligible.len() == 0 {
        Seq::empty()
    } else {
        let prev = approvable_spec(required.drop_last(), recorded, eligible.drop_last(), can);
        if !recorded.contains(required.last()) && eligible.last() && can {
            prev.push(required.last())
        } else {
            prev
        }
    }
}

// ---------------------------------------------------------------------
// The entry an approval posts
// ---------------------------------------------------------------------

/// The lines of a claim booked to one expense account: the amount net of
/// advances, and the tax.
#[derive(Debug, Clone, Copy)]
pub struct ExpenseGroup {
    pub gl_account: u128,
    pub net: Amount,
    pub tax: Amount,
}

pub open spec fn groups_wf(gs: Seq<ExpenseGroup>) -> bool {
    forall|i: int| 0 <= i < gs.len() ==> (#[trigger] gs[i]).net.wf() && gs[i].tax.wf()
}

/// Debit legs: each group's net amount, then its tax when positive.
pub open spec fn expense_legs(gs: Seq<ExpenseGroup>) -> Seq<Posting>
    decreases gs.len(),
{
    if gs.len() == 0 {
        Seq::empty()
    } else {
        let g = gs.last();
        let with_net = expense_legs(gs.drop_last()).push(
            Posting { account: g.gl_account, amount: g.net, debit: true },
        );
        if g.tax.value() > 0 {
            with_net.push(Posting { account: g.gl_account, amount: g.tax, debit: true })
        } else {
            with_net
        }
    }
}

/// The amounts of the debit legs.
pub open spec fn debit_amounts(gs: Seq<ExpenseGroup>) -> Seq<Amount> {
    expense_legs(gs).map_values(|p: Posting| p.amount)
}

/// The advances are credited to the advance account: there are some, and
/// the ledger has such an account.
pub open spec fn advance_credited(advance: Amount, advance_account: Option<u128>) -> bool {
    advance.value() > 0 && advance_account is Some
}

/// What the payable account is credited with: the debits (expenses net of
/// advances, and positive tax) less the advances credited to the advance
/// account, at the larger scale, when that value is representable.
pub open spec fn net_payable_of(gs: Seq<ExpenseGroup>, advance: Amount, advance_account: Option<u128>) -> Option<Amount> {
    match sum_amounts(debit_amounts(gs)) {
        Some(s) => if !advance_credited(advance, advance_account) {
            Some(s)
        } else if representable_at(s.value() - advance.value(), max_scale(s, advance) as nat) {
            Some(Amount {
                mantissa: mantissa_at(s.value() - advance.value(), max_scale(s, advance) as nat) as i128,
                scale: max_scale(s, advance),
            })
        } else {
            None
        },
        None => None,
    }
}

/// The approval entry: debit each expense (and positive tax), credit the
/// advance account with the advances when they are credited there, credit
/// the payable account with the rest.
pub open spec fn approval_plan(gs: Seq<ExpenseGroup>, advance: Amount, advance_account: Option<u128>, payable: u128, owed: Amount) -> Seq<Posting> {
    let adv = if advance_credited(advance, advance_account) {
        seq![Posting { account: advance_account->0, amount: advance, debit: false }]
    } else {
        Seq::empty()
    };
    expense_legs(gs) + adv + seq![Posting { account: payable, amount: owed, debit: false }]
}

/// The postings of a fully approved claim (`advance_account` is looked up
/// only when `advance_total` is positive). A claim without lines cannot be
/// approved. The entry balances.
pub fn approval_postings(groups: &Vec<ExpenseGroup>, advance_total: Amount, advance_account: Option<u128>, payable: u128) -> (r: Result<Vec<Posting>, AppError>)
    requires
        groups_wf(groups@),
        advance_total.wf(),
        net_payable_of(groups@, advance_total, advance_account) is Some,
    ensures
        groups@.len() == 0 ==> fails_validation(r, "no lines on claim to approve"@),
        groups@.len() > 0 ==> (r matches Ok(ps) && ps@ == approval_plan(
            groups@,
            advance_total,
            advance_account,
            payable,
            net_payable_of(groups@, advance_total, advance_account)->0,
        )),
        r matches Ok(ps) ==> balanced(ps@),
        r matches Ok(ps) ==> ps@.last().amount.value() == total_value(debit_amounts(groups@)) - (
        if advance_credited(advance_total, advance_account) {
            advance_total.value()
        } else {
            0
        }),
{
    if groups.len() == 0 {
        return Err(validation("no lines on claim to approve"));
    }
    let mut debits: Vec<Amount> = Vec::new();
    let mut ps: Vec<Posting> = Vec::new();
    for i in 0..groups.len()
        invariant
            groups_wf(groups@),
            debits@ == debit_amounts(groups@.subrange(0, i as int)),
            ps@ == expense_legs(groups@.subrange(0, i as int)),
            forall|k: int| 0 <= k < debits@.len() ==> (#[trigger] debits@[k]).wf(),
    {
        assert(groups@.subrange(0, i + 1).drop_last() =~= groups@.subrange(0, i as int));
        let g = groups[i];
        assert(g == groups@[i as int]);
        debits.push(g.net);
        ps.push(Posting::debit(g.gl_account, g.net));
        if g.tax.is_positive() {
            debits.push(g.tax);
            ps.push(Posting::debit(g.gl_account, g.tax));
        }
        assert(ps@ =~= expense_legs(groups@.subrange(0, i + 1)));
        assert(debits@ =~= debit_amounts(groups@.subrange(0, i + 1)));
    }
    assert(groups@.subrange(0, groups@.len() as int) =~= groups@);
    proof {
        lemma_sum_value(debit_amounts(groups@));
    }
    let total = match sum_all(&debits) {
        Some(s) => s,
        None => {
            return Err(validation("no lines on claim to approve"));
        },
    };
    let credited = advance_total.is_positive() && advance_account.is_some();
    let owed = if credited {
        match checked_sub(total, advance_total) {
            Some(o) => o,
            None => {
                return Err(validation("no lines on claim to approve"));
            },
        }
    } else {
        total
    };
    proof {
        if credited {
            lemma_exact_result(owed, total.value() - advance_total.value(), max_scale(total, advance_total));
        }
    }
    if credited {
        if let Some(acct) = advance_account {
            ps.push(Posting::credit(acct, advance_total));
        }
    }
    ps.push(Posting::credit(payable, owed));
    assert(ps@ =~= approval_plan(groups@, advance_total, advance_account, payable, owed));
    proof {
        approval_plan_balances(groups@, advance_total, advance_account, payable, owed);
    }
    Ok(ps)
}

proof fn lemma_expense_debits(gs: Seq<ExpenseGroup>)
    ensures
        debit_total(expense_legs(gs)) == total_value(debit_amounts(gs)),
        credit_total(expense_legs(gs)) == 0,
    decreases gs.len(),
{
    if gs.len() > 0 {
        let g = gs.last();
        lemma_expense_debits(gs.drop_last());
        let prev = expense_legs(gs.drop_last());
        let with_net = prev.push(Posting { account: g.gl_account, amount: g.net, debit: true });
        assert(with_net.drop_last() =~= prev);
        assert(debit_total(with_net) == debit_total(prev) + g.net.value());
        assert(credit_total(with_net) == credit_total(prev));
        assert(with_net.map_values(|p: Posting| p.amount).drop_last() =~= prev.map_values(
            |p: Posting| p.amount,
        ));
        assert(total_value(with_net.map_values(|p: Posting| p.amount)) == total_value(
            debit_amounts(gs.drop_last()),
        ) + g.net.value());
        if g.tax.value() > 0 {
            let with_tax = with_net.push(Posting { account: g.gl_account, amount: g.tax, debit: true });
            assert(with_tax.drop_last() =~= with_net);
            assert(credit_total(with_tax) == credit_total(with_net));
            assert(expense_legs(gs) == with_tax);
            assert(with_tax.map_values(|p: Posting| p.amount).drop_last() =~= with_net.map_values(
                |p: Posting| p.amount,
            ));
        }
    }
}

/// The approval entry balances: debits equal credits, whatever the tax
/// and whether or not the advances are credited to an advance account.
pub proof fn approval_plan_balances(gs: Seq<ExpenseGroup>, advance: Amount, advance_account: Option<u128>, payable: u128, owed: Amount)
    requires
        owed.value() == total_value(debit_amounts(gs)) - (if advance_credited(advance, advance_account) {
            advance.value()
        } else {
            0
        }),
    ensures
        balanced(approval_plan(gs, advance, advance_account, payable, owed)),
{
    lemma_expense_debits(gs);
    let adv = if advance_credited(advance, advance_account) {
        seq![Posting { account: advance_account->0, amount: advance, debit: false }]
    } else {
        Seq::<Posting>::empty()
    };
    let last = seq![Posting { account: payable, amount: owed, debit: false }];
    lemma_totals_concat(expense_legs(gs), adv);
    lemma_totals_concat(expense_legs(gs) + adv, last);
    if advance_credited(advance, advance_account) {
        lemma_single_totals(Posting { account: advance_account->0, amount: advance, debit: false });
    } else {
        assert(credit_total(adv) == 0);
        assert(debit_total(adv) == 0);
    }
    lemma_single_totals(Posting { account: payable, amount: owed, debit: false });
}

// ---------------------------------------------------------------------
// Payout
// ---------------------------------------------------------------------

/// A payout account is an asset that is a current, other or advance
/// asset, or whose subtype names cash or bank.
pub open spec fn payout_account_ok(account_type: Seq<char>, subtype: Seq<char>) -> bool {
    account_type == "ASSET"@ && (subtype == "CURRENT_ASSET"@ || subtype == "OTHER_ASSET"@
        || subtype == "EMPLOYEE_ADVANCE"@ || contains_seq(unicode_lower(subtype), "cash"@)
        || contains_seq(unicode_lower(subtype), "bank"@))
}

/// The payout account check of a claim's payment.
pub fn check_payout_account(account_type: &str, subtype: &str) -> (r: Result<(), AppError>)
    ensures
        payout_account_ok(account_type@, subtype@) ==> r is Ok,
        !payout_account_ok(account_type@, subtype@) ==> fails_validation(
            r,
            "payout account must be cash or bank (subtype="@ + subtype@ + ", type="@
                + account_type@ + ")"@,
        ),
{
    let is_asset = str_equal(account_type, "ASSET");
    let listed = str_equal(subtype, "CURRENT_ASSET") || str_equal(subtype, "OTHER_ASSET")
        || str_equal(subtype, "EMPLOYEE_ADVANCE");
    let lower = str_to_chars(to_lowercase(subtype).as_str());
    let cash = str_to_chars("cash");
    let bank = str_to_chars("bank");
    let named = contains_chars(lower.as_slice(), cash.as_slice()) || contains_chars(
        lower.as_slice(),
        bank.as_slice(),
    );
    if !is_asset || !listed && !named {
        let a = cat("payout account must be cash or bank (subtype=", subtype);
        let b = cat(a.as_str(), ", type=");
        let c = cat(b.as_str(), account_type);
        return Err(AppError::Validation(cat(c.as_str(), ")")));
    }
    Ok(())
}

/// The payout entry: debit the payable account and credit the payout
/// account with what the approval entry credited to the payable account.
pub fn payout_postings(payable: u128, payout_account: u128, owed: Amount) -> (r: Vec<Posting>)
    ensures
        r@ == seq![
            Posting { account: payable, amount: owed, debit: true },
            Posting { account: payout_account, amount: owed, debit: false },
        ],
        balanced(r@),
{
    let mut r: Vec<Posting> = Vec::new();
    r.push(Posting::debit(payable, owed));
    r.push(Posting::credit(payout_account, owed));
    proof {
        let s = r@;
        let first = seq![Posting { account: payable, amount: owed, debit: true }];
        assert(s =~= first + seq![Posting { account: payout_account, amount: owed, debit: false }]);
        lemma_single_totals(Posting { account: payable, amount: owed, debit: true });
        lemma_single_totals(Posting { account: payout_account, amount: owed, debit: false });
        lemma_totals_concat(first, seq![Posting { account: payout_account, amount: owed, debit: false }]);
    }
    r
}

// ---------------------------------------------------------------------
// Lines, submission, rejection
// ---------------------------------------------------------------------

/// `claim cannot be <verb> from status '<status>'`.
pub open spec fn transition_refused_text(verb: Seq<char>, s: ClaimStatus) -> Seq<char> {
    "claim cannot be "@ + verb + " from status '"@ + status_name(s) + "'"@
}

/// The refusal of a status change that the claim's status does not allow
/// (`allowed` is the status's own transition rule).
pub fn transition_check(status: ClaimStatus, allowed: bool, verb: &str) -> (r: Result<(), AppError>)
    ensures
        allowed ==> r is Ok,
        !allowed ==> fails_validation(r, transition_refused_text(verb@, status)),
{
    if !allowed {
        let a = cat("claim cannot be ", verb);
        let b = cat(a.as_str(), " from status '");
        let c = cat(b.as_str(), status.as_str());
        return Err(AppError::Validation(cat(c.as_str(), "'")));
    }
    Ok(())
}

/// The checks of a submission after the status check: the claim has
/// lines and breaks no hard policy.
pub fn submit_check(line_count: i64, violations: &Vec<(Policy, Violation)>) -> (r: Result<(), AppError>)
    ensures
        line_count == 0 ==> fails_validation(r, "cannot submit an empty claim"@),
        line_count != 0 && hard_violation_text(violations@) is Some ==> fails_validation(
            r,
            hard_violation_text(violations@)->0,
        ),
        r is Ok <==> (line_count != 0 && hard_violation_text(violations@) is None),
{
    if line_count == 0 {
        return Err(validation("cannot submit an empty claim"));
    }
    if let Some(msg) = hard_violation_message(violations) {
        return Err(AppError::Validation(msg));
    }
    Ok(())
}

/// A rejection needs a reason; it is stored trimmed.
pub fn rejection_reason(form: &RejectForm) -> (r: Result<String, AppError>)
    ensures
        trim_seq(form.reason@).len() == 0 ==> fails_validation(r, "rejection reason is required"@),
        trim_seq(form.reason@).len() != 0 ==> (r matches Ok(t) && t@ == trim_seq(form.reason@)),
{
    if is_blank_str(form.reason.as_str()) {
        return Err(validation("rejection reason is required"));
    }
    Ok(trim_string(form.reason.as_str()))
}

pub struct NewLineForm {
    pub txn_date: String,
    pub description: String,
    pub amount: String,
    pub gl_account_id: u128,
    pub tax_amount: Option<String>,
    pub advance_amount: Option<String>,
}

/// A checked claim line.
pub struct ClaimLine {
    pub txn_date: Date,
    pub description: String,
    pub amount: Amount,
    pub gl_account: u128,
    pub tax: Amount,
    pub advance: Amount,
}

/// The text an optional amount field is read from (`0` when absent).
pub open spec fn field_or_zero(f: Option<String>) -> Seq<char> {
    match f {
        Some(t) => t@,
        None => "0"@,
    }
}

fn parse_field(text: &str, prefix: &str) -> (r: Result<Amount, AppError>)
    ensures
        match (r, decimal_parse(text@)) {
            (Ok(a), Ok((m, sc))) => a == Amount { mantissa: m, scale: sc } && a.wf(),
            (Err(e), Err(t)) => e@ == ErrorView::Validation(prefix@ + t),
            _ => false,
        },
{
    match parse_amount(text) {
        Ok(a) => Ok(a),
        Err(e) => Err(AppError::Validation(cat(prefix, e.as_str()))),
    }
}

/// The checks a new line passes, in order: the claim is a draft, the
/// amount parses and is positive, tax and advance parse (absent means 0),
/// the date is `YYYY-MM-DD`. Parse errors carry the parser's message.
pub fn validate_new_line(status: ClaimStatus, form: &NewLineForm) -> (r: Result<ClaimLine, AppError>)
    ensures
        status != ClaimStatus::Draft ==> fails_validation(
            r,
            "claim is in status '"@ + status_name(status) + "', only drafts accept new lines"@,
        ),
        status == ClaimStatus::Draft ==> match decimal_parse(form.amount@) {
            Err(t) => fails_validation(r, "bad amount: "@ + t),
            Ok((m, sc)) => if (Amount { mantissa: m, scale: sc }).value() <= 0 {
                fails_validation(r, "amount must be positive"@)
            } else {
                match decimal_parse(field_or_zero(form.tax_amount)) {
                    Err(t) => fails_validation(r, "bad tax_amount: "@ + t),
                    Ok((tm, ts)) => match decimal_parse(field_or_zero(form.advance_amount)) {
                        Err(t) => fails_validation(r, "bad advance_amount: "@ + t),
                        Ok((am, as_)) => match chrono_parse_date(form.txn_date@, "%Y-%m-%d"@) {
                            Err(t) => fails_validation(r, "bad date: "@ + t),
                            Ok((y, mo, d)) => r matches Ok(line) && line.amount == (Amount { mantissa: m, scale: sc })
                                && line.tax == (Amount { mantissa: tm, scale: ts })
                                && line.advance == (Amount { mantissa: am, scale: as_ })
                                && line.txn_date == (Date { year: y, month: mo, day: d })
                                && line.description@ == form.description@
                                && line.gl_account == form.gl_account_id,
                        },
                    },
                }
            },
        },
{
    if status != ClaimStatus::Draft {
        let a = cat("claim is in status '", status.as_str());
        return Err(AppError::Validation(cat(a.as_str(), "', only drafts accept new lines")));
    }
    let amount = parse_field(form.amount.as_str(), "bad amount: ")?;
    if !amount.is_positive() {
        return Err(validation("amount must be positive"));
    }
    let tax_text: &str = match &form.tax_amount {
        Some(t) => t.as_str(),
        None => "0",
    };
    let tax = parse_field(tax_text, "bad tax_amount: ")?;
    let advance_text: &str = match &form.advance_amount {
        Some(t) => t.as_str(),
        None => "0",
    };
    let advance = parse_field(advance_text, "bad advance_amount: ")?;
    let txn_date = match parse_date_with_format(form.txn_date.as_str(), "%Y-%m-%d") {
        Ok(d) => d,
        Err(e) => {
            return Err(AppError::Validation(cat("bad date: ", e.as_str())));
        },
    };
    Ok(ClaimLine {
        txn_date,
        description: form.description.clone(),
        amount,
        gl_account: form.gl_account_id,
        tax,
        advance,
    })
}

/// Subtypes a claim line may be booked to.
pub open spec fn is_expense_subtype(s: Seq<char>) -> bool {
    s == "OPERATING_EXPENSE"@ || s == "COST_OF_GOODS_SOLD"@ || s == "NON_OPERATING_EXPENSE"@
        || s == "TAX_EXPENSE"@
}

pub fn check_expense_subtype(subtype: &str) -> (r: Result<(), AppError>)
    ensures
        is_expense_subtype(subtype@) ==> r is Ok,
        !is_expense_subtype(subtype@) ==> fails_validation(
            r,
            "gl account subtype '"@ + subtype@ + "' is not an EXPENSE"@,
        ),
{
    if !(str_equal(subtype, "OPERATING_EXPENSE") || str_equal(subtype, "COST_OF_GOODS_SOLD")
        || str_equal(subtype, "NON_OPERATING_EXPENSE") || str_equal(subtype, "TAX_EXPENSE")) {
        let a = cat("gl account subtype '", subtype);
        return Err(AppError::Validation(cat(a.as_str(), "' is not an EXPENSE")));
    }
    Ok(())
}

} // verus!
