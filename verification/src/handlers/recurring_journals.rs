//! Recurring journal templates: reading a template from its form body
//! (plain fields and `lines[N][field]` groups), the balance check of its
//! lines, the draft each period gets, and the catch-up of due periods.
use vstd::prelude::*;
use crate::amount::{Amount, sum_all, sum_amounts, decimal_parse, parse_amount, decimal_text, amount_text, lemma_sum_value, amounts_equal};
use crate::date::{Date, chrono_parse_date, parse_date_with_format, advance_period, advance_period_spec, date_iso, iso_date_text};
use crate::error::{AppError, ErrorView, fails_validation, validation};
use crate::form_body::{urlencoded_pairs, pair_views, parse_urlencoded, first_value, field_value, parse_line_key, line_numbers, line_field, insert_line_number, get_line_field};
use crate::numparse::{i32_text, parse_i32};
use crate::text::{cat, chars_to_string, str_equal, trim_seq, trim_string, unicode_upper, to_uppercase, one_of};
use crate::uuid_text::{uuid_parsed, parse_uuid, uuid_text, uuid_chars};

verus! {

// ---------------------------------------------------------------------
// Template lines
// ---------------------------------------------------------------------

/// A template line.
#[derive(Debug, Clone)]
pub struct TemplateLine {
    pub account_id: u128,
    pub direction: String,
    pub amount: Amount,
    pub memo: String,
    pub cost_center_id: Option<u128>,
    pub project_id: Option<u128>,
}

/// A template line as contracts see it.
pub struct LineView {
    pub account_id: u128,
    pub direction: Seq<char>,
    pub amount: Amount,
    pub memo: Seq<char>,
    pub cost_center_id: Option<u128>,
    pub project_id: Option<u128>,
}

impl View for TemplateLine {
    type V = LineView;

    open spec fn view(&self) -> LineView {
        LineView {
            account_id: self.account_id,
            direction: self.direction@,
            amount: self.amount,
            memo: self.memo@,
            cost_center_id: self.cost_center_id,
            project_id: self.project_id,
        }
    }
}

/// An optional dimension id: blank is none, anything else must parse.
pub open spec fn dimension(raw: Seq<char>) -> Option<Option<u128>> {
    if trim_seq(raw).len() == 0 {
        Some(None)
    } else {
        match uuid_parsed(trim_seq(raw)) {
            Some(v) => Some(Some(v)),
            None => None,
        }
    }
}

/// What the fields of line `idx` make: the line, or the message of the
/// first check it fails (account, amount, sign, direction, dimensions).
pub open spec fn line_outcome(pairs: Seq<(Seq<char>, Seq<char>)>, idx: usize) -> Result<LineView, Seq<char>> {
    let get = |f: Seq<char>| line_field(pairs, idx, f);
    match uuid_parsed(trim_seq(get("account_id"@))) {
        None => Err("invalid account on a template line"@),
        Some(account) => match decimal_parse(trim_seq(get("amount"@))) {
            Err(_) => Err("invalid amount on a template line"@),
            Ok((m, sc)) => if (Amount { mantissa: m, scale: sc }).value() <= 0 {
                Err("template line amounts must be positive"@)
            } else {
                let direction = unicode_upper(trim_seq(get("direction"@)));
                if direction != "DEBIT"@ && direction != "CREDIT"@ {
                    Err("template line direction must be DEBIT or CREDIT"@)
                } else {
                    match dimension(get("cost_center_id"@)) {
                        None => Err("invalid dimension on a template line"@),
                        Some(cc) => match dimension(get("project_id"@)) {
                            None => Err("invalid dimension on a template line"@),
                            Some(pj) => Ok(
                                LineView {
                                    account_id: account,
                                    direction,
                                    amount: Amount { mantissa: m, scale: sc },
                                    memo: get("memo"@),
                                    cost_center_id: cc,
                                    project_id: pj,
                                },
                            ),
                        },
                    }
                }
            },
        },
    }
}

/// The lines of a body in line-number order, or the first failure.
pub open spec fn lines_outcome(pairs: Seq<(Seq<char>, Seq<char>)>, idxs: Seq<usize>) -> Result<Seq<LineView>, Seq<char>>
    decreases idxs.len(),
{
    if idxs.len() == 0 {
        Ok(Seq::empty())
    } else {
        match lines_outcome(pairs, idxs.drop_last()) {
            Err(e) => Err(e),
            Ok(ls) => match line_outcome(pairs, idxs.last()) {
                Err(e) => Err(e),
                Ok(l) => Ok(ls.push(l)),
            },
        }
    }
}

fn parse_dimension(raw: &str) -> (r: Option<Option<u128>>)
    ensures
        r == dimension(raw@),
{
    let t = trim_string(raw);
    if t.as_str().is_empty() {
        Some(None)
    } else {
        match parse_uuid(t.as_str()) {
            Some(v) => Some(Some(v)),
            None => None,
        }
    }
}

fn template_line(pairs: &Vec<(String, String)>, idx: usize) -> (r: Result<TemplateLine, AppError>)
    ensures
        match (r, line_outcome(pair_views(pairs@), idx)) {
            (Ok(l), Ok(v)) => l@ == v,
            (Err(e), Err(m)) => e@ == ErrorView::Validation(m),
            _ => false,
        },
{
    let account = trim_string(get_line_field(pairs, idx, "account_id").as_str());
    let account_id = match parse_uuid(account.as_str()) {
        Some(v) => v,
        None => {
            return Err(validation("invalid account on a template line"));
        },
    };
    let amount_text = trim_string(get_line_field(pairs, idx, "amount").as_str());
    let amount = match parse_amount(amount_text.as_str()) {
        Ok(a) => a,
        Err(_) => {
            return Err(validation("invalid amount on a template line"));
        },
    };
    if !amount.is_positive() {
        return Err(validation("template line amounts must be positive"));
    }
    let dir_raw = trim_string(get_line_field(pairs, idx, "direction").as_str());
    let direction = to_uppercase(dir_raw.as_str());
    if !str_equal(direction.as_str(), "DEBIT") && !str_equal(direction.as_str(), "CREDIT") {
        return Err(validation("template line direction must be DEBIT or CREDIT"));
    }
    let memo = get_line_field(pairs, idx, "memo");
    let cost_center_id = match parse_dimension(get_line_field(pairs, idx, "cost_center_id").as_str()) {
        Some(v) => v,
        None => {
            return Err(validation("invalid dimension on a template line"));
        },
    };
    let project_id = match parse_dimension(get_line_field(pairs, idx, "project_id").as_str()) {
        Some(v) => v,
        None => {
            return Err(validation("invalid dimension on a template line"));
        },
    };
    Ok(TemplateLine { account_id, direction, amount, memo, cost_center_id, project_id })
}

pub open spec fn line_views(ls: Seq<TemplateLine>) -> Seq<LineView> {
    ls.map_values(|l: TemplateLine| l@)
}

/// The lines of a template form body (`lines[N][field]` groups, taken in
/// ascending line number).
pub fn parse_template_lines(body: &str) -> (r: Result<Vec<TemplateLine>, AppError>)
    ensures
        ({
            let pairs = urlencoded_pairs(body@);
            match (r, lines_outcome(pairs, line_numbers(pairs))) {
                (Ok(ls), Ok(vs)) => line_views(ls@) == vs,
                (Err(e), Err(m)) => e@ == ErrorView::Validation(m),
                _ => false,
            }
        }),
{
    let pairs = parse_urlencoded(body);
    template_lines_from_pairs(&pairs)
}

/// The lines of a template from the decoded fields of its form
/// (`lines[N][field]` groups, taken in ascending line number), or the
/// first line's failure.
pub fn template_lines_from_pairs(pairs: &Vec<(String, String)>) -> (r: Result<Vec<TemplateLine>, AppError>)
    ensures
        ({
            let pv = pair_views(pairs@);
            match (r, lines_outcome(pv, line_numbers(pv))) {
                (Ok(ls), Ok(vs)) => line_views(ls@) == vs,
                (Err(e), Err(m)) => e@ == ErrorView::Validation(m),
                _ => false,
            }
        }),
{
    let ghost pv = pair_views(pairs@);
    let mut idxs: Vec<usize> = Vec::new();
    for i in 0..pairs.len()
        invariant
            pv == pair_views(pairs@),
            idxs@ == line_numbers(pv.subrange(0, i as int)),
    {
        let ghost pre = pv.subrange(0, i + 1);
        assert(pre.drop_last() =~= pv.subrange(0, i as int));
        assert(pre.last() == (pairs@[i as int].0@, pairs@[i as int].1@));
        match parse_line_key(pairs[i].0.as_str()) {
            Some((j, _)) => {
                insert_line_number(&mut idxs, j);
            },
            None => {},
        }
    }
    assert(pv.subrange(0, pv.len() as int) =~= pv);
    let mut out: Vec<TemplateLine> = Vec::new();
    assert(idxs@.subrange(0, 0) =~= Seq::<usize>::empty());
    assert(line_views(out@) =~= Seq::<LineView>::empty());
    for k in 0..idxs.len()
        invariant
            pv == pair_views(pairs@),
            idxs@ == line_numbers(pv),
            lines_outcome(pv, idxs@.subrange(0, k as int)) == Ok::<Seq<LineView>, Seq<char>>(
                line_views(out@),
            ),
    {
        assert(idxs@.subrange(0, k + 1).drop_last() =~= idxs@.subrange(0, k as int));
        match template_line(pairs, idxs[k]) {
            Ok(l) => {
                let ghost before = out@;
                out.push(l);
                assert(line_views(out@) =~= line_views(before).push(l@));
            },
            Err(e) => {
                proof {
                    lemma_lines_err_stays(pv, idxs@, k as int + 1);
                }
                return Err(e);
            },
        }
    }
    assert(idxs@.subrange(0, idxs@.len() as int) =~= idxs@);
    Ok(out)
}

proof fn lemma_lines_err_stays(pairs: Seq<(Seq<char>, Seq<char>)>, idxs: Seq<usize>, k: int)
    requires
        0 <= k <= idxs.len(),
        lines_outcome(pairs, idxs.subrange(0, k)) is Err,
    ensures
        lines_outcome(pairs, idxs) == lines_outcome(pairs, idxs.subrange(0, k)),
    decreases idxs.len() - k,
{
    if k < idxs.len() {
        assert(idxs.subrange(0, k + 1).drop_last() =~= idxs.subrange(0, k));
        lemma_lines_err_stays(pairs, idxs, k + 1);
    } else {
        assert(idxs.subrange(0, k) =~= idxs);
    }
}

// ---------------------------------------------------------------------
// The template's own fields
// ---------------------------------------------------------------------

/// The checked plain fields of a new template.
pub struct TemplateHeader {
    pub name: String,
    pub description: String,
    pub frequency: String,
    pub start_date: Date,
    pub end_date: Option<Date>,
    pub max_occurrences: Option<i32>,
}

pub open spec fn frequencies() -> Seq<Seq<char>> {
    seq!["weekly"@, "monthly"@, "quarterly"@, "yearly"@]
}

/// The frequency field, `monthly` when empty.
pub open spec fn frequency_of(raw: Seq<char>) -> Seq<char> {
    if raw.len() == 0 {
        "monthly"@
    } else {
        raw
    }
}

pub open spec fn before(a: Date, b: Date) -> bool {
    a.year < b.year || (a.year == b.year && (a.month < b.month || (a.month == b.month && a.day < b.day)))
}

/// What the plain fields of a template body make: the header, or the
/// message of the first check that fails.
pub open spec fn header_outcome(pairs: Seq<(Seq<char>, Seq<char>)>) -> Result<(Seq<char>, Seq<char>, Date, Option<Date>, Option<i32>), Seq<char>> {
    let get = |k: Seq<char>| first_value(pairs, k);
    let name = trim_seq(get("name"@));
    let freq = frequency_of(get("frequency"@));
    if name.len() == 0 {
        Err("name is required"@)
    } else if !one_of(freq, frequencies()) {
        Err("invalid frequency"@)
    } else {
        match chrono_parse_date(trim_seq(get("start_date"@)), "%Y-%m-%d"@) {
            Err(_) => Err("invalid start date"@),
            Ok((y, m, d)) => {
                let start = Date { year: y, month: m, day: d };
                let end_raw = trim_seq(get("end_date"@));
                let end: Result<Option<Date>, Seq<char>> = if end_raw.len() == 0 {
                    Ok(None)
                } else {
                    match chrono_parse_date(end_raw, "%Y-%m-%d"@) {
                        Err(_) => Err("invalid end date"@),
                        Ok((ey, em, ed)) => Ok(Some(Date { year: ey, month: em, day: ed })),
                    }
                };
                match end {
                    Err(e) => Err(e),
                    Ok(end) => if end matches Some(e) && before(e, start) {
                        Err("end date is before start date"@)
                    } else {
                        let cap_raw = trim_seq(get("max_occurrences"@));
                        if cap_raw.len() == 0 {
                            Ok((name, freq, start, end, None))
                        } else {
                            match i32_text(cap_raw) {
                                None => Err("invalid occurrence cap"@),
                                Some(n) => if n <= 0 {
                                    Err("occurrence cap must be positive"@)
                                } else {
                                    Ok((name, freq, start, end, Some(n)))
                                },
                            }
                        }
                    },
                }
            },
        }
    }
}

fn is_frequency(s: &str) -> (r: bool)
    ensures
        r == one_of(s@, frequencies()),
{
    let r = str_equal(s, "weekly") || str_equal(s, "monthly") || str_equal(s, "quarterly")
        || str_equal(s, "yearly");
    proof {
        let fs = frequencies();
        if one_of(s@, fs) {
            let i = choose|i: int| 0 <= i < fs.len() && fs[i] == s@;
            assert(0 <= i < 4);
        }
        if r {
            if s@ == "weekly"@ {
                assert(fs[0] == s@);
            } else if s@ == "monthly"@ {
                assert(fs[1] == s@);
            } else if s@ == "quarterly"@ {
                assert(fs[2] == s@);
            } else {
                assert(fs[3] == s@);
            }
        }
    }
    r
}

/// The plain fields of a new template, checked in order: a name, a known
/// frequency (`monthly` when empty), a start date, an optional end date
/// not before the start, an optional positive occurrence cap.
pub fn template_header(body: &str) -> (r: Result<TemplateHeader, AppError>)
    ensures
        match (r, header_outcome(urlencoded_pairs(body@))) {
            (Ok(h), Ok((name, freq, start, end, cap))) => h.name@ == name && h.frequency@ == freq
                && h.start_date == start && h.end_date == end && h.max_occurrences == cap
                && h.description@ == first_value(urlencoded_pairs(body@), "description"@),
            (Err(e), Err(m)) => e@ == ErrorView::Validation(m),
            _ => false,
        },
{
    let pairs = parse_urlencoded(body);
    let name = trim_string(field_value(&pairs, "name").as_str());
    let raw_freq = field_value(&pairs, "frequency");
    let frequency = if raw_freq.as_str().is_empty() {
        "monthly".to_string()
    } else {
        raw_freq
    };
    if name.as_str().is_empty() {
        return Err(validation("name is required"));
    }
    if !is_frequency(frequency.as_str()) {
        return Err(validation("invalid frequency"));
    }
    let start_text = trim_string(field_value(&pairs, "start_date").as_str());
    let start_date = match parse_date_with_format(start_text.as_str(), "%Y-%m-%d") {
        Ok(d) => d,
        Err(_) => {
            return Err(validation("invalid start date"));
        },
    };
    let end_text = trim_string(field_value(&pairs, "end_date").as_str());
    let end_date = if end_text.as_str().is_empty() {
        None
    } else {
        match parse_date_with_format(end_text.as_str(), "%Y-%m-%d") {
            Ok(d) => Some(d),
            Err(_) => {
                return Err(validation("invalid end date"));
            },
        }
    };
    if let Some(e) = end_date {
        if e.year < start_date.year || (e.year == start_date.year && (e.month < start_date.month || (
        e.month == start_date.month && e.day < start_date.day))) {
            return Err(validation("end date is before start date"));
        }
    }
    let cap_text = trim_string(field_value(&pairs, "max_occurrences").as_str());
    let max_occurrences = if cap_text.as_str().is_empty() {
        None
    } else {
        match parse_i32(cap_text.as_str()) {
            Some(n) => {
                if n <= 0 {
                    return Err(validation("occurrence cap must be positive"));
                }
                Some(n)
            },
            None => {
                return Err(validation("invalid occurrence cap"));
            },
        }
    };
    Ok(TemplateHeader {
        name,
        description: field_value(&pairs, "description"),
        frequency,
        start_date,
        end_date,
        max_occurrences,
    })
}

// ---------------------------------------------------------------------
// Balance of the lines
// ---------------------------------------------------------------------

/// The amounts of the lines with direction `dir`, in order.
pub open spec fn amounts_in(ls: Seq<LineView>, dir: Seq<char>) -> Seq<Amount>
    decreases ls.len(),
{
    if ls.len() == 0 {
        Seq::empty()
    } else if ls.last().direction == dir {
        amounts_in(ls.drop_last(), dir).push(ls.last().amount)
    } else {
        amounts_in(ls.drop_last(), dir)
    }
}

/// A template needs two lines at least, and its debits must equal its
/// credits.
pub fn check_template_balance(lines: &Vec<TemplateLine>) -> (r: Result<(), AppError>)
    requires
        forall|i: int| 0 <= i < lines@.len() ==> (#[trigger] lines@[i]).amount.wf(),
        sum_amounts(amounts_in(line_views(lines@), "DEBIT"@)) is Some,
        sum_amounts(amounts_in(line_views(lines@), "CREDIT"@)) is Some,
    ensures
        lines@.len() < 2 ==> fails_validation(r, "a template needs at least two lines"@),
        lines@.len() >= 2 ==> match (
            sum_amounts(amounts_in(line_views(lines@), "DEBIT"@)),
            sum_amounts(amounts_in(line_views(lines@), "CREDIT"@)),
        ) {
            (Some(d), Some(c)) => if d.value() == c.value() {
                r is Ok
            } else {
                fails_validation(
                    r,
                    "template lines do not balance (debits="@ + decimal_text(
                        d.mantissa as int,
                        d.scale as nat,
                    ) + ", credits="@ + decimal_text(c.mantissa as int, c.scale as nat) + ")"@,
                )
            },
            _ => false,
        },
{
    if lines.len() < 2 {
        return Err(validation("a template needs at least two lines"));
    }
    let mut debits: Vec<Amount> = Vec::new();
    let mut credits: Vec<Amount> = Vec::new();
    for i in 0..lines.len()
        invariant
            forall|k: int| 0 <= k < lines@.len() ==> (#[trigger] lines@[k]).amount.wf(),
            debits@ == amounts_in(line_views(lines@.subrange(0, i as int)), "DEBIT"@),
            credits@ == amounts_in(line_views(lines@.subrange(0, i as int)), "CREDIT"@),
            forall|k: int| 0 <= k < debits@.len() ==> (#[trigger] debits@[k]).wf(),
            forall|k: int| 0 <= k < credits@.len() ==> (#[trigger] credits@[k]).wf(),
    {
        assert(line_views(lines@.subrange(0, i + 1)).drop_last() =~= line_views(lines@.subrange(0, i as int)));
        assert(line_views(lines@.subrange(0, i + 1)).last() == lines@[i as int]@);
        if str_equal(lines[i].direction.as_str(), "DEBIT") {
            debits.push(lines[i].amount);
        }
        if str_equal(lines[i].direction.as_str(), "CREDIT") {
            credits.push(lines[i].amount);
        }
        proof {
            reveal_strlit("DEBIT");
            reveal_strlit("CREDIT");
        }
    }
    assert(lines@.subrange(0, lines@.len() as int) =~= lines@);
    proof {
        lemma_sum_value(debits@);
        lemma_sum_value(credits@);
    }
    let d = match sum_all(&debits) {
        Some(x) => x,
        None => Amount::zero(),
    };
    let c = match sum_all(&credits) {
        Some(x) => x,
        None => Amount::zero(),
    };
    if !amounts_equal(d, c) {
        let a = cat("template lines do not balance (debits=", chars_to_string(amount_text(d).as_slice()).as_str());
        let b = cat(a.as_str(), ", credits=");
        let e = cat(b.as_str(), chars_to_string(amount_text(c).as_slice()).as_str());
        return Err(AppError::Validation(cat(e.as_str(), ")")));
    }
    Ok(())
}

// ---------------------------------------------------------------------
// Drafts and due periods
// ---------------------------------------------------------------------

/// The key of a period: its first date, `YYYY-MM-DD`.
pub fn period_key_of(d: Date) -> (r: String)
    ensures
        r@ == iso_date_text(d),
{
    chars_to_string(date_iso(d).as_slice())
}

/// A stored template line, as a signed draft line: debits positive,
/// credits negative.
pub fn draft_amount(direction: &str, amount: Amount) -> (r: Amount)
    requires
        amount.wf(),
    ensures
        r.wf(),
        direction@ == "DEBIT"@ ==> r == amount,
        direction@ != "DEBIT"@ ==> r.value() == -amount.value() && r.scale == amount.scale,
{
    if str_equal(direction, "DEBIT") {
        amount
    } else {
        amount.neg()
    }
}

/// The description of a period's draft: `<template description> (<key>)`.
pub fn draft_description(description: &str, key: &str) -> (r: String)
    ensures
        r@ == description@ + " ("@ + key@ + ")"@,
{
    let a = cat(description, " (");
    let b = cat(a.as_str(), key);
    cat(b.as_str(), ")")
}

/// The reference of a period's draft: `recurring:<template>:<key>`.
pub fn draft_reference(template_id: u128, key: &str) -> (r: String)
    ensures
        r@ == "recurring:"@ + uuid_text(template_id) + ":"@ + key@,
{
    let a = cat("recurring:", chars_to_string(uuid_chars(template_id).as_slice()).as_str());
    let b = cat(a.as_str(), ":");
    cat(b.as_str(), key)
}

pub struct PreviewForm {
    pub period: Option<String>,
}

/// The period a preview asks for: the template's next period when the
/// field is absent or blank, else a `YYYY-MM-DD` date.
pub fn preview_period(form: &PreviewForm, next_period: Date) -> (r: Result<Date, AppError>)
    ensures
        match form.period {
            None => r == Ok::<Date, AppError>(next_period),
            Some(s) => if trim_seq(s@).len() == 0 {
                r == Ok::<Date, AppError>(next_period)
            } else {
                match chrono_parse_date(trim_seq(s@), "%Y-%m-%d"@) {
                    Err(_) => fails_validation(r, "invalid period"@),
                    Ok((y, m, d)) => r == Ok::<Date, AppError>(Date { year: y, month: m, day: d }),
                }
            },
        },
{
    match &form.period {
        None => Ok(next_period),
        Some(s) => {
            let t = trim_string(s.as_str());
            if t.as_str().is_empty() {
                Ok(next_period)
            } else {
                match parse_date_with_format(t.as_str(), "%Y-%m-%d") {
                    Ok(d) => Ok(d),
                    Err(_) => Err(validation("invalid period")),
                }
            }
        },
    }
}

pub struct SkipForm {
    pub period_key: String,
}

/// The period a skip names (trimmed, not empty).
pub fn skip_period_key(form: &SkipForm) -> (r: Result<String, AppError>)
    ensures
        trim_seq(form.period_key@).len() == 0 ==> fails_validation(r, "period is required"@),
        trim_seq(form.period_key@).len() > 0 ==> (r matches Ok(k) && k@ == trim_seq(form.period_key@)),
{
    let k = trim_string(form.period_key.as_str());
    if k.as_str().is_empty() {
        return Err(validation("period is required"));
    }
    Ok(k)
}

/// The conflict of skipping a period that already has a run.
pub fn skip_conflict(key: &str) -> (r: AppError)
    ensures
        r@ == ErrorView::Conflict("period "@ + key@ + " already has a run"@),
{
    let a = cat("period ", key);
    AppError::Conflict(cat(a.as_str(), " already has a run"))
}

/// The template's next period after skipping `key`: advanced past it when
/// the key is the next period, else unchanged.
pub fn next_period_after_skip(key: &str, next_period: Date, frequency: &str) -> (r: Date)
    requires
        next_period.wf(),
        next_period.year < crate::date::MAX_YEAR,
    ensures
        (match chrono_parse_date(key@, "%Y-%m-%d"@) {
            Ok((y, m, d)) => Date { year: y, month: m, day: d } == next_period,
            Err(_) => false,
        }) ==> r == advance_period_spec(next_period, frequency@),
        !(match chrono_parse_date(key@, "%Y-%m-%d"@) {
            Ok((y, m, d)) => Date { year: y, month: m, day: d } == next_period,
            Err(_) => false,
        }) ==> r == next_period,
{
    match parse_date_with_format(key, "%Y-%m-%d") {
        Ok(d) => if d.year == next_period.year && d.month == next_period.month && d.day == next_period.day {
            advance_period(next_period, frequency)
        } else {
            next_period
        },
        Err(_) => next_period,
    }
}

/// `paused=1` or `paused=true` pauses a template; anything else resumes.
pub fn paused_flag(value: Option<&str>) -> (r: bool)
    ensures
        r == (match value {
            Some(v) => v@ == "1"@ || v@ == "true"@,
            None => false,
        }),
{
    match value {
        Some(v) => str_equal(v, "1") || str_equal(v, "true"),
        None => false,
    }
}

/// Most periods a single run catches up per template.
pub const CATCH_UP_LIMIT: usize = 12;

/// Whether a due run still handles `period`: it is not after today and
/// not after the template's end date.
pub open spec fn period_due(period: Date, today: Date, end_date: Option<Date>) -> bool {
    !before(today, period) && !(end_date matches Some(e) && before(e, period))
}

pub fn is_period_due(period: Date, today: Date, end_date: Option<Date>) -> (r: bool)
    ensures
        r == period_due(period, today, end_date),
{
    let after_today = today.year < period.year || (today.year == period.year && (today.month < period.month || (
    today.month == period.month && today.day < period.day)));
    let after_end = match end_date {
        Some(e) => e.year < period.year || (e.year == period.year && (e.month < period.month || (
        e.month == period.month && e.day < period.day))),
        None => false,
    };
    !after_today && !after_end
}

/// A run handles a period exactly when the period is on or before today
/// and, for a template with an end date, on or before that end date: no
/// run is ever generated for a period after the template has ended, nor
/// for one still in the future.
pub proof fn due_periods_stop_at_today_and_end_date(period: Date, today: Date, end_date: Option<Date>)
    ensures
        today.before(period) ==> !period_due(period, today, end_date),
        end_date matches Some(e) && e.before(period) ==> !period_due(period, today, end_date),
        !today.before(period) && (end_date matches Some(e) ==> !e.before(period)) ==> period_due(
            period,
            today,
            end_date,
        ),
{
}

/// A template whose generated runs reached its cap is left alone.
pub fn cap_reached(generated_runs: i64, cap: Option<i32>) -> (r: bool)
    ensures
        r == (match cap {
            Some(c) => generated_runs >= c,
            None => false,
        }),
{
    match cap {
        Some(c) => generated_runs >= c as i64,
        None => false,
    }
}

} // verus!
