//! Foreign exchange: the checks of a manually entered rate and of a
//! revaluation date, the answer to a refused revaluation, the range of
//! the gains report and its CSV export.
use vstd::prelude::*;
use crate::amount::{
    Amount, checked_sub, decimal_parse, parse_amount, decimal_text, amount_text, int_text,
    int_to_text, representable_at, max_scale, exact_amount, lemma_exact_result,
};
use crate::date::{Date, chrono_parse_date, parse_date_with_format, date_before, iso_date_text, date_iso};
use crate::error::{AppError, ErrorView, fails_validation, validation};
use crate::escape::{push_chars, push_str, csv_escape, csv_escaped};
use crate::text::{
    str_to_chars, chars_to_string, trim_seq, trim_string, trim_chars, upper_seq, to_ascii_uppercase_chars,
    is_ascii_upper, is_ascii_lower, cat,
};

verus! {

pub struct NewRateForm {
    pub base_currency: String,
    pub quote_currency: String,
    pub rate: String,
    pub rate_date: String,
}

pub struct RevaluationForm {
    pub date: String,
}

pub open spec fn is_ascii_alpha(c: char) -> bool {
    is_ascii_upper(c) || is_ascii_lower(c)
}

/// A currency code as entered: trimmed and upper-cased, it must be three
/// ASCII letters.
pub open spec fn currency_code(raw: Seq<char>) -> Option<Seq<char>> {
    let c = upper_seq(trim_seq(raw));
    if c.len() == 3 && forall|i: int| 0 <= i < 3 ==> is_ascii_alpha(#[trigger] c[i]) {
        Some(c)
    } else {
        None
    }
}

/// A currency code (see `currency_code`), or the message naming the input.
pub fn parse_currency(raw: &str) -> (r: Result<String, AppError>)
    ensures
        match currency_code(raw@) {
            Some(c) => r matches Ok(s) && s@ == c,
            None => fails_validation(r, "'"@ + raw@ + "' is not a 3-letter currency code"@),
        },
{
    let t = trim_chars(&str_to_chars(raw));
    let c = to_ascii_uppercase_chars(&t);
    let mut ok = c.len() == 3;
    if ok {
        let mut i: usize = 0;
        while i < 3
            invariant
                c@.len() == 3,
                i <= 3,
                ok == forall|j: int| 0 <= j < i ==> is_ascii_alpha(#[trigger] c@[j]),
            decreases 3 - i,
        {
            let ch = c[i];
            ok = ok && (('A' <= ch && ch <= 'Z') || ('a' <= ch && ch <= 'z'));
            i = i + 1;
        }
    }
    if ok {
        Ok(chars_to_string(c.as_slice()))
    } else {
        let a = cat("'", raw);
        Err(AppError::Validation(cat(a.as_str(), "' is not a 3-letter currency code")))
    }
}

/// A date as entered (trimmed), or the message naming the input.
pub fn parse_fx_date(raw: &str) -> (r: Result<Date, AppError>)
    ensures
        match chrono_parse_date(trim_seq(raw@), "%Y-%m-%d"@) {
            Ok((y, m, d)) => r == Ok::<Date, AppError>(Date { year: y, month: m, day: d }),
            Err(_) => fails_validation(r, "invalid date '"@ + raw@ + "', expected YYYY-MM-DD"@),
        },
{
    match parse_date_with_format(trim_string(raw).as_str(), "%Y-%m-%d") {
        Ok(d) => Ok(d),
        Err(_) => {
            let a = cat("invalid date '", raw);
            Err(AppError::Validation(cat(a.as_str(), "', expected YYYY-MM-DD")))
        },
    }
}

/// Decimal commas read as points.
pub open spec fn commas_to_points(s: Seq<char>) -> Seq<char> {
    s.map_values(|c: char| if c == ',' { '.' } else { c })
}

fn replace_commas(s: &Vec<char>) -> (r: Vec<char>)
    ensures
        r@ == commas_to_points(s@),
{
    let mut r: Vec<char> = Vec::new();
    for i in 0..s.len()
        invariant
            r@ == commas_to_points(s@.subrange(0, i as int)),
    {
        r.push(if s[i] == ',' { '.' } else { s[i] });
        assert(r@ =~= commas_to_points(s@.subrange(0, i + 1)));
    }
    assert(s@.subrange(0, s@.len() as int) =~= s@);
    r
}

/// A rate as it is stored: the pair, the rate and its date.
pub struct ManualRate {
    pub base_currency: String,
    pub quote_currency: String,
    pub rate: Amount,
    pub rate_date: Date,
}

/// The checks of a manual rate in order: both currencies, a pair of two
/// different currencies, a rate (a decimal comma is accepted) that is
/// positive, and a date.
pub fn create_rate(form: &NewRateForm) -> (r: Result<ManualRate, AppError>)
    ensures
        match currency_code(form.base_currency@) {
            None => fails_validation(r, "'"@ + form.base_currency@ + "' is not a 3-letter currency code"@),
            Some(b) => match currency_code(form.quote_currency@) {
                None => fails_validation(r, "'"@ + form.quote_currency@ + "' is not a 3-letter currency code"@),
                Some(q) => if b == q {
                    fails_validation(r, "currency pair must differ"@)
                } else {
                    match decimal_parse(commas_to_points(trim_seq(form.rate@))) {
                        Err(_) => fails_validation(r, "invalid rate"@),
                        Ok((m, s)) => if (Amount { mantissa: m, scale: s }).value() <= 0 {
                            fails_validation(r, "rate must be positive"@)
                        } else {
                            match chrono_parse_date(trim_seq(form.rate_date@), "%Y-%m-%d"@) {
                                Err(_) => fails_validation(
                                    r,
                                    "invalid date '"@ + form.rate_date@ + "', expected YYYY-MM-DD"@,
                                ),
                                Ok((y, mo, d)) => r matches Ok(x) && x.base_currency@ == b && x.quote_currency@
                                    == q && x.rate == (Amount { mantissa: m, scale: s }) && x.rate.wf()
                                    && x.rate_date == (Date { year: y, month: mo, day: d }),
                            }
                        },
                    }
                },
            },
        },
{
    let base = parse_currency(form.base_currency.as_str())?;
    let quote = parse_currency(form.quote_currency.as_str())?;
    if crate::text::str_equal(base.as_str(), quote.as_str()) {
        return Err(validation("currency pair must differ"));
    }
    let raw = replace_commas(&trim_chars(&str_to_chars(form.rate.as_str())));
    let rate = match parse_amount(chars_to_string(raw.as_slice()).as_str()) {
        Ok(a) => a,
        Err(_) => {
            return Err(validation("invalid rate"));
        },
    };
    if !rate.is_positive() {
        return Err(validation("rate must be positive"));
    }
    let rate_date = parse_fx_date(form.rate_date.as_str())?;
    Ok(ManualRate { base_currency: base, quote_currency: quote, rate, rate_date })
}

/// Why a revaluation was refused. `Fx` and `Posting` carry their error's
/// message.
pub enum RevaluationError {
    AlreadyRevalued { month: String },
    Fx(String),
    PeriodClosed { year: i32 },
    Posting(String),
    Db(String),
}

/// The answer to a refused revaluation.
pub fn revaluation_error(e: RevaluationError) -> (r: AppError)
    ensures
        match e {
            RevaluationError::AlreadyRevalued { month } => r@ == ErrorView::Conflict(
                "FX revaluation for "@ + month@ + " has already been run for every eligible account"@,
            ),
            RevaluationError::Fx(m) => r@ == ErrorView::Validation(m@),
            RevaluationError::PeriodClosed { year } => r@ == ErrorView::Validation(
                "Period "@ + int_text(year as int) + " is closed. Cannot post revaluations into closed periods."@,
            ),
            RevaluationError::Posting(m) => r@ == ErrorView::Validation(m@),
            RevaluationError::Db(m) => r@ == ErrorView::Db(m@),
        },
{
    match e {
        RevaluationError::AlreadyRevalued { month } => {
            let a = cat("FX revaluation for ", month.as_str());
            AppError::Conflict(cat(a.as_str(), " has already been run for every eligible account"))
        },
        RevaluationError::Fx(m) => AppError::Validation(m),
        RevaluationError::PeriodClosed { year } => {
            let a = cat("Period ", chars_to_string(int_to_text(year as i128).as_slice()).as_str());
            AppError::Validation(cat(a.as_str(), " is closed. Cannot post revaluations into closed periods."))
        },
        RevaluationError::Posting(m) => AppError::Validation(m),
        RevaluationError::Db(m) => AppError::Db(m),
    }
}

/// The range of the gains report: when both ends are given, the start may
/// not come after the end.
pub fn check_report_range(from: Option<Date>, to: Option<Date>) -> (r: Result<(), AppError>)
    ensures
        (match (from, to) {
            (Some(f), Some(t)) => t.before(f),
            _ => false,
        }) ==> fails_validation(r, "from must be <= to"@),
        !(match (from, to) {
            (Some(f), Some(t)) => t.before(f),
            _ => false,
        }) ==> r is Ok,
{
    match (from, to) {
        (Some(f), Some(t)) => if date_before(t, f) {
            Err(validation("from must be <= to"))
        } else {
            Ok(())
        },
        _ => Ok(()),
    }
}

/// A month-end revaluation result of one account.
pub struct UnrealizedRow {
    pub period_month: Date,
    pub account_name: String,
    pub currency: String,
    pub fx_gain_loss: Amount,
}

/// A realized gain or loss on a settlement.
pub struct RealizedRow {
    pub txn_date: Date,
    pub description: String,
    pub gain: Amount,
    pub loss: Amount,
}

pub open spec fn unrealized_line(r: UnrealizedRow) -> Seq<char> {
    "unrealized,"@ + iso_date_text(r.period_month) + seq![','] + csv_escaped(r.account_name@) + seq![',']
        + r.currency@ + seq![','] + decimal_text(r.fx_gain_loss.mantissa as int, r.fx_gain_loss.scale as nat)
        + seq!['\n']
}

/// The net of a realized row, gain less loss, at the larger scale.
pub open spec fn realized_net(r: RealizedRow) -> Amount {
    exact_amount(r.gain.value() - r.loss.value(), max_scale(r.gain, r.loss))
}

pub open spec fn realized_line(r: RealizedRow) -> Seq<char> {
    let n = realized_net(r);
    "realized,"@ + iso_date_text(r.txn_date) + seq![','] + csv_escaped(r.description@) + ",USD,"@
        + decimal_text(n.mantissa as int, n.scale as nat) + seq!['\n']
}

pub open spec fn lines_text(ls: Seq<Seq<char>>) -> Seq<char>
    decreases ls.len(),
{
    if ls.len() == 0 {
        Seq::empty()
    } else {
        lines_text(ls.drop_last()) + ls.last()
    }
}

pub open spec fn realized_ok(r: RealizedRow) -> bool {
    r.gain.wf() && r.loss.wf() && representable_at(r.gain.value() - r.loss.value(), max_scale(r.gain, r.loss) as nat)
}

fn unrealized_chars(row: &UnrealizedRow) -> (r: Vec<char>)
    ensures
        r@ == unrealized_line(*row),
{
    let mut out = str_to_chars("unrealized,");
    push_chars(&mut out, &date_iso(row.period_month));
    out.push(',');
    push_chars(&mut out, &str_to_chars(csv_escape(row.account_name.as_str()).as_str()));
    out.push(',');
    push_chars(&mut out, &str_to_chars(row.currency.as_str()));
    out.push(',');
    push_chars(&mut out, &amount_text(row.fx_gain_loss));
    out.push('\n');
    assert(out@ =~= unrealized_line(*row));
    out
}

fn realized_chars(row: &RealizedRow) -> (r: Vec<char>)
    requires
        realized_ok(*row),
    ensures
        r@ == realized_line(*row),
{
    let net = match checked_sub(row.gain, row.loss) {
        Some(n) => n,
        None => Amount::zero(),
    };
    proof {
        lemma_exact_result(net, row.gain.value() - row.loss.value(), max_scale(row.gain, row.loss));
    }
    assert(net == realized_net(*row));
    let mut out = str_to_chars("realized,");
    push_chars(&mut out, &date_iso(row.txn_date));
    out.push(',');
    push_chars(&mut out, &str_to_chars(csv_escape(row.description.as_str()).as_str()));
    push_str(&mut out, ",USD,");
    push_chars(&mut out, &amount_text(net));
    out.push('\n');
    proof {
        reveal_strlit(",USD,");
    }
    assert(out@ =~= realized_line(*row));
    out
}

/// The CSV export of the gains report: a header, then a line per
/// unrealized result and a line per realized one (its gain less loss).
pub fn fx_gains_export_csv(unrealized: &Vec<UnrealizedRow>, realized: &Vec<RealizedRow>) -> (r: String)
    requires
        forall|i: int| 0 <= i < realized@.len() ==> realized_ok(#[trigger] realized@[i]),
    ensures
        r@ == "section,date,account,currency,gain_loss\n"@ + lines_text(
            unrealized@.map_values(|u: UnrealizedRow| unrealized_line(u)),
        ) + lines_text(realized@.map_values(|x: RealizedRow| realized_line(x))),
{
    let mut out = str_to_chars("section,date,account,currency,gain_loss\n");
    let ghost head = out@;
    let ghost us = unrealized@.map_values(|u: UnrealizedRow| unrealized_line(u));
    let ghost rs = realized@.map_values(|x: RealizedRow| realized_line(x));
    assert(us.subrange(0, 0) =~= Seq::<Seq<char>>::empty());
    for i in 0..unrealized.len()
        invariant
            us == unrealized@.map_values(|u: UnrealizedRow| unrealized_line(u)),
            out@ == head + lines_text(us.subrange(0, i as int)),
    {
        let ghost before = out@;
        push_chars(&mut out, &unrealized_chars(&unrealized[i]));
        assert(us.subrange(0, i + 1).drop_last() =~= us.subrange(0, i as int));
        assert(out@ =~= before + unrealized_line(unrealized@[i as int]));
    }
    assert(us.subrange(0, us.len() as int) =~= us);
    let ghost mid = out@;
    assert(rs.subrange(0, 0) =~= Seq::<Seq<char>>::empty());
    for i in 0..realized.len()
        invariant
            forall|j: int| 0 <= j < realized@.len() ==> realized_ok(#[trigger] realized@[j]),
            rs == realized@.map_values(|x: RealizedRow| realized_line(x)),
            out@ == mid + lines_text(rs.subrange(0, i as int)),
    {
        assert(realized_ok(realized@[i as int]));
        let ghost before = out@;
        push_chars(&mut out, &realized_chars(&realized[i]));
        assert(rs.subrange(0, i + 1).drop_last() =~= rs.subrange(0, i as int));
        assert(out@ =~= before + realized_line(realized@[i as int]));
    }
    assert(rs.subrange(0, rs.len() as int) =~= rs);
    chars_to_string(out.as_slice())
}

} // verus!
