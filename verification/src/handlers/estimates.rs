//! Estimates (quotes): the form read from its body, its checks, its line
//! items and total, and the refusal of a second conversion.
use vstd::prelude::*;
use crate::amount::{
    Amount, checked_add, decimal_parse, decimal_line_product, line_amount, parse_amount,
    exact_amount, representable_at, max_scale, lemma_exact_result,
};
use crate::date::{Date, chrono_parse_date, parse_date_with_format};
use crate::error::{AppError, ErrorView, fails_validation, validation};
use crate::form_body::{urlencoded_pairs, pair_views, parse_urlencoded};
use crate::handlers::auth_oidc::last_value;
use crate::text::{str_equal, trim_seq, trim_string, string_views};
use crate::uuid_text::{uuid_parsed, parse_uuid};

verus! {

/// An estimate as sent: the line fields repeat once per row.
pub struct NewEstimateForm {
    pub contact_id: String,
    pub invoice_date: String,
    pub due_date: String,
    pub description: Vec<String>,
    pub quantity: Vec<String>,
    pub unit_price: Vec<String>,
}

/// Every value sent under `key`, in order.
pub open spec fn values_of(pairs: Seq<(Seq<char>, Seq<char>)>, key: Seq<char>) -> Seq<Seq<char>>
    decreases pairs.len(),
{
    if pairs.len() == 0 {
        Seq::empty()
    } else if pairs.last().0 == key {
        values_of(pairs.drop_last(), key).push(pairs.last().1)
    } else {
        values_of(pairs.drop_last(), key)
    }
}

/// The estimate form read from its urlencoded body: a single field keeps
/// the last value sent, a line field every value; other fields are
/// ignored.
pub fn estimate_body(body: &str) -> (r: NewEstimateForm)
    ensures
        ({
            let pairs = urlencoded_pairs(body@);
            &&& r.contact_id@ == last_value(pairs, "contact_id"@)
            &&& r.invoice_date@ == last_value(pairs, "invoice_date"@)
            &&& r.due_date@ == last_value(pairs, "due_date"@)
            &&& string_views(r.description@) == values_of(pairs, "description"@)
            &&& string_views(r.quantity@) == values_of(pairs, "quantity"@)
            &&& string_views(r.unit_price@) == values_of(pairs, "unit_price"@)
        }),
{
    let pairs = parse_urlencoded(body);
    let ghost pv = pair_views(pairs@);
    let mut out = NewEstimateForm {
        contact_id: String::new(),
        invoice_date: String::new(),
        due_date: String::new(),
        description: Vec::new(),
        quantity: Vec::new(),
        unit_price: Vec::new(),
    };
    proof {
        reveal_strlit("contact_id");
        reveal_strlit("invoice_date");
        reveal_strlit("due_date");
        reveal_strlit("description");
        reveal_strlit("quantity");
        reveal_strlit("unit_price");
        assert(out.description@.map_values(|s: String| s@) =~= Seq::<Seq<char>>::empty());
        assert(out.quantity@.map_values(|s: String| s@) =~= Seq::<Seq<char>>::empty());
        assert(out.unit_price@.map_values(|s: String| s@) =~= Seq::<Seq<char>>::empty());
    }
    for i in 0..pairs.len()
        invariant
            pv == pair_views(pairs@),
            out.contact_id@ == last_value(pv.subrange(0, i as int), "contact_id"@),
            out.invoice_date@ == last_value(pv.subrange(0, i as int), "invoice_date"@),
            out.due_date@ == last_value(pv.subrange(0, i as int), "due_date"@),
            string_views(out.description@) == values_of(pv.subrange(0, i as int), "description"@),
            string_views(out.quantity@) == values_of(pv.subrange(0, i as int), "quantity"@),
            string_views(out.unit_price@) == values_of(pv.subrange(0, i as int), "unit_price"@),
    {
        proof {
            reveal_strlit("contact_id");
            reveal_strlit("invoice_date");
            reveal_strlit("due_date");
            reveal_strlit("description");
            reveal_strlit("quantity");
            reveal_strlit("unit_price");
            assert("contact_id"@.len() == 10 && "invoice_date"@.len() == 12 && "due_date"@.len() == 8);
            assert("description"@.len() == 11 && "quantity"@.len() == 8 && "unit_price"@.len() == 10);
            assert("contact_id"@[0] != "unit_price"@[0] && "due_date"@[0] != "quantity"@[0]);
        }
        let ghost pre = pv.subrange(0, i + 1);
        assert(pre.drop_last() =~= pv.subrange(0, i as int));
        assert(pre.last() == (pairs@[i as int].0@, pairs@[i as int].1@));
        let k = pairs[i].0.as_str();
        let v = pairs[i].1.clone();
        if str_equal(k, "contact_id") {
            out.contact_id = v;
        } else if str_equal(k, "invoice_date") {
            out.invoice_date = v;
        } else if str_equal(k, "due_date") {
            out.due_date = v;
        } else if str_equal(k, "description") {
            let ghost before = out.description@;
            out.description.push(v);
            assert(string_views(out.description@) =~= string_views(before).push(pre.last().1));
        } else if str_equal(k, "quantity") {
            let ghost before = out.quantity@;
            out.quantity.push(v);
            assert(string_views(out.quantity@) =~= string_views(before).push(pre.last().1));
        } else if str_equal(k, "unit_price") {
            let ghost before = out.unit_price@;
            out.unit_price.push(v);
            assert(string_views(out.unit_price@) =~= string_views(before).push(pre.last().1));
        }
    }
    assert(pv.subrange(0, pv.len() as int) =~= pv);
    out
}

/// The checked fields of an estimate other than its lines.
pub struct EstimateHeader {
    pub contact_id: u128,
    pub invoice_date: Date,
    pub due_date: Date,
}

/// The checks before the lines, in order: the contact is a UUID and both
/// dates are `YYYY-MM-DD`.
pub fn estimate_header(form: &NewEstimateForm) -> (r: Result<EstimateHeader, AppError>)
    ensures
        match uuid_parsed(form.contact_id@) {
            None => fails_validation(r, "Invalid contact"@),
            Some(c) => match chrono_parse_date(form.invoice_date@, "%Y-%m-%d"@) {
                Err(_) => fails_validation(r, "Invalid date"@),
                Ok((y, m, d)) => match chrono_parse_date(form.due_date@, "%Y-%m-%d"@) {
                    Err(_) => fails_validation(r, "Invalid due date"@),
                    Ok((y2, m2, d2)) => r matches Ok(h) && h.contact_id == c && h.invoice_date == (Date {
                        year: y,
                        month: m,
                        day: d,
                    }) && h.due_date == (Date { year: y2, month: m2, day: d2 }),
                },
            },
        },
{
    let contact_id = match parse_uuid(form.contact_id.as_str()) {
        Some(c) => c,
        None => {
            return Err(validation("Invalid contact"));
        },
    };
    let invoice_date = match parse_date_with_format(form.invoice_date.as_str(), "%Y-%m-%d") {
        Ok(d) => d,
        Err(_) => {
            return Err(validation("Invalid date"));
        },
    };
    let due_date = match parse_date_with_format(form.due_date.as_str(), "%Y-%m-%d") {
        Ok(d) => d,
        Err(_) => {
            return Err(validation("Invalid due date"));
        },
    };
    Ok(EstimateHeader { contact_id, invoice_date, due_date })
}

/// A line of an estimate: its trimmed description, quantity and price.
#[derive(Clone)]
pub struct EstimateLine {
    pub description: String,
    pub quantity: Amount,
    pub unit_price: Amount,
}

pub open spec fn estimate_line_view(l: EstimateLine) -> (Seq<char>, Amount, Amount) {
    (l.description@, l.quantity, l.unit_price)
}

/// The number of rows: the shortest of the three line fields.
pub open spec fn row_count(d: Seq<Seq<char>>, q: Seq<Seq<char>>, p: Seq<Seq<char>>) -> int {
    if d.len() <= q.len() && d.len() <= p.len() {
        d.len() as int
    } else if q.len() <= p.len() {
        q.len() as int
    } else {
        p.len() as int
    }
}

/// The first `n` rows read in order: a row with a blank description is
/// skipped, the first bad quantity or price ends the reading.
pub open spec fn estimate_items(d: Seq<Seq<char>>, q: Seq<Seq<char>>, p: Seq<Seq<char>>, n: int) -> Result<
    Seq<(Seq<char>, Amount, Amount)>,
    Seq<char>,
>
    decreases n,
{
    if n <= 0 {
        Ok(Seq::empty())
    } else {
        match estimate_items(d, q, p, n - 1) {
            Err(m) => Err(m),
            Ok(ls) => {
                let desc = trim_seq(d[n - 1]);
                if desc.len() == 0 {
                    Ok(ls)
                } else {
                    match decimal_parse(trim_seq(q[n - 1])) {
                        Err(_) => Err("Invalid quantity"@),
                        Ok((qm, qs)) => match decimal_parse(trim_seq(p[n - 1])) {
                            Err(_) => Err("Invalid unit price"@),
                            Ok((pm, ps)) => Ok(
                                ls.push((desc, Amount { mantissa: qm, scale: qs }, Amount { mantissa: pm, scale: ps })),
                            ),
                        },
                    }
                }
            },
        }
    }
}

proof fn lemma_items_fail_stays(d: Seq<Seq<char>>, q: Seq<Seq<char>>, p: Seq<Seq<char>>, k: int, n: int)
    requires
        0 <= k <= n,
        estimate_items(d, q, p, k) is Err,
    ensures
        estimate_items(d, q, p, n) == estimate_items(d, q, p, k),
    decreases n - k,
{
    if k < n {
        lemma_items_fail_stays(d, q, p, k + 1, n);
    }
}

/// The lines of an estimate (see `estimate_items`), which needs at least
/// one.
pub fn estimate_lines(form: &NewEstimateForm) -> (r: Result<Vec<EstimateLine>, AppError>)
    ensures
        ({
            let d = string_views(form.description@);
            let q = string_views(form.quantity@);
            let p = string_views(form.unit_price@);
            match estimate_items(d, q, p, row_count(d, q, p)) {
                Err(m) => fails_validation(r, m),
                Ok(ls) => if ls.len() == 0 {
                    fails_validation(r, "An estimate needs at least one line"@)
                } else {
                    r matches Ok(v) && v@.map_values(|l: EstimateLine| estimate_line_view(l)) == ls
                        && forall|i: int| 0 <= i < v@.len() ==> (#[trigger] v@[i]).quantity.wf()
                        && v@[i].unit_price.wf()
                },
            }
        }),
{
    let ghost d = string_views(form.description@);
    let ghost q = string_views(form.quantity@);
    let ghost p = string_views(form.unit_price@);
    let n = if form.description.len() <= form.quantity.len() && form.description.len() <= form.unit_price.len() {
        form.description.len()
    } else if form.quantity.len() <= form.unit_price.len() {
        form.quantity.len()
    } else {
        form.unit_price.len()
    };
    let mut out: Vec<EstimateLine> = Vec::new();
    assert(out@.map_values(|l: EstimateLine| estimate_line_view(l)) =~= Seq::<(Seq<char>, Amount, Amount)>::empty());
    for i in 0..n
        invariant
            n == row_count(d, q, p),
            n <= form.description@.len() && n <= form.quantity@.len() && n <= form.unit_price@.len(),
            d == string_views(form.description@),
            q == string_views(form.quantity@),
            p == string_views(form.unit_price@),
            estimate_items(d, q, p, i as int) == Ok::<Seq<(Seq<char>, Amount, Amount)>, Seq<char>>(
                out@.map_values(|l: EstimateLine| estimate_line_view(l)),
            ),
            forall|j: int| 0 <= j < out@.len() ==> (#[trigger] out@[j]).quantity.wf() && out@[j].unit_price.wf(),
    {
        let desc = trim_string(form.description[i].as_str());
        if !desc.as_str().is_empty() {
            let qa = match parse_amount(trim_string(form.quantity[i].as_str()).as_str()) {
                Ok(a) => a,
                Err(_) => {
                    proof {
                        lemma_items_fail_stays(d, q, p, i + 1, n as int);
                    }
                    return Err(validation("Invalid quantity"));
                },
            };
            let pa = match parse_amount(trim_string(form.unit_price[i].as_str()).as_str()) {
                Ok(a) => a,
                Err(_) => {
                    proof {
                        lemma_items_fail_stays(d, q, p, i + 1, n as int);
                    }
                    return Err(validation("Invalid unit price"));
                },
            };
            let ghost before = out@;
            out.push(EstimateLine { description: desc, quantity: qa, unit_price: pa });
            assert(out@.map_values(|l: EstimateLine| estimate_line_view(l)) =~= before.map_values(
                |l: EstimateLine| estimate_line_view(l),
            ).push(estimate_line_view(out@.last())));
        }
    }
    if out.len() == 0 {
        return Err(validation("An estimate needs at least one line"));
    }
    Ok(out)
}

/// The total of the lines: each quantity times price rounded to cents,
/// summed; `None` where a product overflows or a partial sum has no exact
/// representation.
pub open spec fn lines_total(ls: Seq<(Seq<char>, Amount, Amount)>) -> Option<Amount>
    decreases ls.len(),
{
    if ls.len() == 0 {
        Some(Amount { mantissa: 0, scale: 0 })
    } else {
        match lines_total(ls.drop_last()) {
            None => None,
            Some(t) => match decimal_line_product(ls.last().1, ls.last().2) {
                None => None,
                Some(a) => if representable_at(t.value() + a.value(), max_scale(t, a) as nat) {
                    Some(exact_amount(t.value() + a.value(), max_scale(t, a)))
                } else {
                    None
                },
            },
        }
    }
}

proof fn lemma_total_none_stays(ls: Seq<(Seq<char>, Amount, Amount)>, k: int)
    requires
        0 <= k <= ls.len(),
        lines_total(ls.subrange(0, k)) is None,
    ensures
        lines_total(ls) is None,
    decreases ls.len() - k,
{
    if k < ls.len() {
        assert(ls.subrange(0, k + 1).drop_last() =~= ls.subrange(0, k));
        lemma_total_none_stays(ls, k + 1);
    } else {
        assert(ls.subrange(0, k) =~= ls);
    }
}

/// The total of an estimate (see `lines_total`).
pub fn estimate_total(lines: &Vec<EstimateLine>) -> (r: Option<Amount>)
    requires
        forall|i: int| 0 <= i < lines@.len() ==> (#[trigger] lines@[i]).quantity.wf() && lines@[i].unit_price.wf(),
    ensures
        r == lines_total(lines@.map_values(|l: EstimateLine| estimate_line_view(l))),
        r matches Some(a) ==> a.wf(),
{
    let ghost ls = lines@.map_values(|l: EstimateLine| estimate_line_view(l));
    let mut total = Amount::zero();
    assert(ls.subrange(0, 0) =~= Seq::<(Seq<char>, Amount, Amount)>::empty());
    for i in 0..lines.len()
        invariant
            ls == lines@.map_values(|l: EstimateLine| estimate_line_view(l)),
            forall|j: int| 0 <= j < lines@.len() ==> (#[trigger] lines@[j]).quantity.wf() && lines@[j].unit_price.wf(),
            total.wf(),
            lines_total(ls.subrange(0, i as int)) == Some(total),
    {
        let ghost pre = ls.subrange(0, i + 1);
        assert(pre.drop_last() =~= ls.subrange(0, i as int));
        assert(pre.last() == estimate_line_view(lines@[i as int]));
        let a = match line_amount(lines[i].quantity, lines[i].unit_price) {
            Some(a) => a,
            None => {
                proof {
                    lemma_total_none_stays(ls, i + 1);
                }
                return None;
            },
        };
        match checked_add(total, a) {
            Some(t) => {
                proof {
                    lemma_exact_result(t, total.value() + a.value(), max_scale(total, a));
                }
                total = t;
            },
            None => {
                proof {
                    lemma_total_none_stays(ls, i + 1);
                }
                return None;
            },
        }
    }
    assert(ls.subrange(0, ls.len() as int) =~= ls);
    Some(total)
}

/// Converting an estimate claims it first; when no estimate could be
/// claimed it was converted or declined before.
pub fn convert<T>(claimed: Option<T>) -> (r: Result<T, AppError>)
    ensures
        match claimed {
            Some(x) => r == Ok::<T, AppError>(x),
            None => r matches Err(e) && e@ == ErrorView::Conflict("estimate already converted or declined"@),
        },
{
    match claimed {
        Some(x) => Ok(x),
        None => Err(AppError::Conflict("estimate already converted or declined".to_string())),
    }
}

/// An estimate can be claimed for conversion while it is an estimate
/// that has been neither converted nor declined.
pub open spec fn claimable(doc_kind: Seq<char>, status: Seq<char>) -> bool {
    doc_kind == "estimate"@ && status != "converted"@ && status != "declined"@
}

/// Claiming an estimate for conversion: the status it is left with
/// (`converted`), or `None` when it cannot be claimed.
pub open spec fn claim_outcome(doc_kind: Seq<char>, status: Seq<char>) -> Option<Seq<char>> {
    if claimable(doc_kind, status) {
        Some("converted"@)
    } else {
        None
    }
}

/// The claim that precedes a conversion: only one caller turns a
/// claimable estimate into a converted one.
pub fn claim_estimate(doc_kind: &str, status: &str) -> (r: Option<String>)
    ensures
        match (r, claim_outcome(doc_kind@, status@)) {
            (Some(a), Some(b)) => a@ == b,
            (None, None) => true,
            _ => false,
        },
{
    if str_equal(doc_kind, "estimate") && !str_equal(status, "converted") && !str_equal(
        status,
        "declined",
    ) {
        Some("converted".to_string())
    } else {
        None
    }
}

/// An estimate converts to an invoice only once: after a claim has gone
/// through, the status it leaves cannot be claimed again, so a second
/// conversion is refused (`convert` of no claim).
pub proof fn estimate_converts_once(doc_kind: Seq<char>, status: Seq<char>)
    requires
        claim_outcome(doc_kind, status) is Some,
    ensures
        claim_outcome(doc_kind, claim_outcome(doc_kind, status)->0) is None,
{
}

} // verus!
