//! Invoices: the checks of a new invoice, its line items (read from
//! `lines[N][field]` groups) and its total.
use vstd::prelude::*;
use crate::amount::{
    Amount, checked_add, decimal_parse, decimal_line_product, line_amount, parse_amount,
    representable_at, max_scale, mantissa_at, lemma_exact_result,
};
use crate::date::{Date, chrono_parse_date, parse_date_with_format};
use crate::error::{AppError, ErrorView, fails_validation, validation};
use crate::form_body::{line_numbers, line_field, pair_views, insert_line_number, get_line_field, parse_line_key};
use crate::text::{cat, str_equal, trim_seq, trim_string};
use crate::uuid_text::{uuid_parsed, parse_uuid};

verus! {

/// The invoice form; `extra` holds its other fields (the line items'
/// `lines[N][description|quantity|unit_price]`), each key once.
pub struct NewInvoiceForm {
    pub contact_id: String,
    pub kind: String,
    pub invoice_number: Option<String>,
    pub invoice_date: String,
    pub due_date: String,
    pub extra: Vec<(String, String)>,
}

/// The three fields of a line item as sent.
#[derive(Debug, Clone)]
pub struct InvoiceLineInput {
    pub description: String,
    pub quantity: String,
    pub unit_price: String,
}

/// The line items of a form, in line-number order.
pub fn invoice_line_inputs(extra: &Vec<(String, String)>) -> (r: Vec<InvoiceLineInput>)
    ensures
        ({
            let pairs = pair_views(extra@);
            let idxs = line_numbers(pairs);
            &&& r@.len() == idxs.len()
            &&& forall|k: int|
                0 <= k < idxs.len() ==> (#[trigger] r@[k]).description@ == line_field(
                    pairs,
                    idxs[k],
                    "description"@,
                ) && r@[k].quantity@ == line_field(pairs, idxs[k], "quantity"@) && r@[k].unit_price@
                    == line_field(pairs, idxs[k], "unit_price"@)
        }),
{
    let ghost pv = pair_views(extra@);
    let mut idxs: Vec<usize> = Vec::new();
    for i in 0..extra.len()
        invariant
            pv == pair_views(extra@),
            idxs@ == line_numbers(pv.subrange(0, i as int)),
    {
        let ghost pre = pv.subrange(0, i + 1);
        assert(pre.drop_last() =~= pv.subrange(0, i as int));
        assert(pre.last() == (extra@[i as int].0@, extra@[i as int].1@));
        match parse_line_key(extra[i].0.as_str()) {
            Some((j, _)) => {
                insert_line_number(&mut idxs, j);
            },
            None => {},
        }
    }
    assert(pv.subrange(0, pv.len() as int) =~= pv);
    let mut out: Vec<InvoiceLineInput> = Vec::new();
    for k in 0..idxs.len()
        invariant
            pv == pair_views(extra@),
            idxs@ == line_numbers(pv),
            out@.len() == k,
            forall|j: int|
                0 <= j < k ==> (#[trigger] out@[j]).description@ == line_field(pv, idxs@[j], "description"@)
                    && out@[j].quantity@ == line_field(pv, idxs@[j], "quantity"@)
                    && out@[j].unit_price@ == line_field(pv, idxs@[j], "unit_price"@),
    {
        let item = InvoiceLineInput {
            description: get_line_field(extra, idxs[k], "description"),
            quantity: get_line_field(extra, idxs[k], "quantity"),
            unit_price: get_line_field(extra, idxs[k], "unit_price"),
        };
        out.push(item);
    }
    out
}

/// A line item with its amount.
#[derive(Debug, Clone)]
pub struct InvoiceLine {
    pub description: String,
    pub quantity: Amount,
    pub unit_price: Amount,
    pub amount: Amount,
}

/// What a line item's fields parse to: nothing for a blank description,
/// else the trimmed description, quantity and unit price.
pub open spec fn parsed_item(i: InvoiceLineInput) -> Result<Option<(Seq<char>, Amount, Amount)>, Seq<char>> {
    let d = trim_seq(i.description@);
    if d.len() == 0 {
        Ok(None)
    } else {
        match decimal_parse(trim_seq(i.quantity@)) {
            Err(_) => Err("Invalid line quantity"@),
            Ok((qm, qs)) => match decimal_parse(trim_seq(i.unit_price@)) {
                Err(_) => Err("Invalid line unit price"@),
                Ok((pm, ps)) => Ok(
                    Some((d, Amount { mantissa: qm, scale: qs }, Amount { mantissa: pm, scale: ps })),
                ),
            },
        }
    }
}

/// Where reading the line items stands.
pub enum ItemsState {
    Read { lines: Seq<(Seq<char>, Amount, Amount, Amount)>, total: Amount },
    Failed(Seq<char>),
    /// A product or the running total has no exact representation.
    Overflow,
}

/// The line items read in order: blank ones skipped, the first bad one
/// ends the reading, each amount must be positive and is added to the
/// total.
pub open spec fn items_fold(items: Seq<InvoiceLineInput>) -> ItemsState
    decreases items.len(),
{
    if items.len() == 0 {
        ItemsState::Read { lines: Seq::empty(), total: Amount { mantissa: 0, scale: 0 } }
    } else {
        match items_fold(items.drop_last()) {
            ItemsState::Read { lines, total } => match parsed_item(items.last()) {
                Err(m) => ItemsState::Failed(m),
                Ok(None) => ItemsState::Read { lines, total },
                Ok(Some((d, q, p))) => match decimal_line_product(q, p) {
                    None => ItemsState::Overflow,
                    Some(a) => if a.value() <= 0 {
                        ItemsState::Failed(
                            "Line \""@ + d + "\" needs a positive quantity and unit price"@,
                        )
                    } else if representable_at(total.value() + a.value(), max_scale(total, a) as nat) {
                        ItemsState::Read {
                            lines: lines.push((d, q, p, a)),
                            total: Amount {
                                mantissa: mantissa_at(total.value() + a.value(), max_scale(total, a) as nat) as i128,
                                scale: max_scale(total, a),
                            },
                        }
                    } else {
                        ItemsState::Overflow
                    },
                },
            },
            other => other,
        }
    }
}

/// Why an invoice is not created.
pub enum InvoiceRefusal {
    /// The request fails.
    Error(AppError),
    /// The form is shown again with this message.
    Form(String),
}

pub open spec fn line_view(l: InvoiceLine) -> (Seq<char>, Amount, Amount, Amount) {
    (l.description@, l.quantity, l.unit_price, l.amount)
}

/// `r` is what reading `items` gives: the lines and their total when
/// some line has a description; the form sent back when none has; the
/// request failing with the first bad line's message.
pub open spec fn lines_result(
    r: Result<(Vec<InvoiceLine>, Amount), InvoiceRefusal>,
    items: Seq<InvoiceLineInput>,
) -> bool {
    match (r, items_fold(items)) {
        (Ok((ls, total)), ItemsState::Read { lines, total: t }) => ls@.map_values(
            |l: InvoiceLine| line_view(l),
        ) == lines && total == t && lines.len() > 0,
        (Err(InvoiceRefusal::Form(m)), ItemsState::Read { lines, total: _ }) => lines.len() == 0
            && m@ == "Add at least one line item with a description, quantity, and unit price."@,
        (Err(InvoiceRefusal::Error(e)), ItemsState::Failed(m)) => e@ == ErrorView::Validation(m),
        _ => false,
    }
}

/// Reads one line item: the first state change of `items_fold`.
fn read_item(item: &InvoiceLineInput) -> (r: Result<Option<(String, Amount, Amount)>, AppError>)
    ensures
        match (r, parsed_item(*item)) {
            (Ok(None), Ok(None)) => true,
            (Ok(Some((d, q, p))), Ok(Some((sd, sq, sp)))) => d@ == sd && q == sq && p == sp && q.wf()
                && p.wf(),
            (Err(e), Err(m)) => e@ == ErrorView::Validation(m),
            _ => false,
        },
{
    let d = trim_string(item.description.as_str());
    if d.as_str().is_empty() {
        return Ok(None);
    }
    let q = match parse_amount(trim_string(item.quantity.as_str()).as_str()) {
        Ok(a) => a,
        Err(_) => {
            return Err(validation("Invalid line quantity"));
        },
    };
    let p = match parse_amount(trim_string(item.unit_price.as_str()).as_str()) {
        Ok(a) => a,
        Err(_) => {
            return Err(validation("Invalid line unit price"));
        },
    };
    Ok(Some((d, q, p)))
}

/// The line items of an invoice and its total, or why they are refused:
/// a bad quantity or price, or a line that is not positive, fails the
/// request; no line with a description sends the form back.
pub fn invoice_lines(items: &Vec<InvoiceLineInput>) -> (r: Result<(Vec<InvoiceLine>, Amount), InvoiceRefusal>)
    requires
        !(items_fold(items@) is Overflow),
    ensures
        lines_result(r, items@),
{
    let mut out: Vec<InvoiceLine> = Vec::new();
    let mut total = Amount::zero();
    assert(items@.subrange(0, 0) =~= Seq::<InvoiceLineInput>::empty());
    assert(out@.map_values(|l: InvoiceLine| line_view(l)) =~= Seq::<(Seq<char>, Amount, Amount, Amount)>::empty());
    for i in 0..items.len()
        invariant
            !(items_fold(items@) is Overflow),
            total.wf(),
            items_fold(items@.subrange(0, i as int)) == (ItemsState::Read {
                lines: out@.map_values(|l: InvoiceLine| line_view(l)),
                total,
            }),
    {
        assert(items@.subrange(0, i + 1).drop_last() =~= items@.subrange(0, i as int));
        proof {
            lemma_fold_prefix(items@, i + 1);
        }
        match read_item(&items[i]) {
            Err(e) => {
                proof {
                    lemma_fold_fail_stays(items@, i + 1);
                }
                return Err(InvoiceRefusal::Error(e));
            },
            Ok(None) => {},
            Ok(Some((d, q, p))) => {
                let a = match line_amount(q, p) {
                    Some(a) => a,
                    None => {
                        proof {
                            lemma_fold_overflow_stays(items@, i + 1);
                        }
                        return Err(InvoiceRefusal::Error(validation("overflow")));
                    },
                };
                if !a.is_positive() {
                    let m1 = cat("Line \"", d.as_str());
                    proof {
                        lemma_fold_fail_stays(items@, i + 1);
                    }
                    return Err(
                        InvoiceRefusal::Error(
                            AppError::Validation(cat(m1.as_str(), "\" needs a positive quantity and unit price")),
                        ),
                    );
                }
                let t = match checked_add(total, a) {
                    Some(t) => t,
                    None => {
                        proof {
                            lemma_fold_overflow_stays(items@, i + 1);
                        }
                        return Err(InvoiceRefusal::Error(validation("overflow")));
                    },
                };
                proof {
                    lemma_exact_result(t, total.value() + a.value(), max_scale(total, a));
                }
                let ghost before = out@;
                out.push(InvoiceLine { description: d, quantity: q, unit_price: p, amount: a });
                assert(out@.map_values(|l: InvoiceLine| line_view(l)) =~= before.map_values(
                    |l: InvoiceLine| line_view(l),
                ).push(line_view(out@.last())));
                total = t;
            },
        }
    }
    assert(items@.subrange(0, items@.len() as int) =~= items@);
    if out.len() == 0 {
        return Err(
            InvoiceRefusal::Form(
                "Add at least one line item with a description, quantity, and unit price.".to_string(),
            ),
        );
    }
    Ok((out, total))
}

proof fn lemma_fold_prefix(items: Seq<InvoiceLineInput>, k: int)
    requires
        0 <= k <= items.len(),
        !(items_fold(items) is Overflow),
    ensures
        !(items_fold(items.subrange(0, k)) is Overflow),
    decreases items.len() - k,
{
    if k < items.len() {
        lemma_fold_prefix(items, k + 1);
        assert(items.subrange(0, k + 1).drop_last() =~= items.subrange(0, k));
    } else {
        assert(items.subrange(0, k) =~= items);
    }
}

proof fn lemma_fold_fail_stays(items: Seq<InvoiceLineInput>, k: int)
    requires
        0 <= k <= items.len(),
        items_fold(items.subrange(0, k)) is Failed,
    ensures
        items_fold(items) == items_fold(items.subrange(0, k)),
    decreases items.len() - k,
{
    if k < items.len() {
        assert(items.subrange(0, k + 1).drop_last() =~= items.subrange(0, k));
        lemma_fold_fail_stays(items, k + 1);
    } else {
        assert(items.subrange(0, k) =~= items);
    }
}

proof fn lemma_fold_overflow_stays(items: Seq<InvoiceLineInput>, k: int)
    requires
        0 <= k <= items.len(),
        items_fold(items.subrange(0, k)) is Overflow,
    ensures
        items_fold(items) is Overflow,
    decreases items.len() - k,
{
    if k < items.len() {
        assert(items.subrange(0, k + 1).drop_last() =~= items.subrange(0, k));
        lemma_fold_overflow_stays(items, k + 1);
    } else {
        assert(items.subrange(0, k) =~= items);
    }
}

/// Whether the line items can be read without an overflow (what
/// `invoice_lines` needs before it is called).
pub fn items_fit(items: &Vec<InvoiceLineInput>) -> (r: bool)
    ensures
        r == !(items_fold(items@) is Overflow),
{
    let mut total = Amount::zero();
    assert(items@.subrange(0, 0) =~= Seq::<InvoiceLineInput>::empty());
    for i in 0..items.len()
        invariant
            total.wf(),
            items_fold(items@.subrange(0, i as int)) is Read,
            items_fold(items@.subrange(0, i as int)) matches ItemsState::Read { lines: _, total: t } && t == total,
    {
        assert(items@.subrange(0, i + 1).drop_last() =~= items@.subrange(0, i as int));
        match read_item(&items[i]) {
            Err(_) => {
                proof {
                    lemma_fold_fail_stays(items@, i + 1);
                }
                return true;
            },
            Ok(None) => {},
            Ok(Some((_, q, p))) => {
                let a = match line_amount(q, p) {
                    Some(a) => a,
                    None => {
                        proof {
                            lemma_fold_overflow_stays(items@, i + 1);
                        }
                        return false;
                    },
                };
                if !a.is_positive() {
                    proof {
                        lemma_fold_fail_stays(items@, i + 1);
                    }
                    return true;
                }
                match checked_add(total, a) {
                    Some(t) => {
                        proof {
                            lemma_exact_result(t, total.value() + a.value(), max_scale(total, a));
                        }
                        total = t;
                    },
                    None => {
                        proof {
                            lemma_fold_overflow_stays(items@, i + 1);
                        }
                        return false;
                    },
                }
            },
        }
    }
    assert(items@.subrange(0, items@.len() as int) =~= items@);
    true
}

/// The line items of an invoice when they can be read without an
/// overflow (`None` otherwise), as `invoice_lines` reads them.
pub fn invoice_lines_checked(items: &Vec<InvoiceLineInput>) -> (r: Option<Result<(Vec<InvoiceLine>, Amount), InvoiceRefusal>>)
    ensures
        (items_fold(items@) is Overflow) <==> r is None,
        r matches Some(x) ==> lines_result(x, items@),
{
    if items_fit(items) {
        Some(invoice_lines(items))
    } else {
        None
    }
}

/// The checked fields of an invoice other than its lines.
pub struct InvoiceHeader {
    pub kind: String,
    pub contact_id: u128,
    pub invoice_number: Option<String>,
    pub invoice_date: Date,
    pub due_date: Date,
}

/// The checks of an invoice before its lines, in order: the kind is
/// `receivable` or `payable`, the contact is a UUID, both dates are
/// `YYYY-MM-DD`. An empty invoice number counts as none.
pub fn invoice_header(form: &NewInvoiceForm) -> (r: Result<InvoiceHeader, AppError>)
    ensures
        !(form.kind@ == "receivable"@ || form.kind@ == "payable"@) ==> fails_validation(r, "Invalid invoice kind"@),
        (form.kind@ == "receivable"@ || form.kind@ == "payable"@) ==> match uuid_parsed(form.contact_id@) {
            None => fails_validation(r, "Invalid contact"@),
            Some(c) => match chrono_parse_date(form.invoice_date@, "%Y-%m-%d"@) {
                Err(_) => fails_validation(r, "Invalid invoice date"@),
                Ok((y, m, d)) => match chrono_parse_date(form.due_date@, "%Y-%m-%d"@) {
                    Err(_) => fails_validation(r, "Invalid due date"@),
                    Ok((y2, m2, d2)) => r matches Ok(h) && h.kind@ == form.kind@ && h.contact_id == c
                        && h.invoice_date == (Date { year: y, month: m, day: d })
                        && h.due_date == (Date { year: y2, month: m2, day: d2 })
                        && (match h.invoice_number {
                        Some(n) => form.invoice_number matches Some(f) && f@ == n@ && n@.len() > 0,
                        None => !(form.invoice_number matches Some(f) && f@.len() > 0),
                    }),
                },
            },
        },
{
    if !(str_equal(form.kind.as_str(), "receivable") || str_equal(form.kind.as_str(), "payable")) {
        return Err(validation("Invalid invoice kind"));
    }
    let contact_id = match parse_uuid(form.contact_id.as_str()) {
        Some(c) => c,
        None => {
            return Err(validation("Invalid contact"));
        },
    };
    let invoice_date = match parse_date_with_format(form.invoice_date.as_str(), "%Y-%m-%d") {
        Ok(d) => d,
        Err(_) => {
            return Err(validation("Invalid invoice date"));
        },
    };
    let due_date = match parse_date_with_format(form.due_date.as_str(), "%Y-%m-%d") {
        Ok(d) => d,
        Err(_) => {
            return Err(validation("Invalid due date"));
        },
    };
    let invoice_number = match &form.invoice_number {
        Some(n) => if n.as_str().is_empty() {
            None
        } else {
            Some(n.clone())
        },
        None => None,
    };
    Ok(InvoiceHeader { kind: form.kind.clone(), contact_id, invoice_number, invoice_date, due_date })
}

} // verus!
