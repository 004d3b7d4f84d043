//! Payments received from or made to contacts: the form's checks, which
//! accounts the payment's entry uses, the entry itself, and the status an
//! invoice takes once a payment is applied to it.
use vstd::prelude::*;
use crate::amount::{Amount, compare_amounts, decimal_parse, parse_amount, parsed_amount};
use crate::date::{Date, chrono_parse_date, parse_date_with_format, parsed_date};
use crate::error::{AppError, fails_validation, validation};
use crate::journal::{Posting, balanced, lemma_single_totals, lemma_totals_concat};
use crate::text::{cat, str_equal, one_of};
use crate::uuid_text::{parse_uuid, uuid_parsed};

verus! {

pub struct NewPaymentForm {
    pub contact_id: String,
    pub invoice_id: String,
    pub amount: String,
    pub payment_date: String,
    pub payment_method: String,
    pub reference: Option<String>,
    pub kind: String,
}

/// A checked payment.
pub struct PaymentInput {
    pub amount: Amount,
    pub payment_date: Date,
    pub contact_id: Option<u128>,
    pub invoice_id: Option<u128>,
    pub received: bool,
    pub kind: String,
    pub payment_method: String,
    pub reference: Option<String>,
}

pub open spec fn payment_kinds() -> Seq<Seq<char>> {
    seq!["received"@, "made"@]
}

pub open spec fn payment_methods() -> Seq<Seq<char>> {
    seq!["cash"@, "check"@, "bank_transfer"@, "credit_card"@, "other"@]
}

/// An optional id field: empty means none, anything else must parse.
pub open spec fn optional_id(s: Seq<char>) -> Option<Option<u128>> {
    if s.len() == 0 {
        Some(None)
    } else {
        match uuid_parsed(s) {
            Some(v) => Some(Some(v)),
            None => None,
        }
    }
}

/// A reference that is present and not empty.
pub open spec fn nonempty_reference(r: Option<String>) -> Option<Seq<char>> {
    match r {
        Some(t) => if t@.len() > 0 {
            Some(t@)
        } else {
            None
        },
        None => None,
    }
}

fn parse_optional_id(s: &str) -> (r: Option<Option<u128>>)
    ensures
        r == optional_id(s@),
{
    if s.is_empty() {
        Some(None)
    } else {
        match parse_uuid(s) {
            Some(v) => Some(Some(v)),
            None => None,
        }
    }
}

fn is_kind(s: &str) -> (r: bool)
    ensures
        r == one_of(s@, payment_kinds()),
{
    let r = str_equal(s, "received") || str_equal(s, "made");
    proof {
        if one_of(s@, payment_kinds()) {
            let i = choose|i: int| 0 <= i < payment_kinds().len() && payment_kinds()[i] == s@;
            assert(i == 0 || i == 1);
        }
        if r {
            if s@ == "received"@ {
                assert(payment_kinds()[0] == s@);
            } else {
                assert(payment_kinds()[1] == s@);
            }
        }
    }
    r
}

fn is_method(s: &str) -> (r: bool)
    ensures
        r == one_of(s@, payment_methods()),
{
    let r = str_equal(s, "cash") || str_equal(s, "check") || str_equal(s, "bank_transfer")
        || str_equal(s, "credit_card") || str_equal(s, "other");
    proof {
        let ms = payment_methods();
        if one_of(s@, ms) {
            let i = choose|i: int| 0 <= i < ms.len() && ms[i] == s@;
            assert(0 <= i < 5);
        }
        if r {
            if s@ == "cash"@ {
                assert(ms[0] == s@);
            } else if s@ == "check"@ {
                assert(ms[1] == s@);
            } else if s@ == "bank_transfer"@ {
                assert(ms[2] == s@);
            } else if s@ == "credit_card"@ {
                assert(ms[3] == s@);
            } else {
                assert(ms[4] == s@);
            }
        }
    }
    r
}

/// The fields of a payment form as read: the amount and date (`None`
/// where they do not parse) and the contact and invoice ids (`None` where
/// they are neither empty nor a UUID, `Some(None)` where empty).
pub struct ParsedPayment {
    pub amount: Option<Amount>,
    pub payment_date: Option<Date>,
    pub contact_id: Option<Option<u128>>,
    pub invoice_id: Option<Option<u128>>,
}

/// `r` is what the checks of a payment give on fields read as `p`: in
/// order, the amount parses and is positive, the date parses, the contact
/// and invoice ids are valid, the kind is `received` or `made`, the method
/// is one of the known methods. An empty reference counts as none.
pub open spec fn payment_result(r: Result<PaymentInput, AppError>, p: ParsedPayment, form: NewPaymentForm) -> bool {
    match p.amount {
        None => fails_validation(r, "Invalid amount"@),
        Some(amount) => if amount.value() <= 0 {
            fails_validation(r, "Amount must be positive"@)
        } else {
            match p.payment_date {
                None => fails_validation(r, "Invalid date"@),
                Some(date) => match p.contact_id {
                    None => fails_validation(r, "Invalid contact"@),
                    Some(contact) => match p.invoice_id {
                        None => fails_validation(r, "Invalid invoice"@),
                        Some(invoice) => if !one_of(form.kind@, payment_kinds()) {
                            fails_validation(r, "Invalid kind"@)
                        } else if !one_of(form.payment_method@, payment_methods()) {
                            fails_validation(r, "Invalid payment method"@)
                        } else {
                            r matches Ok(q) && q.amount == amount && q.payment_date == date
                                && q.contact_id == contact && q.invoice_id == invoice && q.kind@
                                == form.kind@ && q.received == (form.kind@ == "received"@)
                                && q.payment_method@ == form.payment_method@ && (match q.reference {
                                Some(t) => nonempty_reference(form.reference) == Some(t@),
                                None => nonempty_reference(form.reference) is None,
                            })
                        },
                    },
                },
            }
        },
    }
}

/// The checks of a payment on its fields as read (see `payment_result`).
pub fn payment_from_parsed(p: &ParsedPayment, form: &NewPaymentForm) -> (r: Result<PaymentInput, AppError>)
    requires
        p.amount matches Some(a) ==> a.wf(),
    ensures
        payment_result(r, *p, *form),
{
    let amount = match p.amount {
        Some(a) => a,
        None => {
            return Err(validation("Invalid amount"));
        },
    };
    if !amount.is_positive() {
        return Err(validation("Amount must be positive"));
    }
    let payment_date = match p.payment_date {
        Some(d) => d,
        None => {
            return Err(validation("Invalid date"));
        },
    };
    let contact_id = match p.contact_id {
        Some(c) => c,
        None => {
            return Err(validation("Invalid contact"));
        },
    };
    let invoice_id = match p.invoice_id {
        Some(c) => c,
        None => {
            return Err(validation("Invalid invoice"));
        },
    };
    if !is_kind(form.kind.as_str()) {
        return Err(validation("Invalid kind"));
    }
    if !is_method(form.payment_method.as_str()) {
        return Err(validation("Invalid payment method"));
    }
    let reference = match &form.reference {
        Some(t) => if t.as_str().is_empty() {
            None
        } else {
            Some(t.clone())
        },
        None => None,
    };
    Ok(PaymentInput {
        amount,
        payment_date,
        contact_id,
        invoice_id,
        received: str_equal(form.kind.as_str(), "received"),
        kind: form.kind.clone(),
        payment_method: form.payment_method.clone(),
        reference,
    })
}

/// The checks of a new payment form: its fields are read (amount,
/// `YYYY-MM-DD` date, optional UUIDs) and then checked as
/// `payment_result` says.
pub fn validate_payment(form: &NewPaymentForm) -> (r: Result<PaymentInput, AppError>)
    ensures
        payment_result(
            r,
            ParsedPayment {
                amount: parsed_amount(form.amount@),
                payment_date: parsed_date(form.payment_date@, "%Y-%m-%d"@),
                contact_id: optional_id(form.contact_id@),
                invoice_id: optional_id(form.invoice_id@),
            },
            *form,
        ),
{
    let amount = match parse_amount(form.amount.as_str()) {
        Ok(a) => Some(a),
        Err(_) => None,
    };
    let payment_date = match parse_date_with_format(form.payment_date.as_str(), "%Y-%m-%d") {
        Ok(d) => Some(d),
        Err(_) => None,
    };
    let p = ParsedPayment {
        amount,
        payment_date,
        contact_id: parse_optional_id(form.contact_id.as_str()),
        invoice_id: parse_optional_id(form.invoice_id.as_str()),
    };
    payment_from_parsed(&p, form)
}

/// The description of a payment's transaction: `Payment <kind> - <method>`.
pub fn payment_description(kind: &str, method: &str) -> (r: String)
    ensures
        r@ == "Payment "@ + kind@ + " - "@ + method@,
{
    let a = cat("Payment ", kind);
    let b = cat(a.as_str(), " - ");
    cat(b.as_str(), method)
}

/// An account a payment's entry is booked to, before it is looked up.
#[derive(Debug, Clone, Copy, PartialEq, Eq, Structural)]
pub enum AccountRef {
    /// The ledger's cash asset account.
    Cash,
    /// The liability account named Accounts Payable.
    AccountsPayable,
    /// The asset account named Accounts Receivable.
    AccountsReceivable,
    /// The first revenue account.
    Revenue,
}

/// Which accounts a payment uses, as (cash side, other side): for an
/// invoice to be received, cash and receivables; for any other invoice,
/// payables and cash; without an invoice, cash and revenue.
pub open spec fn payment_accounts_spec(invoice_kind: Option<Seq<char>>) -> (AccountRef, AccountRef) {
    match invoice_kind {
        Some(k) => if k == "receivable"@ {
            (AccountRef::Cash, AccountRef::AccountsReceivable)
        } else {
            (AccountRef::AccountsPayable, AccountRef::Cash)
        },
        None => (AccountRef::Cash, AccountRef::Revenue),
    }
}

pub fn payment_accounts(invoice_kind: Option<&str>) -> (r: (AccountRef, AccountRef))
    ensures
        r == payment_accounts_spec(
            match invoice_kind {
                Some(k) => Some(k@),
                None => None,
            },
        ),
{
    match invoice_kind {
        Some(k) => if str_equal(k, "receivable") {
            (AccountRef::Cash, AccountRef::AccountsReceivable)
        } else {
            (AccountRef::AccountsPayable, AccountRef::Cash)
        },
        None => (AccountRef::Cash, AccountRef::Revenue),
    }
}

/// The payment's entry: a received payment debits the cash side and
/// credits the other; a payment made does the reverse.
pub fn payment_postings(received: bool, cash_account: u128, contra_account: u128, amount: Amount) -> (r: Vec<Posting>)
    ensures
        r@ == (if received {
            seq![
                Posting { account: cash_account, amount, debit: true },
                Posting { account: contra_account, amount, debit: false },
            ]
        } else {
            seq![
                Posting { account: contra_account, amount, debit: true },
                Posting { account: cash_account, amount, debit: false },
            ]
        }),
        balanced(r@),
{
    let (debit_account, credit_account) = if received {
        (cash_account, contra_account)
    } else {
        (contra_account, cash_account)
    };
    let mut r: Vec<Posting> = Vec::new();
    r.push(Posting::debit(debit_account, amount));
    r.push(Posting::credit(credit_account, amount));
    proof {
        let a = Posting { account: debit_account, amount, debit: true };
        let b = Posting { account: credit_account, amount, debit: false };
        assert(r@ =~= seq![a] + seq![b]);
        lemma_single_totals(a);
        lemma_single_totals(b);
        lemma_totals_concat(seq![a], seq![b]);
    }
    r
}

/// The status of an invoice once payments reach `paid`: `paid` when they
/// cover its total, `partial` otherwise.
pub open spec fn invoice_status_spec(total: Amount, paid: Amount) -> Seq<char> {
    if paid.value() >= total.value() {
        "paid"@
    } else {
        "partial"@
    }
}

pub fn invoice_status_after_payment(total: Amount, paid: Amount) -> (r: &'static str)
    requires
        total.wf(),
        paid.wf(),
    ensures
        r@ == invoice_status_spec(total, paid),
{
    if compare_amounts(paid, total) >= 0 {
        "paid"
    } else {
        "partial"
    }
}

/// An invoice is paid exactly when what has been paid reaches its total:
/// the status after a payment is `paid` when the amount paid is at least
/// the total (an exact full payment included), and `partial` only when it
/// is strictly below.
pub proof fn invoice_paid_when_total_reached(total: Amount, paid: Amount)
    ensures
        paid.value() >= total.value() ==> invoice_status_spec(total, paid) == "paid"@,
        paid.value() < total.value() ==> invoice_status_spec(total, paid) == "partial"@,
        invoice_status_spec(total, paid) == "paid"@ <==> paid.value() >= total.value(),
{
    reveal_strlit("paid");
    reveal_strlit("partial");
    assert("paid"@.len() != "partial"@.len());
}

/// The invoice a payment is applied to, from the request's query.
pub fn apply_invoice_id(invoice_id: Option<&str>) -> (r: Result<u128, AppError>)
    ensures
        invoice_id is None ==> fails_validation(r, "Missing invoice_id"@),
        invoice_id matches Some(s) ==> match uuid_parsed(s@) {
            Some(v) => r == Ok::<u128, AppError>(v),
            None => fails_validation(r, "Invalid invoice_id"@),
        },
{
    match invoice_id {
        None => Err(validation("Missing invoice_id")),
        Some(s) => match parse_uuid(s) {
            Some(v) => Ok(v),
            None => Err(validation("Invalid invoice_id")),
        },
    }
}

} // verus!
