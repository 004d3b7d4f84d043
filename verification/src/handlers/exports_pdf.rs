//! Archived report PDFs and machine exports: the reporting period a
//! request names, the comparison period, the title, columns and rows of
//! each report table, and the export formats.
use vstd::prelude::*;
use crate::amount::{Amount, checked_sub, fixed2, signed_fixed2, fixed2_text, signed_fixed2_text, representable_at, max_scale};
use crate::date::{Date, date_from_str, parse_iso_date, day_number, day_in_range, shift_days, days_between, date_iso, iso_date_text};
use crate::error::{AppError, fails_validation, validation};
use crate::pdf::{PdfCell, CellView, cell_views};
use crate::text::{cat, str_equal, chars_to_string};
use crate::uuid_text::{uuid_chars, uuid_text};

verus! {

pub struct PeriodQuery {
    pub from: Option<String>,
    pub to: Option<String>,
}

impl Default for PeriodQuery {
    fn default() -> (r: PeriodQuery)
        ensures
            r.from is None,
            r.to is None,
    {
        PeriodQuery { from: None, to: None }
    }
}

pub struct NotesForm {
    pub period_key: String,
    pub body: String,
}

/// The text a period bound is read from, with its default.
pub open spec fn bound_text(b: Option<String>, default: Seq<char>) -> Seq<char> {
    match b {
        Some(t) => t@,
        None => default,
    }
}

/// The reporting period of a request: `from` defaults to 1900-01-01 and
/// `to` to 2999-12-31; each must be a `YYYY-MM-DD` date.
pub fn parse_period(q: &PeriodQuery) -> (r: Result<(Date, Date), AppError>)
    ensures
        date_from_str(bound_text(q.from, "1900-01-01"@)) is None ==> fails_validation(
            r,
            "from must be YYYY-MM-DD"@,
        ),
        date_from_str(bound_text(q.from, "1900-01-01"@)) is Some && date_from_str(
            bound_text(q.to, "2999-12-31"@),
        ) is None ==> fails_validation(r, "to must be YYYY-MM-DD"@),
        r matches Ok((f, t)) ==> Some(f) == date_from_str(bound_text(q.from, "1900-01-01"@))
            && Some(t) == date_from_str(bound_text(q.to, "2999-12-31"@)) && f.wf() && t.wf(),
        r is Ok <==> (date_from_str(bound_text(q.from, "1900-01-01"@)) is Some && date_from_str(
            bound_text(q.to, "2999-12-31"@),
        ) is Some),
{
    let from_text: &str = match &q.from {
        Some(t) => t.as_str(),
        None => "1900-01-01",
    };
    let from = match parse_iso_date(from_text) {
        Some(d) => d,
        None => {
            return Err(validation("from must be YYYY-MM-DD"));
        },
    };
    let to_text: &str = match &q.to {
        Some(t) => t.as_str(),
        None => "2999-12-31",
    };
    let to = match parse_iso_date(to_text) {
        Some(d) => d,
        None => {
            return Err(validation("to must be YYYY-MM-DD"));
        },
    };
    Ok((from, to))
}

/// The reports that have a PDF form, with their titles.
pub open spec fn report_title_spec(kind: Seq<char>) -> Option<Seq<char>> {
    if kind == "trial-balance"@ {
        Some("Trial Balance"@)
    } else if kind == "balance-sheet"@ {
        Some("Balance Sheet"@)
    } else if kind == "income-statement"@ {
        Some("Income Statement"@)
    } else if kind == "cash-flow"@ {
        Some("Cash Flow"@)
    } else if kind == "general-ledger"@ {
        Some("General Ledger"@)
    } else {
        None
    }
}

pub fn report_title(kind: &str) -> (r: Result<&'static str, AppError>)
    ensures
        report_title_spec(kind@) matches Some(t) ==> (r matches Ok(x) && x@ == t),
        report_title_spec(kind@) is None ==> fails_validation(
            r,
            "unsupported report '"@ + kind@
                + "' (use trial-balance, balance-sheet, income-statement, cash-flow, general-ledger)"@,
        ),
{
    if str_equal(kind, "trial-balance") {
        Ok("Trial Balance")
    } else if str_equal(kind, "balance-sheet") {
        Ok("Balance Sheet")
    } else if str_equal(kind, "income-statement") {
        Ok("Income Statement")
    } else if str_equal(kind, "cash-flow") {
        Ok("Cash Flow")
    } else if str_equal(kind, "general-ledger") {
        Ok("General Ledger")
    } else {
        let a = cat("unsupported report '", kind);
        Err(
            AppError::Validation(
                cat(
                    a.as_str(),
                    "' (use trial-balance, balance-sheet, income-statement, cash-flow, general-ledger)",
                ),
            ),
        )
    }
}

/// Reports with a comparison column.
pub open spec fn comparative(kind: Seq<char>) -> bool {
    kind == "income-statement"@ || kind == "balance-sheet"@
}

/// Column headings of a report table.
pub open spec fn report_columns_spec(kind: Seq<char>) -> Seq<Seq<char>> {
    if kind == "general-ledger"@ {
        seq!["Date"@, "Description"@, "Amount"@]
    } else if comparative(kind) {
        seq!["Account"@, "Current"@, "Prior"@, "Δ"@, "Drill-down"@]
    } else {
        seq!["Account"@, "Amount"@]
    }
}

pub fn report_columns(kind: &str) -> (r: Vec<String>)
    ensures
        r@.map_values(|s: String| s@) == report_columns_spec(kind@),
{
    let mut r: Vec<String> = Vec::new();
    if str_equal(kind, "general-ledger") {
        r.push("Date".to_string());
        r.push("Description".to_string());
        r.push("Amount".to_string());
    } else if str_equal(kind, "income-statement") || str_equal(kind, "balance-sheet") {
        r.push("Account".to_string());
        r.push("Current".to_string());
        r.push("Prior".to_string());
        r.push("Δ".to_string());
        r.push("Drill-down".to_string());
    } else {
        r.push("Account".to_string());
        r.push("Amount".to_string());
    }
    assert(r@.map_values(|s: String| s@) =~= report_columns_spec(kind@));
    r
}

fn date_string(d: Date) -> (r: String)
    ensures
        r@ == iso_date_text(d),
{
    chars_to_string(date_iso(d).as_slice())
}

/// `<from> → <to>`, the period line of a report.
pub fn period_label(from: Date, to: Date) -> (r: String)
    ensures
        r@ == iso_date_text(from) + " → "@ + iso_date_text(to),
{
    let a = cat(date_string(from).as_str(), " → ");
    cat(a.as_str(), date_string(to).as_str())
}

/// `<kind>:<from>..<to>`, the key a report's notes are stored under.
pub fn export_period_key(kind: &str, from: Date, to: Date) -> (r: String)
    ensures
        r@ == kind@ + ":"@ + iso_date_text(from) + ".."@ + iso_date_text(to),
{
    let a = cat(kind, ":");
    let b = cat(a.as_str(), date_string(from).as_str());
    let c = cat(b.as_str(), "..");
    cat(c.as_str(), date_string(to).as_str())
}

/// `<title> — <ledger>`, the title of a report PDF.
pub fn pdf_title(title: &str, ledger_name: &str) -> (r: String)
    ensures
        r@ == title@ + " — "@ + ledger_name@,
{
    let a = cat(title, " — ");
    cat(a.as_str(), ledger_name)
}

/// The comparison period: as many days as the reporting period (counted
/// inclusively), ending the day before it starts.
pub fn prior_period(from: Date, to: Date) -> (r: (Date, Date))
    requires
        from.wf(),
        to.wf(),
        day_in_range(day_number(from) - (day_number(to) - day_number(from) + 1)),
        day_in_range(day_number(from) - 1),
    ensures
        r.0.wf() && r.1.wf(),
        day_number(r.0) == day_number(from) - (day_number(to) - day_number(from)) - 1,
        day_number(r.1) == day_number(from) - 1,
{
    let len = days_between(to, from);
    let a = shift_days(from, -(len + 1));
    let b = shift_days(from, -1);
    match (a, b) {
        (Some(x), Some(y)) => (x, y),
        _ => (from, from),
    }
}

fn amount_string(a: Amount) -> (r: String)
    ensures
        r@ == fixed2_text(a.mantissa as int, a.scale as nat),
{
    chars_to_string(fixed2(a).as_slice())
}

fn uuid_string(v: u128) -> (r: String)
    ensures
        r@ == uuid_text(v),
{
    chars_to_string(uuid_chars(v).as_slice())
}

/// Link to the general ledger of one account.
pub open spec fn account_gl_href(ledger: u128, account: u128) -> Seq<char> {
    "/ledgers/"@ + uuid_text(ledger) + "/reports/general-ledger?account_id="@ + uuid_text(account)
}

/// A trial-balance row: the account, linked to its ledger, and its net
/// balance (debits less credits) to two places.
pub fn trial_balance_row(ledger: u128, account: u128, name: String, debit: Amount, credit: Amount) -> (r: Vec<PdfCell>)
    requires
        debit.wf(),
        credit.wf(),
        representable_at(debit.value() - credit.value(), max_scale(debit, credit) as nat),
    ensures
        exists|net: Amount|
            net.value() == debit.value() - credit.value() && net.scale == max_scale(debit, credit)
                && #[trigger] cell_views(r@) == seq![
                CellView { text: name@, href: Some(account_gl_href(ledger, account)) },
                CellView { text: fixed2_text(net.mantissa as int, net.scale as nat), href: None },
            ],
{
    let net = match checked_sub(debit, credit) {
        Some(n) => n,
        None => Amount::zero(),
    };
    let a = cat("/ledgers/", uuid_string(ledger).as_str());
    let b = cat(a.as_str(), "/reports/general-ledger?account_id=");
    let href = cat(b.as_str(), uuid_string(account).as_str());
    let mut r: Vec<PdfCell> = Vec::new();
    r.push(PdfCell::linked(name, href));
    r.push(PdfCell::plain(amount_string(net)));
    assert(cell_views(r@) =~= seq![
        CellView { text: r@[0].text@, href: Some(account_gl_href(ledger, account)) },
        CellView { text: fixed2_text(net.mantissa as int, net.scale as nat), href: None },
    ]);
    r
}

/// Link to the general ledger of one account over a period.
pub open spec fn account_period_href(ledger: u128, account: u128, from: Date, to: Date) -> Seq<char> {
    account_gl_href(ledger, account) + "&from="@ + iso_date_text(from) + "&to="@ + iso_date_text(to)
}

/// A comparative row (balance sheet, income statement): the account, its
/// current and prior net balances, their difference with its sign, and a
/// link to its ledger. An account without prior activity has a prior
/// balance of zero.
pub fn comparative_row(ledger: u128, account: u128, name: String, current: Amount, prior: Option<Amount>, from: Date, to: Date) -> (r: Vec<PdfCell>)
    requires
        current.wf(),
        prior matches Some(p) ==> p.wf() && representable_at(current.value() - p.value(), max_scale(current, p) as nat),
    ensures
        ({
            let p = match prior {
                Some(p) => p,
                None => Amount { mantissa: 0, scale: 0 },
            };
            exists|delta: Amount|
                delta.value() == current.value() - p.value() && delta.scale == max_scale(current, p)
                    && #[trigger] cell_views(r@) == seq![
                    CellView { text: name@, href: None },
                    CellView { text: fixed2_text(current.mantissa as int, current.scale as nat), href: None },
                    CellView { text: fixed2_text(p.mantissa as int, p.scale as nat), href: None },
                    CellView { text: signed_fixed2_text(delta.mantissa as int, delta.scale as nat), href: None },
                    CellView { text: "→ GL"@, href: Some(account_period_href(ledger, account, from, to)) },
                ]
        }),
{
    let p = match prior {
        Some(p) => p,
        None => Amount::zero(),
    };
    proof {
        if prior is None {
            crate::amount::lemma_exact_result(current, current.value(), current.scale);
        }
    }
    let delta = match checked_sub(current, p) {
        Some(d) => d,
        None => Amount::zero(),
    };
    let a = cat("/ledgers/", uuid_string(ledger).as_str());
    let b = cat(a.as_str(), "/reports/general-ledger?account_id=");
    let c = cat(b.as_str(), uuid_string(account).as_str());
    let d = cat(c.as_str(), "&from=");
    let e = cat(d.as_str(), date_string(from).as_str());
    let f = cat(e.as_str(), "&to=");
    let href = cat(f.as_str(), date_string(to).as_str());
    let mut r: Vec<PdfCell> = Vec::new();
    r.push(PdfCell::plain(name));
    r.push(PdfCell::plain(amount_string(current)));
    r.push(PdfCell::plain(amount_string(p)));
    r.push(PdfCell::plain(chars_to_string(signed_fixed2(delta).as_slice())));
    r.push(PdfCell::linked("→ GL".to_string(), href));
    assert(cell_views(r@) =~= seq![
        CellView { text: r@[0].text@, href: None },
        CellView { text: fixed2_text(current.mantissa as int, current.scale as nat), href: None },
        CellView { text: fixed2_text(p.mantissa as int, p.scale as nat), href: None },
        CellView { text: signed_fixed2_text(delta.mantissa as int, delta.scale as nat), href: None },
        CellView { text: "→ GL"@, href: Some(account_period_href(ledger, account, from, to)) },
    ]);
    r
}

/// A cash-flow row: the account and its net movement.
pub fn cash_flow_row(name: String, amount: Amount) -> (r: Vec<PdfCell>)
    ensures
        cell_views(r@) == seq![
            CellView { text: name@, href: None },
            CellView { text: fixed2_text(amount.mantissa as int, amount.scale as nat), href: None },
        ],
{
    let ghost n = name@;
    let mut r: Vec<PdfCell> = Vec::new();
    r.push(PdfCell::plain(name));
    r.push(PdfCell::plain(amount_string(amount)));
    assert(cell_views(r@) =~= seq![
        CellView { text: n, href: None },
        CellView { text: fixed2_text(amount.mantissa as int, amount.scale as nat), href: None },
    ]);
    r
}

/// A general-ledger row: the date (linked to its transaction), the
/// posting's direction and the description, and the amount.
pub fn general_ledger_row(ledger: u128, txn: u128, date: Date, description: &str, direction: &str, amount: Amount) -> (r: Vec<PdfCell>)
    ensures
        cell_views(r@) == seq![
            CellView {
                text: iso_date_text(date),
                href: Some("/ledgers/"@ + uuid_text(ledger) + "/transactions/"@ + uuid_text(txn)),
            },
            CellView { text: direction@ + " "@ + description@, href: None },
            CellView { text: fixed2_text(amount.mantissa as int, amount.scale as nat), href: None },
        ],
{
    let a = cat("/ledgers/", uuid_string(ledger).as_str());
    let b = cat(a.as_str(), "/transactions/");
    let href = cat(b.as_str(), uuid_string(txn).as_str());
    let d = cat(direction, " ");
    let mut r: Vec<PdfCell> = Vec::new();
    r.push(PdfCell::linked(date_string(date), href));
    r.push(PdfCell::plain(cat(d.as_str(), description)));
    r.push(PdfCell::plain(amount_string(amount)));
    assert(cell_views(r@) =~= seq![
        CellView {
            text: iso_date_text(date),
            href: Some("/ledgers/"@ + uuid_text(ledger) + "/transactions/"@ + uuid_text(txn)),
        },
        CellView { text: direction@ + " "@ + description@, href: None },
        CellView { text: fixed2_text(amount.mantissa as int, amount.scale as nat), href: None },
    ]);
    r
}

/// Machine export formats.
#[derive(Debug, Clone, Copy, PartialEq, Eq, Structural)]
pub enum ExportFormat {
    SafT,
    XbrlGl,
    Datev,
}

pub open spec fn export_format_spec(f: Seq<char>) -> Option<ExportFormat> {
    if f == "saf-t"@ {
        Some(ExportFormat::SafT)
    } else if f == "xbrl-gl"@ {
        Some(ExportFormat::XbrlGl)
    } else if f == "datev"@ {
        Some(ExportFormat::Datev)
    } else {
        None
    }
}

/// The export format a request names.
pub fn export_format(format: &str) -> (r: Result<ExportFormat, AppError>)
    ensures
        export_format_spec(format@) matches Some(f) ==> r == Ok::<ExportFormat, AppError>(f),
        export_format_spec(format@) is None ==> fails_validation(
            r,
            "unsupported format '"@ + format@ + "' (use saf-t, xbrl-gl, datev)"@,
        ),
{
    if str_equal(format, "saf-t") {
        Ok(ExportFormat::SafT)
    } else if str_equal(format, "xbrl-gl") {
        Ok(ExportFormat::XbrlGl)
    } else if str_equal(format, "datev") {
        Ok(ExportFormat::Datev)
    } else {
        let a = cat("unsupported format '", format);
        Err(AppError::Validation(cat(a.as_str(), "' (use saf-t, xbrl-gl, datev)")))
    }
}

impl ExportFormat {
    /// The response's content type.
    pub fn content_type(&self) -> (r: &'static str)
        ensures
            r@ == (match *self {
                ExportFormat::Datev => "text/csv; charset=utf-8"@,
                _ => "application/xml; charset=utf-8"@,
            }),
    {
        match self {
            ExportFormat::Datev => "text/csv; charset=utf-8",
            _ => "application/xml; charset=utf-8",
        }
    }

    /// The attachment's file name.
    pub fn filename(&self) -> (r: &'static str)
        ensures
            r@ == (match *self {
                ExportFormat::SafT => "ledger.saf-t.xml"@,
                ExportFormat::XbrlGl => "ledger.xbrl.xml"@,
                ExportFormat::Datev => "ledger.datev.csv"@,
            }),
    {
        match self {
            ExportFormat::SafT => "ledger.saf-t.xml",
            ExportFormat::XbrlGl => "ledger.xbrl.xml",
            ExportFormat::Datev => "ledger.datev.csv",
        }
    }
}

} // verus!
