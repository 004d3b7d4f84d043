//! Statement import: the preview rows of an uploaded CSV file, and the
//! entry each confirmed row posts (or why it is rejected).
use vstd::prelude::*;
use std::collections::HashSet;
use crate::amount::{Amount, decimal_parse, parse_amount, int_text, int_to_text};
use crate::csv_table::{csv_read, read_csv, fields_view, result_view, table_view};
use crate::date::{Date, chrono_parse_date, parse_date_with_format};
use crate::error::{AppError, ErrorView, fails_validation};
use crate::journal::{Posting, balanced, lemma_single_totals, lemma_totals_concat};
use crate::text::{cat, chars_to_string, join_strings, joined, string_views, trim_seq, trim_string};
use crate::uuid_text::{uuid_parsed, parse_uuid};

verus! {

/// Which CSV column holds each field of a statement row.
#[derive(Debug, Clone)]
pub struct CsvMapping {
    pub date_column: usize,
    pub description_column: usize,
    pub debit_column: Option<usize>,
    pub credit_column: Option<usize>,
    pub account_column: Option<usize>,
    pub payee_column: Option<usize>,
    pub reference_column: Option<usize>,
}

impl Default for CsvMapping {
    fn default() -> (r: CsvMapping)
        ensures
            r.date_column == 0 && r.description_column == 0 && r.debit_column is None
                && r.credit_column is None && r.account_column is None && r.payee_column is None
                && r.reference_column is None,
    {
        CsvMapping {
            date_column: 0,
            description_column: 0,
            debit_column: None,
            credit_column: None,
            account_column: None,
            payee_column: None,
            reference_column: None,
        }
    }
}

/// One statement row as the preview shows it and the confirmation
/// receives it back.
#[derive(Debug, Clone)]
pub struct ParsedRow {
    pub date: String,
    pub description: String,
    pub debit: String,
    pub credit: String,
    pub account: Option<String>,
    pub payee: Option<String>,
    pub reference: Option<String>,
    pub is_duplicate: bool,
}

/// Most rows a preview reads.
pub const PREVIEW_ROW_LIMIT: usize = 10000;

pub open spec fn field_at(rec: Seq<Seq<char>>, i: int) -> Seq<char> {
    if i < rec.len() {
        rec[i]
    } else {
        Seq::empty()
    }
}

pub open spec fn opt_field_at(rec: Seq<Seq<char>>, i: int) -> Option<Seq<char>> {
    if i < rec.len() {
        Some(rec[i])
    } else {
        None
    }
}

pub open spec fn opt_view(o: Option<String>) -> Option<Seq<char>> {
    match o {
        Some(s) => Some(s@),
        None => None,
    }
}

/// A CSV record read as a statement row: date, description, debit and
/// credit in the first four columns (empty when missing), account, payee
/// and reference in the next three (absent when missing).
pub open spec fn row_matches(row: ParsedRow, rec: Seq<Seq<char>>) -> bool {
    &&& row.date@ == field_at(rec, 0)
    &&& row.description@ == field_at(rec, 1)
    &&& row.debit@ == field_at(rec, 2)
    &&& row.credit@ == field_at(rec, 3)
    &&& opt_view(row.account) == opt_field_at(rec, 4)
    &&& opt_view(row.payee) == opt_field_at(rec, 5)
    &&& opt_view(row.reference) == opt_field_at(rec, 6)
    &&& !row.is_duplicate
}

fn get_field(rec: &Vec<String>, i: usize) -> (r: String)
    ensures
        r@ == field_at(fields_view(*rec), i as int),
{
    if i < rec.len() {
        rec[i].clone()
    } else {
        String::new()
    }
}

fn get_opt_field(rec: &Vec<String>, i: usize) -> (r: Option<String>)
    ensures
        opt_view(r) == opt_field_at(fields_view(*rec), i as int),
{
    if i < rec.len() {
        Some(rec[i].clone())
    } else {
        None
    }
}

/// The preview of a CSV statement: its header, and its first
/// `PREVIEW_ROW_LIMIT` records as rows. A header that cannot be read, or
/// a record among those that fails, refuses the file.
pub fn csv_preview(text: &str) -> (r: Result<(Vec<String>, Vec<ParsedRow>), AppError>)
    ensures
        ({
            let (headers, records) = csv_read(text@);
            match headers {
                Err(e) => fails_validation(r, "Invalid CSV headers: "@ + e),
                Ok(h) => {
                    let n = if records.len() < PREVIEW_ROW_LIMIT {
                        records.len() as int
                    } else {
                        PREVIEW_ROW_LIMIT as int
                    };
                    match first_failed(records, n) {
                        Some(i) => fails_validation(
                            r,
                            "CSV row "@ + int_text(i + 1) + ": "@ + records[i]->Err_0,
                        ),
                        None => r matches Ok((hs, rows)) && string_views(hs@) == h && rows@.len() == n
                            && forall|i: int| 0 <= i < n ==> row_matches(#[trigger] rows@[i], records[i]->Ok_0),
                    }
                },
            }
        }),
{
    let table = read_csv(text);
    let ghost tv = table_view(table);
    let headers = match table.headers {
        Ok(h) => h,
        Err(e) => {
            return Err(AppError::Validation(cat("Invalid CSV headers: ", e.as_str())));
        },
    };
    assert(string_views(headers@) == fields_view(headers));
    let n = if table.records.len() < PREVIEW_ROW_LIMIT {
        table.records.len()
    } else {
        PREVIEW_ROW_LIMIT
    };
    let mut rows: Vec<ParsedRow> = Vec::new();
    for i in 0..n
        invariant
            n <= table.records@.len(),
            tv.1 == table.records@.map_values(|r: Result<Vec<String>, String>| result_view(r)),
            tv == csv_read(text@),
            tv.0 == Ok::<Seq<Seq<char>>, Seq<char>>(string_views(headers@)),
            n == (if tv.1.len() < PREVIEW_ROW_LIMIT {
                tv.1.len() as int
            } else {
                PREVIEW_ROW_LIMIT as int
            }),
            first_failed(tv.1, i as int) is None,
            rows@.len() == i,
            forall|k: int| 0 <= k < i ==> row_matches(#[trigger] rows@[k], tv.1[k]->Ok_0),
            forall|k: int| 0 <= k < i ==> tv.1[k] is Ok,
    {
        assert(tv.1[i as int] == result_view(table.records@[i as int]));
        match &table.records[i] {
            Ok(rec) => {
                let row = ParsedRow {
                    date: get_field(rec, 0),
                    description: get_field(rec, 1),
                    debit: get_field(rec, 2),
                    credit: get_field(rec, 3),
                    account: get_opt_field(rec, 4),
                    payee: get_opt_field(rec, 5),
                    reference: get_opt_field(rec, 6),
                    is_duplicate: false,
                };
                rows.push(row);
            },
            Err(e) => {
                proof {
                    assert(tv.1[i as int] == Err::<Seq<Seq<char>>, Seq<char>>(e@));
                    assert(first_failed(tv.1, i + 1) == Some(i as int));
                    lemma_first_failed_stays(tv.1, i + 1, n as int);
                }
                let a = cat("CSV row ", chars_to_string(int_to_text((i + 1) as i128).as_slice()).as_str());
                let b = cat(a.as_str(), ": ");
                return Err(AppError::Validation(cat(b.as_str(), e.as_str())));
            },
        }
    }
    Ok((headers, rows))
}

/// The first of the first `n` records that failed.
pub open spec fn first_failed(records: Seq<Result<Seq<Seq<char>>, Seq<char>>>, n: int) -> Option<int>
    decreases n,
{
    if n <= 0 {
        None
    } else {
        match first_failed(records, n - 1) {
            Some(i) => Some(i),
            None => if records[n - 1] is Err {
                Some(n - 1)
            } else {
                None
            },
        }
    }
}

proof fn lemma_first_failed_stays(records: Seq<Result<Seq<Seq<char>>, Seq<char>>>, k: int, n: int)
    requires
        0 <= k <= n,
        first_failed(records, k) is Some,
    ensures
        first_failed(records, n) == first_failed(records, k),
    decreases n - k,
{
    if k < n {
        lemma_first_failed_stays(records, k, n - 1);
    }
}

// ---------------------------------------------------------------------
// Confirmation
// ---------------------------------------------------------------------

/// What a confirmed row leads to.
pub enum RowOutcome {
    /// The row is rejected with a reason; the import goes on and is
    /// rolled back at the end.
    Rejected(String),
    /// The request fails at once.
    Abort(AppError),
    /// The row's transaction: its date, amount, and the accounts debited
    /// and credited.
    Post { date: Date, amount: Amount, debit_account: u128, credit_account: u128 },
}

/// The account of a row: its own account when it names a UUID, else the
/// cash account.
pub open spec fn row_account(row: ParsedRow, cash: u128) -> u128 {
    match row.account {
        Some(a) => match uuid_parsed(a@) {
            Some(v) => v,
            None => cash,
        },
        None => cash,
    }
}

/// The decision on one confirmed row: it needs a date and exactly one of
/// debit and credit (trimmed), which must parse and be positive, and a
/// `YYYY-MM-DD` date. A debit moves cash out (row account debited, cash
/// credited); a credit moves cash in.
pub open spec fn row_outcome_ok(row: ParsedRow, cash: u128, o: RowOutcome) -> bool {
    let d = trim_seq(row.debit@);
    let c = trim_seq(row.credit@);
    if trim_seq(row.date@).len() == 0 {
        o matches RowOutcome::Rejected(m) && m@ == "missing date: "@ + row.description@
    } else if d.len() == 0 && c.len() == 0 {
        o matches RowOutcome::Rejected(m) && m@ == "no amount: "@ + row.description@
    } else if d.len() > 0 && c.len() > 0 {
        o matches RowOutcome::Rejected(m) && m@ == "row '"@ + row.description@
            + "': both debit and credit set"@
    } else {
        let (text, label) = if d.len() == 0 {
            (c, "credit"@)
        } else {
            (d, "debit"@)
        };
        match decimal_parse(text) {
            Err(e) => o matches RowOutcome::Abort(err) && err@ == ErrorView::Validation(
                "row '"@ + row.description@ + "': bad "@ + label + " '"@ + text + "': "@ + e,
            ),
            Ok((m, sc)) => if (Amount { mantissa: m, scale: sc }).value() <= 0 {
                o matches RowOutcome::Rejected(msg) && msg@ == "row '"@ + row.description@
                    + "': non-positive amount"@
            } else {
                match chrono_parse_date(row.date@, "%Y-%m-%d"@) {
                    Err(e) => o matches RowOutcome::Abort(err) && err@ == ErrorView::Validation(
                        "row '"@ + row.description@ + "': bad date '"@ + row.date@ + "': "@ + e,
                    ),
                    Ok((y, mo, dd)) => {
                        let other = row_account(row, cash);
                        o matches RowOutcome::Post { date, amount, debit_account, credit_account }
                            && date == (Date { year: y, month: mo, day: dd })
                            && amount == (Amount { mantissa: m, scale: sc })
                            && (if d.len() > 0 {
                            debit_account == other && credit_account == cash
                        } else {
                            debit_account == cash && credit_account == other
                        })
                    },
                }
            },
        }
    }
}

pub fn confirm_row(row: &ParsedRow, cash: u128) -> (r: RowOutcome)
    ensures
        row_outcome_ok(*row, cash, r),
{
    if trim_string(row.date.as_str()).as_str().is_empty() {
        return RowOutcome::Rejected(cat("missing date: ", row.description.as_str()));
    }
    let debit = trim_string(row.debit.as_str());
    let credit = trim_string(row.credit.as_str());
    let d_empty = debit.as_str().is_empty();
    let c_empty = credit.as_str().is_empty();
    if d_empty && c_empty {
        return RowOutcome::Rejected(cat("no amount: ", row.description.as_str()));
    }
    if !d_empty && !c_empty {
        let a = cat("row '", row.description.as_str());
        return RowOutcome::Rejected(cat(a.as_str(), "': both debit and credit set"));
    }
    let (text, label) = if d_empty {
        (credit, "credit")
    } else {
        (debit, "debit")
    };
    let amount = match parse_amount(text.as_str()) {
        Ok(a) => a,
        Err(e) => {
            let a = cat("row '", row.description.as_str());
            let b = cat(a.as_str(), "': bad ");
            let c = cat(b.as_str(), label);
            let d = cat(c.as_str(), " '");
            let f = cat(d.as_str(), text.as_str());
            let g = cat(f.as_str(), "': ");
            return RowOutcome::Abort(AppError::Validation(cat(g.as_str(), e.as_str())));
        },
    };
    if !amount.is_positive() {
        let a = cat("row '", row.description.as_str());
        return RowOutcome::Rejected(cat(a.as_str(), "': non-positive amount"));
    }
    let date = match parse_date_with_format(row.date.as_str(), "%Y-%m-%d") {
        Ok(x) => x,
        Err(e) => {
            let a = cat("row '", row.description.as_str());
            let b = cat(a.as_str(), "': bad date '");
            let c = cat(b.as_str(), row.date.as_str());
            let d = cat(c.as_str(), "': ");
            return RowOutcome::Abort(AppError::Validation(cat(d.as_str(), e.as_str())));
        },
    };
    let other = match &row.account {
        Some(a) => match parse_uuid(a.as_str()) {
            Some(v) => v,
            None => cash,
        },
        None => cash,
    };
    if !d_empty {
        RowOutcome::Post { date, amount, debit_account: other, credit_account: cash }
    } else {
        RowOutcome::Post { date, amount, debit_account: cash, credit_account: other }
    }
}

/// The two postings of a row's transaction; they balance.
pub fn row_postings(debit_account: u128, credit_account: u128, amount: Amount) -> (r: Vec<Posting>)
    ensures
        r@ == seq![
            Posting { account: debit_account, amount, debit: true },
            Posting { account: credit_account, amount, debit: false },
        ],
        balanced(r@),
{
    let mut r: Vec<Posting> = Vec::new();
    r.push(Posting::debit(debit_account, amount));
    r.push(Posting::credit(credit_account, amount));
    proof {
        let a = Posting { account: debit_account, amount, debit: true };
        let b = Posting { account: credit_account, amount, debit: false };
        assert(r@ =~= seq![a] + seq![b]);
        lemma_single_totals(a);
        lemma_single_totals(b);
        lemma_totals_concat(seq![a], seq![b]);
    }
    r
}

/// The refusal of an import with rejected rows (the whole batch is rolled
/// back): how many rows were valid, how many failed, and why.
pub fn rolled_back(created: u32, failed: &Vec<String>) -> (r: AppError)
    ensures
        r@ == ErrorView::Validation(
            "import rolled back: "@ + int_text(created as int) + " valid, "@ + int_text(
                failed@.len() as int,
            ) + " failed: "@ + joined(string_views(failed@), "; "@),
        ),
{
    let a = cat("import rolled back: ", chars_to_string(int_to_text(created as i128).as_slice()).as_str());
    let b = cat(a.as_str(), " valid, ");
    let c = cat(b.as_str(), chars_to_string(int_to_text(failed.len() as i128).as_slice()).as_str());
    let d = cat(c.as_str(), " failed: ");
    AppError::Validation(cat(d.as_str(), join_strings(failed, "; ").as_str()))
}

/// The row is posted (its outcome is a transaction).
pub open spec fn row_posts(row: ParsedRow, cash: u128) -> bool {
    exists|o: RowOutcome| o is Post && #[trigger] row_outcome_ok(row, cash, o)
}

proof fn lemma_outcome_kind(row: ParsedRow, cash: u128, o1: RowOutcome, o2: RowOutcome)
    requires
        row_outcome_ok(row, cash, o1),
        row_outcome_ok(row, cash, o2),
    ensures
        o1 is Post <==> o2 is Post,
{
}

/// The confirmation of a whole import, row by row: a row whose amount or
/// date cannot be read fails the request at once; otherwise the import is
/// committed only when every row is posted, and a single rejected row
/// rolls back the whole batch. On success: each row's transaction, in
/// order.
pub fn confirm_batch(rows: &Vec<ParsedRow>, cash: u128) -> (r: Result<Vec<RowOutcome>, AppError>)
    requires
        rows@.len() <= u32::MAX,
    ensures
        r matches Ok(posts) ==> posts@.len() == rows@.len() && forall|i: int|
            0 <= i < rows@.len() ==> (#[trigger] posts@[i]) is Post && row_outcome_ok(
                rows@[i],
                cash,
                posts@[i],
            ),
        r is Ok <==> forall|i: int| 0 <= i < rows@.len() ==> row_posts(#[trigger] rows@[i], cash),
        r matches Err(e) ==> (exists|i: int|
            0 <= i < rows@.len() && row_outcome_ok(#[trigger] rows@[i], cash, RowOutcome::Abort(e)))
            || (exists|m: Seq<char>| e@ == ErrorView::Validation("import rolled back: "@ + m)),
{
    let mut posts: Vec<RowOutcome> = Vec::new();
    let mut failed: Vec<String> = Vec::new();
    let mut created: u32 = 0;
    for i in 0..rows.len()
        invariant
            rows@.len() <= u32::MAX,
            created <= i,
            failed@.len() == 0 ==> posts@.len() == i && forall|k: int|
                0 <= k < i ==> (#[trigger] posts@[k]) is Post && row_outcome_ok(rows@[k], cash, posts@[k]),
            failed@.len() > 0 ==> exists|k: int| 0 <= k < i && !row_posts(#[trigger] rows@[k], cash),
    {
        let o = confirm_row(&rows[i], cash);
        let ghost go = o;
        match o {
            RowOutcome::Abort(e) => {
                assert(go == RowOutcome::Abort(e));
                assert(row_outcome_ok(rows@[i as int], cash, RowOutcome::Abort(e)));
                assert(!row_posts(rows@[i as int], cash)) by {
                    if row_posts(rows@[i as int], cash) {
                        let p = choose|p: RowOutcome| p is Post && #[trigger] row_outcome_ok(rows@[i as int], cash, p);
                        lemma_outcome_kind(rows@[i as int], cash, p, go);
                    }
                }
                assert(exists|j: int|
                    0 <= j < rows@.len() && row_outcome_ok(#[trigger] rows@[j], cash, RowOutcome::Abort(e)));
                return Err(e);
            },
            RowOutcome::Rejected(m) => {
                assert(!row_posts(rows@[i as int], cash)) by {
                    if row_posts(rows@[i as int], cash) {
                        let p = choose|p: RowOutcome| p is Post && #[trigger] row_outcome_ok(rows@[i as int], cash, p);
                        lemma_outcome_kind(rows@[i as int], cash, p, RowOutcome::Rejected(m));
                    }
                }
                failed.push(m);
            },
            RowOutcome::Post { date, amount, debit_account, credit_account } => {
                let ghost before = posts@;
                posts.push(RowOutcome::Post { date, amount, debit_account, credit_account });
                created = created + 1;
                assert(failed@.len() == 0 ==> posts@ == before.push(posts@.last()));
            },
        }
    }
    if failed.len() > 0 {
        let e = rolled_back(created, &failed);
        proof {
            let m = int_text(created as int) + " valid, "@ + int_text(failed@.len() as int) + " failed: "@
                + joined(string_views(failed@), "; "@);
            assert("import rolled back: "@ + int_text(created as int) + " valid, "@ + int_text(
                failed@.len() as int,
            ) + " failed: "@ + joined(string_views(failed@), "; "@) =~= "import rolled back: "@ + m);
        }
        return Err(e);
    }
    assert forall|i: int| 0 <= i < rows@.len() implies row_posts(#[trigger] rows@[i], cash) by {
        assert(posts@[i] is Post && row_outcome_ok(rows@[i], cash, posts@[i]));
    }
    Ok(posts)
}

/// Which previewed rows are duplicates of recent transactions: a row
/// with a fingerprint (non-zero) that is among the existing ones.
pub fn duplicate_flags(fingerprints: &Vec<u64>, existing: &HashSet<u64>) -> (r: Vec<bool>)
    ensures
        r@.len() == fingerprints@.len(),
        forall|i: int|
            0 <= i < r@.len() ==> r@[i] == (fingerprints@[i] != 0 && existing@.contains(#[trigger] fingerprints@[i])),
{
    broadcast use vstd::std_specs::hash::group_hash_axioms;

    let mut out: Vec<bool> = Vec::new();
    for i in 0..fingerprints.len()
        invariant
            out@.len() == i,
            forall|j: int|
                0 <= j < i ==> out@[j] == (fingerprints@[j] != 0 && existing@.contains(#[trigger] fingerprints@[j])),
    {
        let f = fingerprints[i];
        out.push(f != 0 && existing.contains(&f));
    }
    out
}

} // verus!
