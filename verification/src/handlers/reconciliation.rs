//! Bank reconciliation: reading statement rows, the per-row currency
//! check, duplicate detection, the outcome of a statement import, and the
//! difference a completed reconciliation records.
use vstd::prelude::*;
use crate::amount::{Amount, amounts_equal, checked_sub, decimal_parse, parse_amount, representable_at, max_scale, int_text, int_to_text};
use crate::date::{Date, chrono_parse_date, parse_date_with_format};
use crate::error::{AppError, ErrorView, fails_validation};
use crate::csv_table::{csv_read, read_csv, result_view, table_view, fields_view};
use crate::text::{
    cat, chars_equal, chars_to_string, joined, join_strings, lower_seq, str_to_chars,
    string_views, to_ascii_lowercase_chars, str_equal, to_lowercase, unicode_lower,
};

verus! {

/// A statement line ready to be stored.
pub struct StatementRow {
    pub date: Date,
    pub description: String,
    pub amount: Amount,
    pub check_number: Option<String>,
    pub external_id: Option<String>,
    pub currency: Option<String>,
}

/// What a CSV statement record (date, description, amount, optional
/// check number) yields: nothing for a record of fewer than three
/// fields, a row error for a bad date or amount, else the row.
pub open spec fn csv_row_outcome(rec: Seq<Seq<char>>) -> Option<Result<(Date, Amount), Seq<char>>> {
    if rec.len() < 3 {
        None
    } else {
        match chrono_parse_date(rec[0], "%Y-%m-%d"@) {
            Err(_) => Some(Err("bad CSV date '"@ + rec[0] + "'"@)),
            Ok((y, m, d)) => match decimal_parse(rec[2]) {
                Err(_) => Some(Err("bad CSV amount '"@ + rec[2] + "'"@)),
                Ok((mm, sc)) => Some(
                    Ok((Date { year: y, month: m, day: d }, Amount { mantissa: mm, scale: sc })),
                ),
            },
        }
    }
}

/// The check number of a CSV record: its fourth field when not empty.
pub open spec fn csv_check_number(rec: Seq<Seq<char>>) -> Option<Seq<char>> {
    if rec.len() > 3 && rec[3].len() > 0 {
        Some(rec[3])
    } else {
        None
    }
}

pub fn csv_statement_row(record: &Vec<String>) -> (r: Option<Result<StatementRow, String>>)
    ensures
        match (r, csv_row_outcome(string_views(record@))) {
            (None, None) => true,
            (Some(Err(e)), Some(Err(t))) => e@ == t,
            (Some(Ok(row)), Some(Ok((d, a)))) => row.date == d && row.amount == a
                && row.description@ == record@[1]@ && row.external_id is None
                && row.currency is None && (match row.check_number {
                Some(c) => csv_check_number(string_views(record@)) == Some(c@),
                None => csv_check_number(string_views(record@)) is None,
            }),
            _ => false,
        },
{
    let ghost rec = string_views(record@);
    if record.len() < 3 {
        return None;
    }
    assert(rec[0] == record@[0]@ && rec[2] == record@[2]@);
    let date = match parse_date_with_format(record[0].as_str(), "%Y-%m-%d") {
        Ok(d) => d,
        Err(_) => {
            let a = cat("bad CSV date '", record[0].as_str());
            return Some(Err(cat(a.as_str(), "'")));
        },
    };
    let amount = match parse_amount(record[2].as_str()) {
        Ok(a) => a,
        Err(_) => {
            let a = cat("bad CSV amount '", record[2].as_str());
            return Some(Err(cat(a.as_str(), "'")));
        },
    };
    let check_number = if record.len() > 3 {
        assert(rec[3] == record@[3]@);
        if record[3].as_str().is_empty() {
            None
        } else {
            Some(record[3].clone())
        }
    } else {
        None
    };
    Some(
        Ok(
            StatementRow {
                date,
                description: record[1].clone(),
                amount,
                check_number,
                external_id: None,
                currency: None,
            },
        ),
    )
}

/// `str::eq_ignore_ascii_case`.
pub open spec fn eq_ignore_ascii_case(a: Seq<char>, b: Seq<char>) -> bool {
    lower_seq(a) == lower_seq(b)
}

/// The row error of a statement line in another currency than the
/// account's (compared ignoring ASCII case); lines without a currency
/// pass.
pub fn currency_mismatch(line_currency: &Option<String>, account_currency: &str) -> (r: Option<String>)
    ensures
        match line_currency {
            None => r is None,
            Some(c) => if eq_ignore_ascii_case(c@, account_currency@) {
                r is None
            } else {
                r matches Some(m) && m@ == c@ + " vs account "@ + account_currency@
            },
        },
{
    match line_currency {
        None => None,
        Some(c) => {
            let a = to_ascii_lowercase_chars(&str_to_chars(c.as_str()));
            let b = to_ascii_lowercase_chars(&str_to_chars(account_currency));
            if chars_equal(a.as_slice(), b.as_slice()) {
                None
            } else {
                let m = cat(c.as_str(), " vs account ");
                Some(cat(m.as_str(), account_currency))
            }
        },
    }
}

/// The refusal of an import with rejected rows: how many lines went in,
/// how many rows were rejected, and the first five reasons.
pub open spec fn import_rejection_text(count: int, errors: Seq<Seq<char>>) -> Seq<char> {
    let shown = if errors.len() > 5 {
        errors.subrange(0, 5)
    } else {
        errors
    };
    "imported "@ + int_text(count) + " lines; "@ + int_text(errors.len() as int)
        + " row(s) rejected: "@ + joined(shown, "; "@)
}

/// The outcome of a statement import: an error naming the rejected rows
/// when any row was rejected (the accepted lines stay imported).
pub fn import_outcome(count: i64, row_errors: &Vec<String>) -> (r: Result<(), AppError>)
    ensures
        row_errors@.len() == 0 ==> r is Ok,
        row_errors@.len() > 0 ==> fails_validation(
            r,
            import_rejection_text(count as int, string_views(row_errors@)),
        ),
{
    if row_errors.len() == 0 {
        return Ok(());
    }
    let mut shown: Vec<String> = Vec::new();
    let n = if row_errors.len() > 5 {
        5
    } else {
        row_errors.len()
    };
    for i in 0..n
        invariant
            n <= row_errors@.len(),
            shown@ == row_errors@.subrange(0, i as int),
    {
        shown.push(row_errors[i].clone());
        assert(shown@ =~= row_errors@.subrange(0, i + 1));
    }
    proof {
        let ev = string_views(row_errors@);
        if ev.len() > 5 {
            assert(string_views(shown@) =~= ev.subrange(0, 5));
        } else {
            assert(shown@ =~= row_errors@);
            assert(string_views(shown@) =~= ev);
        }
    }
    let joined_text = join_strings(&shown, "; ");
    let a = cat("imported ", chars_to_string(int_to_text(count as i128).as_slice()).as_str());
    let b = cat(a.as_str(), " lines; ");
    let c = cat(b.as_str(), chars_to_string(int_to_text(row_errors.len() as i128).as_slice()).as_str());
    let d = cat(c.as_str(), " row(s) rejected: ");
    Err(AppError::Validation(cat(d.as_str(), joined_text.as_str())))
}

/// The difference a completed reconciliation records: the statement
/// balance less the ledger balance.
pub fn reconciliation_difference(statement_balance: Amount, ledger_balance: Amount) -> (r: Amount)
    requires
        statement_balance.wf(),
        ledger_balance.wf(),
        representable_at(
            statement_balance.value() - ledger_balance.value(),
            max_scale(statement_balance, ledger_balance) as nat,
        ),
    ensures
        r.wf(),
        r.value() == statement_balance.value() - ledger_balance.value(),
        r.scale == max_scale(statement_balance, ledger_balance),
{
    match checked_sub(statement_balance, ledger_balance) {
        Some(d) => d,
        None => Amount::zero(),
    }
}

/// The records of a CSV statement (its header row skipped); a record that
/// cannot be read fails the upload.
pub fn statement_records(text: &str) -> (r: Result<Vec<Vec<String>>, AppError>)
    ensures
        ({
            let (headers, records) = csv_read(text@);
            match r {
                Ok(recs) => headers is Ok && recs@.len() == records.len() && forall|i: int|
                    0 <= i < recs@.len() ==> records[i] == Ok::<Seq<Seq<char>>, Seq<char>>(
                        fields_view(#[trigger] recs@[i]),
                    ),
                Err(e) => (headers matches Err(m) && e@ == ErrorView::Internal(m)) || (
                headers is Ok && exists|i: int|
                    0 <= i < records.len() && #[trigger] records[i] == Err::<Seq<Seq<char>>, Seq<char>>(
                        e@->Internal_0,
                    ) && e@ is Internal),
            }
        }),
{
    let table = read_csv(text);
    let ghost tv = table_view(table);
    match &table.headers {
        Err(m) => {
            return Err(AppError::Internal(m.clone()));
        },
        Ok(_) => {},
    }
    let mut out: Vec<Vec<String>> = Vec::new();
    for i in 0..table.records.len()
        invariant
            tv == table_view(table),
            tv == csv_read(text@),
            tv.0 is Ok,
            out@.len() == i,
            forall|k: int| 0 <= k < i ==> tv.1[k] == Ok::<Seq<Seq<char>>, Seq<char>>(
                fields_view(#[trigger] out@[k]),
            ),
    {
        assert(tv.1[i as int] == result_view(table.records@[i as int]));
        match &table.records[i] {
            Ok(rec) => {
                let c = rec.clone();
                assert forall|j: int| 0 <= j < c@.len() implies c@[j] == rec@[j] by {
                    assert(cloned::<String>(rec@[j], c@[j]));
                }
                assert(fields_view(c) =~= fields_view(*rec));
                out.push(c);
            },
            Err(m) => {
                return Err(AppError::Internal(m.clone()));
            },
        }
    }
    Ok(out)
}

/// A statement line already stored for the account.
pub struct StoredStatementLine {
    pub statement_date: Date,
    pub amount: Amount,
    pub description: String,
    pub external_id: Option<String>,
}

pub open spec fn stored_wf(stored: Seq<StoredStatementLine>) -> bool {
    forall|i: int| 0 <= i < stored.len() ==> (#[trigger] stored[i]).amount.wf()
}

pub open spec fn opt_text(o: Option<String>) -> Option<Seq<char>> {
    match o {
        Some(s) => Some(s@),
        None => None,
    }
}

/// A stored line that an incoming one duplicates: with an external id, a
/// line with the same id; without one, a line of the same date and amount
/// (by value) whose description equals the normalized payee once both are
/// lower-cased.
pub open spec fn duplicates(
    s: StoredStatementLine,
    external_id: Option<Seq<char>>,
    date: Date,
    amount: Amount,
    normalized_payee: Seq<char>,
) -> bool {
    match external_id {
        Some(e) => opt_text(s.external_id) == Some(e),
        None => s.statement_date == date && s.amount.value() == amount.value() && unicode_lower(
            s.description@,
        ) == unicode_lower(normalized_payee),
    }
}

/// Cross-format duplicate detection of one incoming statement row, given
/// the lines already stored for the account and the row's payee as
/// normalized for matching. A duplicate is skipped, not stored.
pub fn is_duplicate(stored: &Vec<StoredStatementLine>, row: &StatementRow, normalized_payee: &str) -> (r: bool)
    requires
        stored_wf(stored@),
        row.amount.wf(),
    ensures
        r == exists|i: int|
            0 <= i < stored@.len() && #[trigger] duplicates(
                stored@[i],
                opt_text(row.external_id),
                row.date,
                row.amount,
                normalized_payee@,
            ),
{
    let payee_lower = to_lowercase(normalized_payee);
    for i in 0..stored.len()
        invariant
            stored_wf(stored@),
            row.amount.wf(),
            payee_lower@ == unicode_lower(normalized_payee@),
            forall|k: int|
                0 <= k < i ==> !#[trigger] duplicates(
                    stored@[k],
                    opt_text(row.external_id),
                    row.date,
                    row.amount,
                    normalized_payee@,
                ),
    {
        let s = &stored[i];
        assert(s.amount.wf());
        let hit = match &row.external_id {
            Some(e) => match &s.external_id {
                Some(x) => str_equal(x.as_str(), e.as_str()),
                None => false,
            },
            None => s.statement_date.year == row.date.year && s.statement_date.month == row.date.month
                && s.statement_date.day == row.date.day && amounts_equal(s.amount, row.amount)
                && str_equal(to_lowercase(s.description.as_str()).as_str(), payee_lower.as_str()),
        };
        if hit {
            assert(duplicates(stored@[i as int], opt_text(row.external_id), row.date, row.amount, normalized_payee@));
            return true;
        }
    }
    false
}

/// The stored line a statement row becomes.
pub open spec fn stored_of(row: StatementRow) -> StoredStatementLine {
    StoredStatementLine {
        statement_date: row.date,
        amount: row.amount,
        description: row.description,
        external_id: row.external_id,
    }
}

/// Some stored line duplicates the row (with its normalized payee).
pub open spec fn has_duplicate(stored: Seq<StoredStatementLine>, row: StatementRow, payee: Seq<char>) -> bool {
    exists|i: int|
        0 <= i < stored.len() && #[trigger] duplicates(
            stored[i],
            opt_text(row.external_id),
            row.date,
            row.amount,
            payee,
        )
}

/// The stored lines after importing the first `n` rows, each with its
/// normalized payee: a row with a duplicate is skipped, any other is
/// stored.
pub open spec fn import_lines(
    stored: Seq<StoredStatementLine>,
    rows: Seq<StatementRow>,
    payees: Seq<Seq<char>>,
    n: int,
) -> Seq<StoredStatementLine>
    decreases n,
{
    if n <= 0 {
        stored
    } else {
        let prev = import_lines(stored, rows, payees, n - 1);
        if has_duplicate(prev, rows[n - 1], payees[n - 1]) {
            prev
        } else {
            prev.push(stored_of(rows[n - 1]))
        }
    }
}

pub open spec fn rows_wf(rows: Seq<StatementRow>) -> bool {
    forall|i: int| 0 <= i < rows.len() ==> (#[trigger] rows[i]).amount.wf()
}

/// Imports statement rows (those that passed the row checks) into the
/// stored lines of the account, skipping duplicates; returns how many were
/// stored.
pub fn import_statement(stored: &mut Vec<StoredStatementLine>, rows: &Vec<StatementRow>, payees: &Vec<String>) -> (r: usize)
    requires
        stored_wf(old(stored)@),
        rows_wf(rows@),
        payees@.len() == rows@.len(),
    ensures
        final(stored)@ == import_lines(old(stored)@, rows@, string_views(payees@), rows@.len() as int),
        r == final(stored)@.len() - old(stored)@.len(),
        stored_wf(final(stored)@),
{
    let ghost start = stored@;
    let ghost pv = string_views(payees@);
    let start_len = stored.len();
    let mut added: usize = 0;
    for i in 0..rows.len()
        invariant
            pv == string_views(payees@),
            payees@.len() == rows@.len(),
            rows_wf(rows@),
            stored_wf(stored@),
            stored@ == import_lines(start, rows@, pv, i as int),
            stored@.len() == start.len() + added,
            start_len == start.len(),
    {
        let row = &rows[i];
        assert(row.amount.wf());
        assert(pv[i as int] == payees@[i as int]@);
        let dup = is_duplicate(stored, row, payees[i].as_str());
        if !dup {
            let ext = match &row.external_id {
                Some(e) => Some(e.clone()),
                None => None,
            };
            stored.push(
                StoredStatementLine {
                    statement_date: row.date,
                    amount: row.amount,
                    description: row.description.clone(),
                    external_id: ext,
                },
            );
            added = stored.len() - start_len;
        }
        assert(stored@ == import_lines(start, rows@, pv, i + 1));
    }
    added
}

proof fn lemma_import_keeps_prefix(
    stored: Seq<StoredStatementLine>,
    rows: Seq<StatementRow>,
    payees: Seq<Seq<char>>,
    m: int,
    n: int,
)
    requires
        0 <= m <= n,
    ensures
        import_lines(stored, rows, payees, m).len() <= import_lines(stored, rows, payees, n).len(),
        forall|j: int|
            0 <= j < import_lines(stored, rows, payees, m).len() ==> #[trigger] import_lines(
                stored,
                rows,
                payees,
                n,
            )[j] == import_lines(stored, rows, payees, m)[j],
    decreases n - m,
{
    if m < n {
        lemma_import_keeps_prefix(stored, rows, payees, m, n - 1);
    }
}

proof fn lemma_first_import_covers(
    stored: Seq<StoredStatementLine>,
    rows: Seq<StatementRow>,
    payees: Seq<Seq<char>>,
    n: int,
)
    requires
        0 <= n <= rows.len(),
        payees.len() == rows.len(),
        forall|i: int|
            0 <= i < rows.len() ==> (#[trigger] rows[i]).external_id is Some || rows[i].description@
                == payees[i],
    ensures
        forall|i: int|
            0 <= i < n ==> has_duplicate(
                import_lines(stored, rows, payees, n),
                #[trigger] rows[i],
                payees[i],
            ),
    decreases n,
{
    if n > 0 {
        lemma_first_import_covers(stored, rows, payees, n - 1);
        lemma_import_keeps_prefix(stored, rows, payees, n - 1, n);
        let prev = import_lines(stored, rows, payees, n - 1);
        let now = import_lines(stored, rows, payees, n);
        assert forall|i: int| 0 <= i < n implies has_duplicate(now, #[trigger] rows[i], payees[i]) by {
            if i < n - 1 {
                let k = choose|k: int|
                    0 <= k < prev.len() && #[trigger] duplicates(
                        prev[k],
                        opt_text(rows[i].external_id),
                        rows[i].date,
                        rows[i].amount,
                        payees[i],
                    );
                assert(now[k] == prev[k]);
            } else if !has_duplicate(prev, rows[i], payees[i]) {
                let x = stored_of(rows[i]);
                assert(now[prev.len() as int] == x);
                assert(duplicates(x, opt_text(rows[i].external_id), rows[i].date, rows[i].amount, payees[i]));
            }
        }
    }
}

proof fn lemma_import_of_duplicates(
    stored: Seq<StoredStatementLine>,
    rows: Seq<StatementRow>,
    payees: Seq<Seq<char>>,
    n: int,
)
    requires
        0 <= n <= rows.len(),
        forall|i: int| 0 <= i < n ==> has_duplicate(stored, #[trigger] rows[i], payees[i]),
    ensures
        import_lines(stored, rows, payees, n) == stored,
    decreases n,
{
    if n > 0 {
        lemma_import_of_duplicates(stored, rows, payees, n - 1);
        assert(has_duplicate(stored, rows[n - 1], payees[n - 1]));
    }
}

/// Re-importing a statement adds no lines: once a statement has been
/// imported, importing it again stores nothing more, every line being
/// found as a duplicate (by external id, or by date, amount and payee),
/// for statements whose lines carry external ids or whose descriptions are
/// their own normalized payees.
pub proof fn reimport_adds_nothing(stored: Seq<StoredStatementLine>, rows: Seq<StatementRow>, payees: Seq<Seq<char>>)
    requires
        payees.len() == rows.len(),
        forall|i: int|
            0 <= i < rows.len() ==> (#[trigger] rows[i]).external_id is Some || rows[i].description@
                == payees[i],
    ensures
        forall|i: int|
            0 <= i < rows.len() ==> has_duplicate(
                import_lines(stored, rows, payees, rows.len() as int),
                #[trigger] rows[i],
                payees[i],
            ),
        import_lines(
            import_lines(stored, rows, payees, rows.len() as int),
            rows,
            payees,
            rows.len() as int,
        ) == import_lines(stored, rows, payees, rows.len() as int),
{
    lemma_first_import_covers(stored, rows, payees, rows.len() as int);
    lemma_import_of_duplicates(
        import_lines(stored, rows, payees, rows.len() as int),
        rows,
        payees,
        rows.len() as int,
    );
}

} // verus!
