//! CSV text with a header row, as the `csv` crate reads it: the header
//! fields and the data records, up to and including the first record
//! that fails.
use vstd::prelude::*;

verus! {

/// A CSV text read into its header and records; a record that fails is
/// the last one read.
pub struct CsvTable {
    pub headers: Result<Vec<String>, String>,
    pub records: Vec<Result<Vec<String>, String>>,
}

pub open spec fn fields_view(v: Vec<String>) -> Seq<Seq<char>> {
    v@.map_values(|s: String| s@)
}

pub open spec fn result_view(r: Result<Vec<String>, String>) -> Result<Seq<Seq<char>>, Seq<char>> {
    match r {
        Ok(v) => Ok(fields_view(v)),
        Err(e) => Err(e@),
    }
}

/// The header and records as contracts see them.
pub open spec fn table_view(t: CsvTable) -> (Result<Seq<Seq<char>>, Seq<char>>, Seq<Result<Seq<Seq<char>>, Seq<char>>>) {
    (result_view(t.headers), t.records@.map_values(|r: Result<Vec<String>, String>| result_view(r)))
}

/// What `csv::Reader` (headers on, records of equal length) reads from a
/// text: the header fields or the error's text, then each record's
/// fields, stopping after the first record that fails.
pub uninterp spec fn csv_read(text: Seq<char>) -> (Result<Seq<Seq<char>>, Seq<char>>, Seq<Result<Seq<Seq<char>>, Seq<char>>>);

/// Reads a CSV text with `csv::Reader::from_reader`: `headers`, then
/// `records` until one fails; errors are kept as their `Display` text.
/// Its result depends on the text alone and is named `csv_read`; the CSV
/// dialect itself is not stated here.
#[verifier::external_body]
pub(crate) fn read_csv(text: &str) -> (r: CsvTable)
    ensures
        table_view(r) == csv_read(text@),
{
    let mut rdr = csv::Reader::from_reader(text.as_bytes());
    let headers = rdr.headers().map(|h| h.iter().map(String::from).collect()).map_err(|e| e.to_string());
    let mut records = Vec::new();
    for rec in rdr.records() {
        let failed = rec.is_err();
        records.push(rec.map(|r| r.iter().map(String::from).collect()).map_err(|e| e.to_string()));
        if failed {
            break;
        }
    }
    CsvTable { headers, records }
}

} // verus!
