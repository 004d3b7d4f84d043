//! Document uploads and the document inbox: accepted file types, the
//! size cap, tags, which uploads get text recognition, and the search
//! filters of the bind page.
use vstd::prelude::*;
use crate::amount::{Amount, decimal_parse, parse_amount, int_text, int_to_text};
use crate::date::{Date, chrono_parse_date, parse_date_with_format};
use crate::error::{AppError, fails_validation, validation};
use crate::text::{
    cat, chars_to_string, str_equal, str_to_chars, string_views, trim_seq, trim_chars, one_of,
    occurs_at,
};
use crate::wrap::{split_on, char_views};

verus! {

/// MIME types a document may have.
pub open spec fn allowed_mime() -> Seq<Seq<char>> {
    seq![
        "image/png"@,
        "image/jpeg"@,
        "image/gif"@,
        "image/webp"@,
        "image/heic"@,
        "image/heif"@,
        "application/pdf"@,
        "text/plain"@,
        "text/csv"@,
        "application/vnd.openxmlformats-officedocument.spreadsheetml.sheet"@,
        "application/vnd.openxmlformats-officedocument.wordprocessingml.document"@,
        "application/vnd.openxmlformats-officedocument.presentationml.presentation"@,
        "application/vnd.oasis.opendocument.spreadsheet"@,
        "application/vnd.oasis.opendocument.text"@,
        "application/vnd.oasis.opendocument.presentation"@,
        "application/zip"@,
    ]
}

fn allowed_mime_list() -> (r: Vec<&'static str>)
    ensures
        r@.map_values(|s: &str| s@) == allowed_mime(),
{
    let r = vec![
        "image/png",
        "image/jpeg",
        "image/gif",
        "image/webp",
        "image/heic",
        "image/heif",
        "application/pdf",
        "text/plain",
        "text/csv",
        "application/vnd.openxmlformats-officedocument.spreadsheetml.sheet",
        "application/vnd.openxmlformats-officedocument.wordprocessingml.document",
        "application/vnd.openxmlformats-officedocument.presentationml.presentation",
        "application/vnd.oasis.opendocument.spreadsheet",
        "application/vnd.oasis.opendocument.text",
        "application/vnd.oasis.opendocument.presentation",
        "application/zip",
    ];
    assert(r@.map_values(|s: &str| s@) =~= allowed_mime());
    r
}

/// The refusal of a file type that is not accepted.
pub fn check_mime(mime: &str) -> (r: Result<(), AppError>)
    ensures
        one_of(mime@, allowed_mime()) ==> r is Ok,
        !one_of(mime@, allowed_mime()) ==> fails_validation(r, "Unsupported file type: "@ + mime@),
{
    let list = allowed_mime_list();
    let ghost views = list@.map_values(|s: &str| s@);
    for i in 0..list.len()
        invariant
            views == list@.map_values(|s: &str| s@),
            views == allowed_mime(),
            forall|k: int| 0 <= k < i ==> views[k] != mime@,
    {
        assert(views[i as int] == list@[i as int]@);
        if str_equal(list[i], mime) {
            return Ok(());
        }
    }
    Err(AppError::Validation(cat("Unsupported file type: ", mime)))
}

/// The refusal of a file whose size passes the cap.
pub fn check_size(total: usize, max_bytes: usize) -> (r: Result<(), AppError>)
    ensures
        total <= max_bytes ==> r is Ok,
        total > max_bytes ==> fails_validation(
            r,
            "File too large (max "@ + int_text(max_bytes as int) + " bytes)"@,
        ),
{
    if total > max_bytes {
        let a = cat("File too large (max ", chars_to_string(int_to_text(max_bytes as i128).as_slice()).as_str());
        return Err(AppError::Validation(cat(a.as_str(), " bytes)")));
    }
    Ok(())
}

/// The pieces, trimmed, without the empty ones.
pub open spec fn trimmed_nonempty(ps: Seq<Seq<char>>) -> Seq<Seq<char>>
    decreases ps.len(),
{
    if ps.len() == 0 {
        Seq::empty()
    } else {
        let prev = trimmed_nonempty(ps.drop_last());
        let t = trim_seq(ps.last());
        if t.len() > 0 {
            prev.push(t)
        } else {
            prev
        }
    }
}

/// Tags from a comma-separated field: each piece trimmed, empty ones
/// dropped.
pub open spec fn tags_of(field: Seq<char>) -> Seq<Seq<char>> {
    trimmed_nonempty(split_on(field, ','))
}

pub fn parse_tags(field: &str) -> (r: Vec<String>)
    ensures
        string_views(r@) == tags_of(field@),
{
    let pieces = crate::wrap::split_chars_on(&str_to_chars(field), ',');
    let ghost ps = char_views(pieces@);
    let mut out: Vec<String> = Vec::new();
    for i in 0..pieces.len()
        invariant
            ps == char_views(pieces@),
            ps == split_on(field@, ','),
            string_views(out@) == trimmed_nonempty(ps.subrange(0, i as int)),
    {
        let t = trim_chars(&pieces[i]);
        let ghost prev = out@;
        assert(ps.subrange(0, i + 1).drop_last() =~= ps.subrange(0, i as int));
        assert(ps[i as int] == pieces@[i as int]@);
        if t.len() > 0 {
            out.push(chars_to_string(t.as_slice()));
            assert(string_views(out@) =~= string_views(prev).push(t@));
        }
    }
    assert(ps.subrange(0, ps.len() as int) =~= ps);
    out
}

/// Uploads that get text recognition: images and PDFs, unless the
/// request opted out (`?ocr=false`).
pub open spec fn wants_ocr(mime: Seq<char>, skip_ocr: bool) -> bool {
    !skip_ocr && (occurs_at(mime, "image/"@, 0) || mime == "application/pdf"@)
}

pub fn should_ocr(mime: &str, skip_ocr: bool) -> (r: bool)
    ensures
        r == wants_ocr(mime@, skip_ocr),
{
    if skip_ocr {
        return false;
    }
    let m = str_to_chars(mime);
    let p = str_to_chars("image/");
    let mut starts = m.len() >= p.len();
    if starts {
        for i in 0..p.len()
            invariant
                p@.len() <= m@.len(),
                starts == (forall|k: int| 0 <= k < i ==> m@[k] == p@[k]),
        {
            if m[i] != p[i] {
                starts = false;
            }
        }
        assert(starts == occurs_at(m@, p@, 0)) by {
            if starts {
                assert(m@.subrange(0, p@.len() as int) =~= p@);
            } else {
                if occurs_at(m@, p@, 0) {
                    assert forall|k: int| 0 <= k < p@.len() implies m@[k] == p@[k] by {
                        assert(m@.subrange(0, p@.len() as int)[k] == m@[k]);
                    }
                }
            }
        }
    }
    starts || str_equal(mime, "application/pdf")
}

/// The query flag that skips text recognition.
pub fn skip_ocr_flag(ocr: Option<&str>) -> (r: bool)
    ensures
        r == (match ocr {
            Some(v) => v@ == "false"@,
            None => false,
        }),
{
    match ocr {
        Some(v) => str_equal(v, "false"),
        None => false,
    }
}

/// An upload request without any file.
pub fn check_file_count(count: usize) -> (r: Result<(), AppError>)
    ensures
        count == 0 ==> fails_validation(r, "No file provided"@),
        count > 0 ==> r is Ok,
{
    if count == 0 {
        return Err(validation("No file provided"));
    }
    Ok(())
}

pub struct BindSearch {
    pub q: Option<String>,
    pub from: Option<String>,
    pub to: Option<String>,
    pub amount: Option<String>,
}

impl Default for BindSearch {
    fn default() -> (r: BindSearch)
        ensures
            r.q is None && r.from is None && r.to is None && r.amount is None,
    {
        BindSearch { q: None, from: None, to: None, amount: None }
    }
}

/// The filters of a bind-page search; fields that are empty or do not
/// parse filter nothing.
pub struct BindFilters {
    pub description: Option<String>,
    pub from: Option<Date>,
    pub to: Option<Date>,
    pub amount: Option<Amount>,
}

pub open spec fn nonempty_field(f: Option<String>) -> Option<Seq<char>> {
    match f {
        Some(s) => if s@.len() > 0 {
            Some(s@)
        } else {
            None
        },
        None => None,
    }
}

pub open spec fn date_filter(f: Option<String>) -> Option<Date> {
    match nonempty_field(f) {
        Some(s) => match chrono_parse_date(s, "%Y-%m-%d"@) {
            Ok((y, m, d)) => Some(Date { year: y, month: m, day: d }),
            Err(_) => None,
        },
        None => None,
    }
}

pub open spec fn amount_filter(f: Option<String>) -> Option<Amount> {
    match nonempty_field(f) {
        Some(s) => match decimal_parse(s) {
            Ok((m, sc)) => Some(Amount { mantissa: m, scale: sc }),
            Err(_) => None,
        },
        None => None,
    }
}

fn nonempty(f: &Option<String>) -> (r: Option<&str>)
    ensures
        match r {
            Some(s) => nonempty_field(*f) == Some(s@),
            None => nonempty_field(*f) is None,
        },
{
    match f {
        Some(s) => if s.as_str().is_empty() {
            None
        } else {
            Some(s.as_str())
        },
        None => None,
    }
}

pub fn bind_filters(search: &BindSearch) -> (r: BindFilters)
    ensures
        match r.description {
            Some(d) => nonempty_field(search.q) == Some(d@),
            None => nonempty_field(search.q) is None,
        },
        r.from == date_filter(search.from),
        r.to == date_filter(search.to),
        r.amount == amount_filter(search.amount),
{
    let description = match nonempty(&search.q) {
        Some(s) => Some(s.to_string()),
        None => None,
    };
    let from = match nonempty(&search.from) {
        Some(s) => match parse_date_with_format(s, "%Y-%m-%d") {
            Ok(d) => Some(d),
            Err(_) => None,
        },
        None => None,
    };
    let to = match nonempty(&search.to) {
        Some(s) => match parse_date_with_format(s, "%Y-%m-%d") {
            Ok(d) => Some(d),
            Err(_) => None,
        },
        None => None,
    };
    let amount = match nonempty(&search.amount) {
        Some(s) => match parse_amount(s) {
            Ok(a) => Some(a),
            Err(_) => None,
        },
        None => None,
    };
    BindFilters { description, from, to, amount }
}

} // verus!
