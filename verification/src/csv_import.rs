//! CSV import column mapping: header auto-detection, the column map with
//! its "not mapped" sentinel, and the quote-aware line tokenizer.
use vstd::prelude::*;
use crate::text::{
    is_blank, all_whitespace,
    str_to_chars, chars_to_string, contains_chars, contains_seq, lower_seq, upper_seq, upper_char, lower_char, is_ascii_lower, is_ascii_upper,
    to_ascii_lowercase_chars,
};
use crate::lines::{lines_of, split_lines};
use crate::text::{trim_chars, trim_seq, string_views, joined};
use crate::amount::{Amount, parse_amount, parsed_amount, checked_sub};
use crate::date::{Date, parse_date_with_format, parsed_date};

verus! {

/// Column index per canonical import field; `-1` means "not mapped".
#[derive(Debug, Clone, Copy, PartialEq, Eq)]
pub struct ColumnMap {
    pub date: i32,
    pub description: i32,
    pub debit: i32,
    pub credit: i32,
    pub account: i32,
    pub payee: i32,
    pub reference: i32,
    pub amount_in: i32,
}

/// The sentinel that marks an unmapped column.
pub fn default_none() -> (r: i32)
    ensures
        r == -1,
{
    -1
}

/// A column index as an optional position: negative values are "not mapped".
pub open spec fn opt_index(v: i32) -> Option<usize> {
    if v < 0 {
        None
    } else {
        Some(v as usize)
    }
}

pub fn usize_from_i32(v: i32) -> (r: Option<usize>)
    ensures
        r == opt_index(v),
{
    if v < 0 {
        None
    } else {
        Some(v as usize)
    }
}

impl Default for ColumnMap {
    fn default() -> (r: Self)
        ensures
            r == (ColumnMap {
                date: 0i32,
                description: 0i32,
                debit: -1i32,
                credit: -1i32,
                account: -1i32,
                payee: -1i32,
                reference: -1i32,
                amount_in: -1i32,
            }),
    {
        ColumnMap {
            date: 0,
            description: 0,
            debit: -1,
            credit: -1,
            account: -1,
            payee: -1,
            reference: -1,
            amount_in: -1,
        }
    }
}

impl ColumnMap {
    pub fn debit_opt(&self) -> (r: Option<usize>)
        ensures
            r == opt_index(self.debit),
    {
        usize_from_i32(self.debit)
    }

    pub fn credit_opt(&self) -> (r: Option<usize>)
        ensures
            r == opt_index(self.credit),
    {
        usize_from_i32(self.credit)
    }

    pub fn account_opt(&self) -> (r: Option<usize>)
        ensures
            r == opt_index(self.account),
    {
        usize_from_i32(self.account)
    }

    pub fn payee_opt(&self) -> (r: Option<usize>)
        ensures
            r == opt_index(self.payee),
    {
        usize_from_i32(self.payee)
    }

    pub fn reference_opt(&self) -> (r: Option<usize>)
        ensures
            r == opt_index(self.reference),
    {
        usize_from_i32(self.reference)
    }

    pub fn amount_in_opt(&self) -> (r: Option<usize>)
        ensures
            r == opt_index(self.amount_in),
    {
        usize_from_i32(self.amount_in)
    }
}

// ---------------------------------------------------------------------
// Header auto-detection
// ---------------------------------------------------------------------

/// Some candidate of `cands` occurs in `h`.
pub open spec fn matches_any(h: Seq<char>, cands: Seq<Seq<char>>) -> bool {
    exists|j: int| 0 <= j < cands.len() && #[trigger] contains_seq(h, cands[j])
}

/// Index of the first header (ASCII lower-cased) that contains one of the
/// candidates, or -1.
pub open spec fn first_match_from(headers: Seq<Seq<char>>, cands: Seq<Seq<char>>, i: int) -> int
    decreases headers.len() - i,
{
    if i >= headers.len() || i < 0 {
        -1
    } else if matches_any(lower_seq(headers[i]), cands) {
        i
    } else {
        first_match_from(headers, cands, i + 1)
    }
}

pub open spec fn first_match(headers: Seq<Seq<char>>, cands: Seq<Seq<char>>) -> int {
    first_match_from(headers, cands, 0)
}

pub open spec fn date_candidates() -> Seq<Seq<char>> {
    seq!["date"@, "txn_date"@, "transaction date"@]
}

pub open spec fn description_candidates() -> Seq<Seq<char>> {
    seq!["description"@, "memo"@, "narrative"@, "details"@]
}

pub open spec fn debit_candidates() -> Seq<Seq<char>> {
    seq!["debit"@, "withdrawal"@, "amount out"@]
}

pub open spec fn credit_candidates() -> Seq<Seq<char>> {
    seq!["credit"@, "deposit"@, "amount in"@]
}

pub open spec fn account_candidates() -> Seq<Seq<char>> {
    seq!["account"@, "acct"@]
}

pub open spec fn payee_candidates() -> Seq<Seq<char>> {
    seq!["payee"@, "vendor"@, "merchant"@]
}

pub open spec fn reference_candidates() -> Seq<Seq<char>> {
    seq!["reference"@, "ref"@, "check"@, "memo"@]
}

pub open spec fn amount_candidates() -> Seq<Seq<char>> {
    seq!["amount"@]
}

/// The mapping that auto-detection proposes for `headers`: each field takes
/// the first header that names it; a single signed amount column is
/// proposed only when neither a debit nor a credit column was found.
pub open spec fn detected_map(headers: Seq<Seq<char>>) -> ColumnMap {
    let debit = first_match(headers, debit_candidates());
    let credit = first_match(headers, credit_candidates());
    ColumnMap {
        date: first_match(headers, date_candidates()) as i32,
        description: first_match(headers, description_candidates()) as i32,
        debit: debit as i32,
        credit: credit as i32,
        account: first_match(headers, account_candidates()) as i32,
        payee: first_match(headers, payee_candidates()) as i32,
        reference: first_match(headers, reference_candidates()) as i32,
        amount_in: if debit < 0 && credit < 0 {
            first_match(headers, amount_candidates()) as i32
        } else {
            -1i32
        },
    }
}

fn date_candidate_list() -> (r: Vec<Vec<char>>)
    ensures
        r@.map_values(|c: Vec<char>| c@) == date_candidates(),
{
    let mut r: Vec<Vec<char>> = Vec::new();
    r.push(str_to_chars("date"));
    r.push(str_to_chars("txn_date"));
    r.push(str_to_chars("transaction date"));
    assert(r@.map_values(|c: Vec<char>| c@) =~= date_candidates());
    r
}

fn description_candidate_list() -> (r: Vec<Vec<char>>)
    ensures
        r@.map_values(|c: Vec<char>| c@) == description_candidates(),
{
    let mut r: Vec<Vec<char>> = Vec::new();
    r.push(str_to_chars("description"));
    r.push(str_to_chars("memo"));
    r.push(str_to_chars("narrative"));
    r.push(str_to_chars("details"));
    assert(r@.map_values(|c: Vec<char>| c@) =~= description_candidates());
    r
}

fn debit_candidate_list() -> (r: Vec<Vec<char>>)
    ensures
        r@.map_values(|c: Vec<char>| c@) == debit_candidates(),
{
    let mut r: Vec<Vec<char>> = Vec::new();
    r.push(str_to_chars("debit"));
    r.push(str_to_chars("withdrawal"));
    r.push(str_to_chars("amount out"));
    assert(r@.map_values(|c: Vec<char>| c@) =~= debit_candidates());
    r
}

fn credit_candidate_list() -> (r: Vec<Vec<char>>)
    ensures
        r@.map_values(|c: Vec<char>| c@) == credit_candidates(),
{
    let mut r: Vec<Vec<char>> = Vec::new();
    r.push(str_to_chars("credit"));
    r.push(str_to_chars("deposit"));
    r.push(str_to_chars("amount in"));
    assert(r@.map_values(|c: Vec<char>| c@) =~= credit_candidates());
    r
}

fn account_candidate_list() -> (r: Vec<Vec<char>>)
    ensures
        r@.map_values(|c: Vec<char>| c@) == account_candidates(),
{
    let mut r: Vec<Vec<char>> = Vec::new();
    r.push(str_to_chars("account"));
    r.push(str_to_chars("acct"));
    assert(r@.map_values(|c: Vec<char>| c@) =~= account_candidates());
    r
}

fn payee_candidate_list() -> (r: Vec<Vec<char>>)
    ensures
        r@.map_values(|c: Vec<char>| c@) == payee_candidates(),
{
    let mut r: Vec<Vec<char>> = Vec::new();
    r.push(str_to_chars("payee"));
    r.push(str_to_chars("vendor"));
    r.push(str_to_chars("merchant"));
    assert(r@.map_values(|c: Vec<char>| c@) =~= payee_candidates());
    r
}

fn reference_candidate_list() -> (r: Vec<Vec<char>>)
    ensures
        r@.map_values(|c: Vec<char>| c@) == reference_candidates(),
{
    let mut r: Vec<Vec<char>> = Vec::new();
    r.push(str_to_chars("reference"));
    r.push(str_to_chars("ref"));
    r.push(str_to_chars("check"));
    r.push(str_to_chars("memo"));
    assert(r@.map_values(|c: Vec<char>| c@) =~= reference_candidates());
    r
}

fn amount_candidate_list() -> (r: Vec<Vec<char>>)
    ensures
        r@.map_values(|c: Vec<char>| c@) == amount_candidates(),
{
    let mut r: Vec<Vec<char>> = Vec::new();
    r.push(str_to_chars("amount"));
    assert(r@.map_values(|c: Vec<char>| c@) =~= amount_candidates());
    r
}

fn any_candidate(h: &Vec<char>, cands: &Vec<Vec<char>>) -> (r: bool)
    ensures
        r == matches_any(h@, cands@.map_values(|c: Vec<char>| c@)),
{
    let ghost cs = cands@.map_values(|c: Vec<char>| c@);
    for j in 0..cands.len()
        invariant
            cs == cands@.map_values(|c: Vec<char>| c@),
            forall|t: int| 0 <= t < j ==> !contains_seq(h@, #[trigger] cs[t]),
    {
        if contains_chars(h.as_slice(), cands[j].as_slice()) {
            assert(contains_seq(h@, cs[j as int]));
            return true;
        }
    }
    false
}

fn find_column(lc: &Vec<Vec<char>>, cands: &Vec<Vec<char>>, Ghost(headers): Ghost<Seq<Seq<char>>>) -> (r: i32)
    requires
        lc@.len() == headers.len(),
        headers.len() <= i32::MAX,
        forall|i: int| 0 <= i < headers.len() ==> (#[trigger] lc@[i])@ == lower_seq(headers[i]),
    ensures
        r as int == first_match(headers, cands@.map_values(|c: Vec<char>| c@)),
{
    let ghost cs = cands@.map_values(|c: Vec<char>| c@);
    let mut i: usize = 0;
    while i < lc.len()
        invariant
            lc@.len() == headers.len(),
            headers.len() <= i32::MAX,
            i <= lc@.len(),
            cs == cands@.map_values(|c: Vec<char>| c@),
            forall|k: int| 0 <= k < headers.len() ==> (#[trigger] lc@[k])@ == lower_seq(headers[k]),
            first_match(headers, cs) == first_match_from(headers, cs, i as int),
        decreases lc@.len() - i,
    {
        if any_candidate(&lc[i], cands) {
            return i as i32;
        }
        i = i + 1;
    }
    -1
}

/// Heuristic header -> field mapping (`auto_detect`).
pub fn auto_detect(headers: &Vec<String>) -> (m: ColumnMap)
    requires
        headers@.len() <= i32::MAX,
    ensures
        m == detected_map(headers@.map_values(|h: String| h@)),
{
    let ghost hs = headers@.map_values(|h: String| h@);
    let mut lc: Vec<Vec<char>> = Vec::new();
    for i in 0..headers.len()
        invariant
            hs == headers@.map_values(|h: String| h@),
            lc@.len() == i,
            forall|k: int| 0 <= k < i ==> (#[trigger] lc@[k])@ == lower_seq(hs[k]),
    {
        let h = str_to_chars(headers[i].as_str());
        lc.push(to_ascii_lowercase_chars(&h));
    }
    let date = find_column(&lc, &date_candidate_list(), Ghost(hs));
    let description = find_column(
        &lc,
        &description_candidate_list(),
        Ghost(hs),
    );
    let debit = find_column(&lc, &debit_candidate_list(), Ghost(hs));
    let credit = find_column(&lc, &credit_candidate_list(), Ghost(hs));
    let account = find_column(&lc, &account_candidate_list(), Ghost(hs));
    let payee = find_column(&lc, &payee_candidate_list(), Ghost(hs));
    let reference = find_column(
        &lc,
        &reference_candidate_list(),
        Ghost(hs),
    );
    let amount_in = if debit < 0 && credit < 0 {
        find_column(&lc, &amount_candidate_list(), Ghost(hs))
    } else {
        -1
    };
    ColumnMap { date, description, debit, credit, account, payee, reference, amount_in }
}

proof fn lemma_first_match_from_case(
    a: Seq<Seq<char>>,
    b: Seq<Seq<char>>,
    cands: Seq<Seq<char>>,
    i: int,
)
    requires
        a.len() == b.len(),
        forall|k: int| 0 <= k < a.len() ==> lower_seq(#[trigger] a[k]) == lower_seq(b[k]),
    ensures
        first_match_from(a, cands, i) == first_match_from(b, cands, i),
    decreases a.len() - i,
{
    if 0 <= i < a.len() {
        assert(lower_seq(a[i]) == lower_seq(b[i]));
        lemma_first_match_from_case(a, b, cands, i + 1);
    }
}

proof fn lemma_lower_of_upper(h: Seq<char>)
    ensures
        lower_seq(upper_seq(h)) == lower_seq(h),
{
    assert forall|k: int| 0 <= k < h.len() implies #[trigger] lower_seq(upper_seq(h))[k]
        == lower_seq(h)[k] by {
        let c = h[k];
        let u = upper_char(c);
        if is_ascii_lower(c) {
            assert(lower_char(u) == c) by {
                assert((u as u32) == (c as u32) - 32);
            }
        } else if is_ascii_upper(c) {
            assert(u == c);
        }
    }
    assert(lower_seq(upper_seq(h)) =~= lower_seq(h));
}

/// Header detection ignores ASCII case: two header rows that agree once
/// lower-cased are given the same mapping.
pub proof fn detection_ignores_case(a: Seq<Seq<char>>, b: Seq<Seq<char>>)
    requires
        a.len() == b.len(),
        forall|k: int| 0 <= k < a.len() ==> lower_seq(#[trigger] a[k]) == lower_seq(b[k]),
    ensures
        detected_map(a) == detected_map(b),
{
    lemma_first_match_from_case(a, b, date_candidates(), 0);
    lemma_first_match_from_case(a, b, description_candidates(), 0);
    lemma_first_match_from_case(a, b, debit_candidates(), 0);
    lemma_first_match_from_case(a, b, credit_candidates(), 0);
    lemma_first_match_from_case(a, b, account_candidates(), 0);
    lemma_first_match_from_case(a, b, payee_candidates(), 0);
    lemma_first_match_from_case(a, b, reference_candidates(), 0);
    lemma_first_match_from_case(a, b, amount_candidates(), 0);
}

/// Upper-casing every header (ASCII) leaves the detected mapping as it is.
pub proof fn detection_of_upper_cased_headers(headers: Seq<Seq<char>>)
    ensures
        detected_map(headers.map_values(|h: Seq<char>| upper_seq(h))) == detected_map(headers),
{
    let u = headers.map_values(|h: Seq<char>| upper_seq(h));
    assert forall|k: int| 0 <= k < u.len() implies lower_seq(#[trigger] u[k]) == lower_seq(
        headers[k],
    ) by {
        lemma_lower_of_upper(headers[k]);
    }
    detection_ignores_case(u, headers);
}

/// `auto_detect` ignores ASCII case: for header rows `headers` and `upper`
/// where each header of `upper` is the ASCII upper-casing of the header of
/// `headers` at the same place, the mapping `auto_detect` gives (its
/// `detected_map` of the texts) is the same for both.
pub proof fn auto_detect_ignores_case(headers: Seq<String>, upper: Seq<String>)
    requires
        upper.len() == headers.len(),
        forall|k: int| 0 <= k < headers.len() ==> (#[trigger] upper[k])@ == upper_seq(headers[k]@),
    ensures
        detected_map(upper.map_values(|h: String| h@)) == detected_map(headers.map_values(|h: String| h@)),
{
    let a = upper.map_values(|h: String| h@);
    let b = headers.map_values(|h: String| h@);
    assert forall|k: int| 0 <= k < a.len() implies lower_seq(#[trigger] a[k]) == lower_seq(b[k]) by {
        lemma_lower_of_upper(headers[k]@);
    }
    detection_ignores_case(a, b);
}

// ---------------------------------------------------------------------
// Line tokenizer
// ---------------------------------------------------------------------

/// Tokenizer state after reading `line`: completed fields, the field in
/// progress, and whether a quoted section is open. A `'"'` toggles quoting
/// and is dropped; a `','` outside quotes ends the field.
pub open spec fn csv_scan(line: Seq<char>) -> (Seq<Seq<char>>, Seq<char>, bool)
    decreases line.len(),
{
    if line.len() == 0 {
        (Seq::empty(), Seq::empty(), false)
    } else {
        let (out, field, quoted) = csv_scan(line.drop_last());
        let ch = line.last();
        if ch == '"' {
            (out, field, !quoted)
        } else if ch == ',' && !quoted {
            (out.push(field), Seq::empty(), quoted)
        } else {
            (out, field.push(ch), quoted)
        }
    }
}

/// The fields of one CSV line. A line that yields no separator and no
/// character gives no field at all.
pub open spec fn csv_fields(line: Seq<char>) -> Seq<Seq<char>> {
    let (out, field, _) = csv_scan(line);
    if field.len() > 0 || out.len() > 0 {
        out.push(field)
    } else {
        out
    }
}

fn csv_fields_of_chars(line: &Vec<char>) -> (r: Vec<String>)
    ensures
        string_views(r@) == csv_fields(line@),
{
    let mut out: Vec<String> = Vec::new();
    let mut field: Vec<char> = Vec::new();
    let mut in_quotes = false;
    for i in 0..line.len()
        invariant
            (string_views(out@), field@, in_quotes) == csv_scan(line@.subrange(0, i as int)),
    {
        assert(line@.subrange(0, i + 1).drop_last() =~= line@.subrange(0, i as int));
        let ch = line[i];
        if ch == '"' {
            in_quotes = !in_quotes;
        } else if ch == ',' && !in_quotes {
            let ghost before = out@;
            out.push(chars_to_string(field.as_slice()));
            assert(string_views(out@) =~= string_views(before).push(field@));
            field = Vec::new();
        } else {
            field.push(ch);
        }
    }
    assert(line@.subrange(0, line@.len() as int) =~= line@);
    if field.len() > 0 || out.len() > 0 {
        let ghost before = out@;
        out.push(chars_to_string(field.as_slice()));
        assert(string_views(out@) =~= string_views(before).push(field@));
    }
    out
}

/// Split one CSV line into fields, honouring double-quoted sections.
pub fn parse_csv_line(line: &str) -> (r: Vec<String>)
    ensures
        string_views(r@) == csv_fields(line@),
{
    let chars = str_to_chars(line);
    csv_fields_of_chars(&chars)
}

/// A field wrapped in double quotes.
pub open spec fn quoted_field(f: Seq<char>) -> Seq<char> {
    seq!['"'] + f + seq!['"']
}

proof fn lemma_scan_append(p: Seq<char>, f: Seq<char>)
    requires
        !f.contains('"'),
        !f.contains(',') || csv_scan(p).2,
    ensures
        csv_scan(p + f) == (csv_scan(p).0, csv_scan(p).1 + f, csv_scan(p).2),
    decreases f.len(),
{
    if f.len() == 0 {
        assert(p + f =~= p);
        assert(csv_scan(p).1 + f =~= csv_scan(p).1);
    } else {
        let g = f.drop_last();
        assert(!g.contains('"')) by {
            if g.contains('"') {
                let k = choose|k: int| 0 <= k < g.len() && g[k] == '"';
                assert(f[k] == '"');
            }
        }
        assert(!g.contains(',') || csv_scan(p).2) by {
            if g.contains(',') {
                let k = choose|k: int| 0 <= k < g.len() && g[k] == ',';
                assert(f[k] == ',');
            }
        }
        lemma_scan_append(p, g);
        assert((p + f).drop_last() =~= p + g);
        assert((p + f).last() == f[f.len() - 1]);
        assert(f.last() == f[f.len() - 1]);
        assert(f.last() != '"') by {
            assert(f[f.len() - 1] == f.last());
        }
        assert(csv_scan(p).1 + g.push(f.last()) =~= csv_scan(p).1 + f);
    }
}

proof fn lemma_scan_one_char(p: Seq<char>, c: char)
    ensures
        csv_scan(p.push(c)) == (if c == '"' {
            (csv_scan(p).0, csv_scan(p).1, !csv_scan(p).2)
        } else if c == ',' && !csv_scan(p).2 {
            (csv_scan(p).0.push(csv_scan(p).1), Seq::<char>::empty(), csv_scan(p).2)
        } else {
            (csv_scan(p).0, csv_scan(p).1.push(c), csv_scan(p).2)
        }),
{
    assert(p.push(c).drop_last() =~= p);
}

proof fn lemma_scan_quoted(p: Seq<char>, f: Seq<char>)
    requires
        !f.contains('"'),
        !csv_scan(p).2,
        csv_scan(p).1.len() == 0,
    ensures
        csv_scan(p + quoted_field(f)) == (csv_scan(p).0, f, false),
{
    let p1 = p.push('"');
    lemma_scan_one_char(p, '"');
    lemma_scan_append(p1, f);
    lemma_scan_one_char(p1 + f, '"');
    assert(p + quoted_field(f) =~= (p1 + f).push('"'));
    assert(csv_scan(p).1 + f =~= f);
}

/// The fields, each wrapped in double quotes when `quote`.
pub open spec fn encoded_fields(fs: Seq<Seq<char>>, quote: bool) -> Seq<Seq<char>> {
    if quote {
        fs.map_values(|f: Seq<char>| quoted_field(f))
    } else {
        fs
    }
}

/// Scanning the first `n` fields joined, each quoted when `quote`.
proof fn lemma_scan_joined(fs: Seq<Seq<char>>, n: int, quote: bool)
    requires
        1 <= n <= fs.len(),
        forall|i: int| 0 <= i < fs.len() ==> !(#[trigger] fs[i]).contains('"'),
        !quote ==> forall|i: int| 0 <= i < fs.len() ==> !(#[trigger] fs[i]).contains(','),
    ensures
        csv_scan(joined(encoded_fields(fs.subrange(0, n), quote), seq![','])) == (
            fs.subrange(0, n - 1),
            fs[n - 1],
            false,
        ),
    decreases n,
{
    let parts = encoded_fields(fs.subrange(0, n), quote);
    assert(!fs[n - 1].contains('"'));
    if n == 1 {
        assert(joined(parts, seq![',']) == parts[0]);
        let e = Seq::<char>::empty();
        assert(csv_scan(e) == (Seq::<Seq<char>>::empty(), Seq::<char>::empty(), false));
        if quote {
            lemma_scan_quoted(e, fs[0]);
            assert(e + quoted_field(fs[0]) =~= quoted_field(fs[0]));
        } else {
            assert(!fs[0].contains(','));
            lemma_scan_append(e, fs[0]);
            assert(e + fs[0] =~= fs[0]);
        }
        assert(fs.subrange(0, 0) =~= Seq::<Seq<char>>::empty());
    } else {
        lemma_scan_joined(fs, n - 1, quote);
        let prev = encoded_fields(fs.subrange(0, n - 1), quote);
        assert(parts.drop_last() =~= prev);
        let line_prev = joined(prev, seq![',']);
        assert(joined(parts, seq![',']) == line_prev + seq![','] + parts.last());
        lemma_scan_one_char(line_prev, ',');
        assert(line_prev + seq![','] =~= line_prev.push(','));
        assert(fs.subrange(0, n - 2).push(fs[n - 2]) =~= fs.subrange(0, n - 1));
        let p = line_prev.push(',');
        if quote {
            lemma_scan_quoted(p, fs[n - 1]);
        } else {
            assert(!fs[n - 1].contains(','));
            lemma_scan_append(p, fs[n - 1]);
            assert(Seq::<char>::empty() + fs[n - 1] =~= fs[n - 1]);
        }
    }
}

/// Quoting round-trips: fields free of double quotes, each wrapped in
/// double quotes and joined with commas, parse back to themselves, commas
/// inside the fields included (a single empty field gives an empty line,
/// which has no field).
pub proof fn quoted_fields_round_trip(fs: Seq<Seq<char>>)
    requires
        forall|i: int| 0 <= i < fs.len() ==> !(#[trigger] fs[i]).contains('"'),
        fs.len() >= 2 || (fs.len() == 1 && fs[0].len() > 0),
    ensures
        csv_fields(joined(fs.map_values(|f: Seq<char>| quoted_field(f)), seq![','])) == fs,
{
    lemma_scan_joined(fs, fs.len() as int, true);
    assert(fs.subrange(0, fs.len() as int) =~= fs);
    assert(encoded_fields(fs, true) =~= fs.map_values(|f: Seq<char>| quoted_field(f)));
    assert(fs.subrange(0, fs.len() - 1).push(fs[fs.len() - 1]) =~= fs);
}

/// Fields free of commas and double quotes, joined with commas, parse back
/// to themselves.
pub proof fn plain_fields_round_trip(fs: Seq<Seq<char>>)
    requires
        forall|i: int| 0 <= i < fs.len() ==> !(#[trigger] fs[i]).contains('"'),
        forall|i: int| 0 <= i < fs.len() ==> !(#[trigger] fs[i]).contains(','),
        fs.len() >= 2 || (fs.len() == 1 && fs[0].len() > 0),
    ensures
        csv_fields(joined(fs, seq![','])) == fs,
{
    lemma_scan_joined(fs, fs.len() as int, false);
    assert(fs.subrange(0, fs.len() as int) =~= fs);
    assert(fs.subrange(0, fs.len() - 1).push(fs[fs.len() - 1]) =~= fs);
}

/// `parse_csv_line` round-trips quoted fields: for fields free of double
/// quotes (not a single empty one), the line that wraps each in double
/// quotes and joins them with commas parses (`csv_fields`, what
/// `parse_csv_line` returns) back to the same fields.
pub proof fn parse_csv_line_round_trips(fields: Seq<String>, line: Seq<char>)
    requires
        forall|i: int| 0 <= i < fields.len() ==> !(#[trigger] fields[i])@.contains('"'),
        fields.len() >= 2 || (fields.len() == 1 && fields[0]@.len() > 0),
        line == joined(string_views(fields).map_values(|f: Seq<char>| quoted_field(f)), seq![',']),
    ensures
        csv_fields(line) == string_views(fields),
{
    let fs = string_views(fields);
    assert forall|i: int| 0 <= i < fs.len() implies !(#[trigger] fs[i]).contains('"') by {
        assert(fs[i] == fields[i]@);
    }
    quoted_fields_round_trip(fs);
}

/// `parse_csv_line` splits a plain comma-joined line back into its fields
/// when none of them holds a comma or a double quote.
pub proof fn parse_csv_line_splits_plain_fields(fields: Seq<String>, line: Seq<char>)
    requires
        forall|i: int| 0 <= i < fields.len() ==> !(#[trigger] fields[i])@.contains('"'),
        forall|i: int| 0 <= i < fields.len() ==> !(#[trigger] fields[i])@.contains(','),
        fields.len() >= 2 || (fields.len() == 1 && fields[0]@.len() > 0),
        line == joined(string_views(fields), seq![',']),
    ensures
        csv_fields(line) == string_views(fields),
{
    let fs = string_views(fields);
    assert forall|i: int| 0 <= i < fs.len() implies !(#[trigger] fs[i]).contains('"') && !fs[i].contains(',') by {
        assert(fs[i] == fields[i]@);
    }
    plain_fields_round_trip(fs);
}

/// The header fields: those of the first line, or none for empty input.
pub open spec fn header_fields(csv: Seq<char>) -> Seq<Seq<char>> {
    let ls = lines_of(csv);
    if ls.len() > 0 {
        csv_fields(ls[0])
    } else {
        Seq::empty()
    }
}

pub fn parse_headers(csv: &str) -> (r: Vec<String>)
    ensures
        string_views(r@) == header_fields(csv@),
{
    let chars = str_to_chars(csv);
    let ls = split_lines(&chars);
    if ls.len() > 0 {
        assert(ls@.map_values(|l: Vec<char>| l@)[0] == ls@[0]@);
        csv_fields_of_chars(&ls[0])
    } else {
        Vec::new()
    }
}

/// A blank (all-whitespace) cell becomes `None`.
pub fn non_empty(s: String) -> (r: Option<String>)
    ensures
        r == (if is_blank(s@) { None } else { Some(s) }),
{
    let chars = str_to_chars(s.as_str());
    if all_whitespace(&chars) {
        None
    } else {
        Some(s)
    }
}

// ---------------------------------------------------------------------
// Row transformation
// ---------------------------------------------------------------------

/// One imported row.
#[derive(Debug)]
pub struct TransformedRow {
    pub date: Date,
    pub description: String,
    /// Empty when the source column is absent.
    pub payee: String,
    /// Empty when the source column is absent.
    pub reference: String,
    pub amount: Amount,
}

/// A row with its text fields as character sequences.
pub struct RowView {
    pub date: Date,
    pub description: Seq<char>,
    pub payee: Seq<char>,
    pub reference: Seq<char>,
    pub amount: Amount,
}

impl TransformedRow {
    pub open spec fn view(&self) -> RowView {
        RowView {
            date: self.date,
            description: self.description@,
            payee: self.payee@,
            reference: self.reference@,
            amount: self.amount,
        }
    }
}

/// The date formats tried, in order.
pub open spec fn import_date_formats() -> Seq<Seq<char>> {
    seq!["%Y-%m-%d"@, "%Y/%m/%d"@, "%d/%m/%Y"@, "%m/%d/%Y"@, "%d.%m.%Y"@, "%d-%m-%Y"@, "%Y%m%d"@]
}

pub open spec fn first_parsed_date(s: Seq<char>, fmts: Seq<Seq<char>>, i: int) -> Option<Date>
    decreases fmts.len() - i,
{
    if i < 0 || i >= fmts.len() {
        None
    } else if parsed_date(s, fmts[i]) is Some {
        parsed_date(s, fmts[i])
    } else {
        first_parsed_date(s, fmts, i + 1)
    }
}

/// The date of a cell: the trimmed text under the first format that accepts it.
pub open spec fn import_date(s: Seq<char>) -> Option<Date> {
    first_parsed_date(trim_seq(s), import_date_formats(), 0)
}

/// Parse a date cell, trying ISO, `yyyy/mm/dd`, `dd/mm/yyyy`, `mm/dd/yyyy`,
/// `dd.mm.yyyy`, `dd-mm-yyyy` and `yyyymmdd` in that order.
pub fn parse_date(s: &str) -> (r: Option<Date>)
    ensures
        r == import_date(s@),
        r matches Some(d) ==> d.wf(),
{
    let t = chars_to_string(trim_chars(&str_to_chars(s)).as_slice());
    let formats = ["%Y-%m-%d", "%Y/%m/%d", "%d/%m/%Y", "%m/%d/%Y", "%d.%m.%Y", "%d-%m-%Y", "%Y%m%d"];
    let ghost fs = import_date_formats();
    assert(formats@.map_values(|f: &str| f@) =~= fs);
    for i in 0..formats.len()
        invariant
            t@ == trim_seq(s@),
            fs == import_date_formats(),
            formats@.map_values(|f: &str| f@) == fs,
            formats@.len() == 7,
            import_date(s@) == first_parsed_date(trim_seq(s@), fs, i as int),
    {
        assert(formats@.map_values(|f: &str| f@)[i as int] == formats@[i as int]@);
        match parse_date_with_format(t.as_str(), formats[i]) {
            Ok(d) => {
                return Some(d);
            },
            Err(_) => {},
        }
    }
    None
}

/// The text of cell `idx`, empty when there is no such cell.
pub open spec fn cell(fields: Seq<Seq<char>>, idx: int) -> Seq<char> {
    if 0 <= idx < fields.len() {
        fields[idx]
    } else {
        Seq::empty()
    }
}

pub open spec fn opt_cell(fields: Seq<Seq<char>>, idx: Option<usize>) -> Seq<char> {
    match idx {
        Some(i) => cell(fields, i as int),
        None => Seq::empty(),
    }
}

/// Cell text with thousands separators removed, trimmed, as an amount.
pub open spec fn cell_amount(fields: Seq<Seq<char>>, idx: Option<usize>) -> Option<Amount> {
    match idx {
        Some(i) => if 0 <= i < fields.len() {
            parsed_amount(trim_seq(fields[i as int].filter(|c: char| c != ',')))
        } else {
            None
        },
        None => None,
    }
}

pub open spec fn amount_or_zero(a: Option<Amount>) -> Amount {
    match a {
        Some(x) => x,
        None => Amount { mantissa: 0, scale: 0 },
    }
}

/// The signed amount of a row from its cells as read (`None` for a cell
/// that is missing or does not parse): the amount column's when one is
/// mapped, otherwise debit minus credit, missing cells counting as zero;
/// `None` when that difference has no exact representation.
pub open spec fn signed_amount(
    amount_column: bool,
    amount: Option<Amount>,
    debit: Option<Amount>,
    credit: Option<Amount>,
) -> Option<Amount> {
    if amount_column {
        Some(amount_or_zero(amount))
    } else {
        let d = amount_or_zero(debit);
        let c = amount_or_zero(credit);
        if crate::amount::representable_at(d.value() - c.value(), crate::amount::max_scale(d, c) as nat) {
            Some(Amount {
                mantissa: crate::amount::mantissa_at(
                    d.value() - c.value(),
                    crate::amount::max_scale(d, c) as nat,
                ) as i128,
                scale: crate::amount::max_scale(d, c),
            })
        } else {
            None
        }
    }
}

/// The signed amount of a row: the amount column when mapped, otherwise
/// debit minus credit (missing or unparsable cells count as zero).
/// `None` when that difference has no exact representation.
pub open spec fn row_amount(fields: Seq<Seq<char>>, map: ColumnMap) -> Option<Amount> {
    signed_amount(
        opt_index(map.amount_in) is Some,
        cell_amount(fields, opt_index(map.amount_in)),
        cell_amount(fields, opt_index(map.debit)),
        cell_amount(fields, opt_index(map.credit)),
    )
}

/// The signed amount of a row from its cells as read (see
/// `signed_amount`).
pub fn row_signed_amount(
    amount_column: bool,
    amount: Option<Amount>,
    debit: Option<Amount>,
    credit: Option<Amount>,
) -> (r: Option<Amount>)
    requires
        amount matches Some(a) ==> a.wf(),
        debit matches Some(a) ==> a.wf(),
        credit matches Some(a) ==> a.wf(),
    ensures
        r == signed_amount(amount_column, amount, debit, credit),
        r matches Some(a) ==> a.wf(),
{
    let or_zero = |a: Option<Amount>| -> (z: Amount)
        requires
            a matches Some(x) ==> x.wf(),
        ensures
            z == amount_or_zero(a),
            z.wf(),
        {
            match a {
                Some(x) => x,
                None => Amount::zero(),
            }
        };
    if amount_column {
        return Some(or_zero(amount));
    }
    let d = or_zero(debit);
    let c = or_zero(credit);
    match checked_sub(d, c) {
        Some(a) => {
            proof {
                let v = d.value() - c.value();
                let sc = crate::amount::max_scale(d, c);
                crate::amount::lemma_exact_result(a, v, sc);
            }
            Some(a)
        },
        None => None,
    }
}

pub open spec fn clamp_index(v: i32) -> int {
    if v < 0 {
        0
    } else {
        v as int
    }
}

/// The row a data line yields, if any: blank lines, lines whose date does
/// not parse, and lines whose amount is unrepresentable yield none.
pub open spec fn row_of(line: Seq<char>, map: ColumnMap) -> Option<RowView> {
    let fields = csv_fields(line);
    if crate::text::is_blank(line) {
        None
    } else {
        match import_date(cell(fields, clamp_index(map.date))) {
            None => None,
            Some(date) => match row_amount(fields, map) {
                None => None,
                Some(amount) => Some(
                    RowView {
                        date,
                        description: trim_seq(cell(fields, clamp_index(map.description))),
                        payee: opt_cell(fields, opt_index(map.payee)),
                        reference: opt_cell(fields, opt_index(map.reference)),
                        amount,
                    },
                ),
            },
        }
    }
}

/// Rows of the data lines `ls[1..n]` (the first line is the header).
pub open spec fn rows_of_lines(ls: Seq<Seq<char>>, map: ColumnMap, n: int) -> Seq<RowView>
    decreases n,
{
    if n <= 1 {
        Seq::empty()
    } else {
        let prev = rows_of_lines(ls, map, n - 1);
        match row_of(ls[n - 1], map) {
            Some(r) => prev.push(r),
            None => prev,
        }
    }
}

pub open spec fn transformed(csv: Seq<char>, map: ColumnMap) -> Seq<RowView> {
    rows_of_lines(lines_of(csv), map, lines_of(csv).len() as int)
}

fn get_cell(fields: &Vec<String>, idx: usize) -> (r: Vec<char>)
    ensures
        r@ == cell(string_views(fields@), idx as int),
{
    if idx < fields.len() {
        str_to_chars(fields[idx].as_str())
    } else {
        Vec::new()
    }
}

fn get_opt_cell(fields: &Vec<String>, idx: Option<usize>) -> (r: Vec<char>)
    ensures
        r@ == opt_cell(string_views(fields@), idx),
{
    match idx {
        Some(i) => get_cell(fields, i),
        None => Vec::new(),
    }
}

fn without_commas(s: &Vec<char>) -> (r: Vec<char>)
    ensures
        r@ == s@.filter(|c: char| c != ','),
{
    let mut r: Vec<char> = Vec::new();
    for i in 0..s.len()
        invariant
            r@ == s@.subrange(0, i as int).filter(|c: char| c != ','),
    {
        reveal_with_fuel(Seq::filter, 1);
        assert(s@.subrange(0, i + 1).drop_last() =~= s@.subrange(0, i as int));
        if s[i] != ',' {
            r.push(s[i]);
        }
    }
    assert(s@.subrange(0, s@.len() as int) =~= s@);
    r
}

fn get_cell_amount(fields: &Vec<String>, idx: Option<usize>) -> (r: Option<Amount>)
    ensures
        r == cell_amount(string_views(fields@), idx),
        r matches Some(a) ==> a.wf(),
{
    match idx {
        Some(i) => {
            if i < fields.len() {
                let c = str_to_chars(fields[i].as_str());
                let t = trim_chars(&without_commas(&c));
                let ts = chars_to_string(t.as_slice());
                match parse_amount(ts.as_str()) {
                    Ok(a) => Some(a),
                    Err(_) => None,
                }
            } else {
                None
            }
        },
        None => None,
    }
}

fn clamp_to_usize(v: i32) -> (r: usize)
    ensures
        r as int == clamp_index(v),
{
    if v < 0 {
        0
    } else {
        v as usize
    }
}

fn transform_line(line: &Vec<char>, map: &ColumnMap) -> (r: Option<TransformedRow>)
    ensures
        match r {
            Some(x) => row_of(line@, *map) == Some(x.view()),
            None => row_of(line@, *map) is None,
        },
{
    if crate::text::all_whitespace(line) {
        return None;
    }
    let fields = csv_fields_of_chars(line);
    let date_cell = get_cell(&fields, clamp_to_usize(map.date));
    let date = match parse_date(chars_to_string(date_cell.as_slice()).as_str()) {
        Some(d) => d,
        None => {
            return None;
        },
    };
    let desc_cell = get_cell(&fields, clamp_to_usize(map.description));
    let description = chars_to_string(trim_chars(&desc_cell).as_slice());
    let payee = chars_to_string(get_opt_cell(&fields, map.payee_opt()).as_slice());
    let reference = chars_to_string(get_opt_cell(&fields, map.reference_opt()).as_slice());
    let amount_col = map.amount_in_opt();
    let amount = match row_signed_amount(
        amount_col.is_some(),
        get_cell_amount(&fields, amount_col),
        get_cell_amount(&fields, map.debit_opt()),
        get_cell_amount(&fields, map.credit_opt()),
    ) {
        Some(a) => a,
        None => {
            return None;
        },
    };
    let row = TransformedRow { date, description, payee, reference, amount };
    proof {
        let fv = csv_fields(line@);
        assert(string_views(fields@) == fv);
        assert(import_date(cell(fv, clamp_index(map.date))) == Some(date));
        assert(row_amount(fv, *map) == Some(amount));
        assert(row.view().description == trim_seq(cell(fv, clamp_index(map.description))));
        assert(row.view().payee == opt_cell(fv, opt_index(map.payee)));
        assert(row.view().reference == opt_cell(fv, opt_index(map.reference)));
    }
    Some(row)
}

/// Rows of a CSV document under a column mapping (header line skipped).
pub fn transform(csv: &str, map: &ColumnMap) -> (r: Vec<TransformedRow>)
    ensures
        r@.map_values(|x: TransformedRow| x.view()) == transformed(csv@, *map),
{
    let chars = str_to_chars(csv);
    let ls = split_lines(&chars);
    let ghost lv = ls@.map_values(|l: Vec<char>| l@);
    let mut out: Vec<TransformedRow> = Vec::new();
    for i in 0..ls.len()
        invariant
            lv == ls@.map_values(|l: Vec<char>| l@),
            lv == lines_of(csv@),
            out@.map_values(|x: TransformedRow| x.view()) == rows_of_lines(lv, *map, i as int),
    {
        assert(lv[i as int] == ls@[i as int]@);
        let ghost before = out@;
        if i > 0 {
            match transform_line(&ls[i], map) {
                Some(row) => {
                    out.push(row);
                    assert(out@.map_values(|x: TransformedRow| x.view()) =~= before.map_values(
                        |x: TransformedRow| x.view(),
                    ).push(row.view()));
                },
                None => {},
            }
        }
    }
    out
}
// ---------------------------------------------------------------------
// The wizard's forms
// ---------------------------------------------------------------------

/// Step one carries only the uploaded file.
pub struct UploadForm {}

/// Step two: the file and the chosen columns, and optionally a name and
/// file-name pattern to save the mapping under.
pub struct MapForm {
    pub csv_content: String,
    pub date: i32,
    pub description: i32,
    pub debit: i32,
    pub credit: i32,
    pub account: i32,
    pub payee: i32,
    pub reference: i32,
    pub amount_in: i32,
    pub save_name: Option<String>,
    pub filename_glob: Option<String>,
}

/// Step three: the file and the chosen columns.
pub struct CommitForm {
    pub csv_content: String,
    pub date: i32,
    pub description: i32,
    pub debit: i32,
    pub credit: i32,
    pub account: i32,
    pub payee: i32,
    pub reference: i32,
    pub amount_in: i32,
}

impl MapForm {
    pub fn column_map(&self) -> (r: ColumnMap)
        ensures
            r == (ColumnMap {
                date: self.date,
                description: self.description,
                debit: self.debit,
                credit: self.credit,
                account: self.account,
                payee: self.payee,
                reference: self.reference,
                amount_in: self.amount_in,
            }),
    {
        ColumnMap {
            date: self.date,
            description: self.description,
            debit: self.debit,
            credit: self.credit,
            account: self.account,
            payee: self.payee,
            reference: self.reference,
            amount_in: self.amount_in,
        }
    }

    /// The mapping is saved when both a name and a pattern are given.
    pub fn mapping_to_save(&self) -> (r: Option<(String, String)>)
        ensures
            match (self.save_name, self.filename_glob) {
                (Some(n), Some(g)) => if n@.len() > 0 && g@.len() > 0 {
                    r matches Some((rn, rg)) && rn@ == n@ && rg@ == g@
                } else {
                    r is None
                },
                _ => r is None,
            },
    {
        match (&self.save_name, &self.filename_glob) {
            (Some(n), Some(g)) => if !n.as_str().is_empty() && !g.as_str().is_empty() {
                Some((n.clone(), g.clone()))
            } else {
                None
            },
            _ => None,
        }
    }
}

impl CommitForm {
    pub fn column_map(&self) -> (r: ColumnMap)
        ensures
            r == (ColumnMap {
                date: self.date,
                description: self.description,
                debit: self.debit,
                credit: self.credit,
                account: self.account,
                payee: self.payee,
                reference: self.reference,
                amount_in: self.amount_in,
            }),
    {
        ColumnMap {
            date: self.date,
            description: self.description,
            debit: self.debit,
            credit: self.credit,
            account: self.account,
            payee: self.payee,
            reference: self.reference,
            amount_in: self.amount_in,
        }
    }
}

/// A mapping saved for later uploads.
pub struct SavedMapping {
    pub name: String,
    pub date_column: i32,
    pub description_column: i32,
    pub debit_column: Option<i32>,
    pub credit_column: Option<i32>,
    pub account_column: Option<i32>,
    pub payee_column: Option<i32>,
    pub reference_column: Option<i32>,
    pub amount_in_column: Option<String>,
}

pub open spec fn or_unmapped(c: Option<i32>) -> i32 {
    match c {
        Some(v) => v,
        None => -1i32,
    }
}

/// The column map a saved mapping restores: absent columns are unmapped,
/// and a single amount column is never restored.
pub open spec fn restored_map(s: SavedMapping) -> ColumnMap {
    ColumnMap {
        date: s.date_column,
        description: s.description_column,
        debit: or_unmapped(s.debit_column),
        credit: or_unmapped(s.credit_column),
        account: or_unmapped(s.account_column),
        payee: or_unmapped(s.payee_column),
        reference: or_unmapped(s.reference_column),
        amount_in: -1i32,
    }
}

/// `s` holds what saving `map` under `name` writes: every column as it is,
/// and the amount column as the marker `debit` when one is mapped.
pub open spec fn saved_from(s: SavedMapping, name: Seq<char>, map: ColumnMap) -> bool {
    &&& s.name@ == name
    &&& s.date_column == map.date
    &&& s.description_column == map.description
    &&& s.debit_column == Some(map.debit)
    &&& s.credit_column == Some(map.credit)
    &&& s.account_column == Some(map.account)
    &&& s.payee_column == Some(map.payee)
    &&& s.reference_column == Some(map.reference)
    &&& match s.amount_in_column {
        Some(t) => map.amount_in >= 0 && t@ == "debit"@,
        None => map.amount_in < 0,
    }
}

impl SavedMapping {
    /// The mapping row that saving `map` under `name` writes.
    pub fn from_map(name: &str, map: &ColumnMap) -> (r: SavedMapping)
        ensures
            saved_from(r, name@, *map),
    {
        SavedMapping {
            name: name.to_string(),
            date_column: map.date,
            description_column: map.description,
            debit_column: Some(map.debit),
            credit_column: Some(map.credit),
            account_column: Some(map.account),
            payee_column: Some(map.payee),
            reference_column: Some(map.reference),
            amount_in_column: if map.amount_in >= 0 {
                Some("debit".to_string())
            } else {
                None
            },
        }
    }

    /// The column map of a saved mapping; a single amount column is never
    /// restored.
    pub fn column_map(&self) -> (r: ColumnMap)
        ensures
            r == restored_map(*self),
    {
        ColumnMap {
            date: self.date_column,
            description: self.description_column,
            debit: match self.debit_column {
                Some(v) => v,
                None => -1,
            },
            credit: match self.credit_column {
                Some(v) => v,
                None => -1,
            },
            account: match self.account_column {
                Some(v) => v,
                None => -1,
            },
            payee: match self.payee_column {
                Some(v) => v,
                None => -1,
            },
            reference: match self.reference_column {
                Some(v) => v,
                None => -1,
            },
            amount_in: -1,
        }
    }
}

/// A saved mapping reads back as the mapping that was saved, except that a
/// single amount column comes back unmapped; a mapping without one reads
/// back exactly.
pub proof fn saved_mapping_round_trip(s: SavedMapping, name: Seq<char>, map: ColumnMap)
    requires
        saved_from(s, name, map),
    ensures
        restored_map(s) == (ColumnMap { amount_in: -1i32, ..map }),
        map.amount_in == -1 ==> restored_map(s) == map,
{
}

/// The first rows of the mapping step's preview: the fields of lines two
/// to six.
pub open spec fn preview_rows(csv: Seq<char>) -> Seq<Seq<Seq<char>>> {
    let ls = lines_of(csv);
    let body = if ls.len() > 0 {
        ls.drop_first()
    } else {
        ls
    };
    let shown = if body.len() > 5 {
        body.subrange(0, 5)
    } else {
        body
    };
    shown.map_values(|l: Seq<char>| csv_fields(l))
}

pub fn rows_preview(csv: &str) -> (r: Vec<Vec<String>>)
    ensures
        r@.map_values(|row: Vec<String>| string_views(row@)) == preview_rows(csv@),
{
    let ls = split_lines(&str_to_chars(csv));
    let ghost lv = ls@.map_values(|l: Vec<char>| l@);
    let mut out: Vec<Vec<String>> = Vec::new();
    let mut i: usize = 1;
    while i < ls.len() && i <= 5
        invariant
            1 <= i <= 6,
            lv == ls@.map_values(|l: Vec<char>| l@),
            lv == lines_of(csv@),
            out@.len() == i - 1,
            ls@.len() == 0 ==> i == 1,
            ls@.len() > 0 ==> i <= ls@.len(),
            forall|k: int| 0 <= k < out@.len() ==> string_views((#[trigger] out@[k])@) == csv_fields(lv[k + 1]),
        decreases 6 - i,
    {
        assert(lv[i as int] == ls@[i as int]@);
        out.push(csv_fields_of_chars(&ls[i]));
        i = i + 1;
    }
    proof {
        let body = if lv.len() > 0 { lv.drop_first() } else { lv };
        let shown = if body.len() > 5 { body.subrange(0, 5) } else { body };
        assert(lv.len() == ls@.len());
        if ls@.len() == 0 {
            assert(out@.len() == 0);
        } else if ls@.len() <= 6 {
            assert(i == ls@.len());
        } else {
            assert(i == 6);
        }
        assert(out@.len() == shown.len());
        assert(out@.map_values(|row: Vec<String>| string_views(row@)) =~= shown.map_values(
            |l: Seq<char>| csv_fields(l),
        ));
    }
    out
}

/// A commit needs at least one transformed row.
pub fn check_commit_rows(count: usize) -> (r: Result<(), crate::error::AppError>)
    ensures
        count == 0 ==> crate::error::fails_validation(r, "no rows to commit"@),
        count > 0 ==> r is Ok,
{
    if count == 0 {
        return Err(crate::error::validation("no rows to commit"));
    }
    Ok(())
}

/// The cash-account posting of a committed row: none for a zero amount,
/// a credit of the magnitude for a negative one, else a debit.
pub fn wizard_posting(amount: Amount) -> (r: Option<(bool, Amount)>)
    requires
        amount.wf(),
    ensures
        amount.value() == 0 ==> r is None,
        amount.value() < 0 ==> (r matches Some((debit, a)) && !debit && a.value() == -amount.value()
            && a.scale == amount.scale),
        amount.value() > 0 ==> r == Some((true, amount)),
{
    if amount.is_zero() {
        None
    } else if amount.is_negative() {
        Some((false, amount.neg()))
    } else {
        Some((true, amount))
    }
}

} // verus!
