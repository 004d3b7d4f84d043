//! Character-level text helpers shared by the importers and exporters:
//! conversions between `str` and character vectors, ASCII case folding,
//! substring search and the escaping rules of the export formats.
use vstd::prelude::*;

verus! {

/// The characters of `s`, in order.
pub fn str_to_chars(s: &str) -> (v: Vec<char>)
    ensures
        v@ == s@,
{
    let mut v: Vec<char> = Vec::new();
    for c in it: s.chars()
        invariant
            v@ == it.seq().subrange(0, it.index() as int),
    {
        v.push(c);
        assert(v@ =~= it.seq().subrange(0, it.index() + 1));
    }
    v
}

/// The string made of the characters of `v`, in order.
#[verifier::external_body]
pub(crate) fn chars_to_string(v: &[char]) -> (s: String)
    ensures
        s@ == v@,
{
    v.iter().collect()
}

/// The character whose code point is the ASCII byte `b`.
pub fn ascii_char(b: u8) -> (c: char)
    requires
        b < 128,
    ensures
        c as u32 == b as u32,
{
    b as char
}

pub open spec fn is_ascii_upper(c: char) -> bool {
    'A' <= c && c <= 'Z'
}

pub open spec fn is_ascii_lower(c: char) -> bool {
    'a' <= c && c <= 'z'
}

/// ASCII lower-casing of one character; every other character is kept.
pub open spec fn lower_char(c: char) -> char {
    if is_ascii_upper(c) {
        ((c as u32) + 32) as char
    } else {
        c
    }
}

/// ASCII upper-casing of one character; every other character is kept.
pub open spec fn upper_char(c: char) -> char {
    if is_ascii_lower(c) {
        ((c as u32) - 32) as char
    } else {
        c
    }
}

pub open spec fn lower_seq(s: Seq<char>) -> Seq<char> {
    s.map_values(|c: char| lower_char(c))
}

pub open spec fn upper_seq(s: Seq<char>) -> Seq<char> {
    s.map_values(|c: char| upper_char(c))
}

pub fn to_lower_char(c: char) -> (r: char)
    ensures
        r == lower_char(c),
{
    if 'A' <= c && c <= 'Z' {
        let b: u8 = (c as u32 + 32) as u8;
        let r = ascii_char(b);
        assert(r == lower_char(c));
        r
    } else {
        c
    }
}

pub fn to_upper_char(c: char) -> (r: char)
    ensures
        r == upper_char(c),
{
    if 'a' <= c && c <= 'z' {
        let b: u8 = (c as u32 - 32) as u8;
        let r = ascii_char(b);
        assert(r == upper_char(c));
        r
    } else {
        c
    }
}

/// ASCII lower-casing of a whole character sequence (`str::to_ascii_lowercase`).
pub fn to_ascii_lowercase_chars(s: &Vec<char>) -> (r: Vec<char>)
    ensures
        r@ == lower_seq(s@),
{
    let mut r: Vec<char> = Vec::new();
    for i in 0..s.len()
        invariant
            r@ == lower_seq(s@.subrange(0, i as int)),
    {
        let c = to_lower_char(s[i]);
        r.push(c);
        assert(lower_seq(s@.subrange(0, i + 1)) =~= lower_seq(s@.subrange(0, i as int)).push(
            lower_char(s@[i as int]),
        ));
    }
    assert(s@.subrange(0, s@.len() as int) =~= s@);
    r
}

/// ASCII upper-casing of a whole character sequence (`str::to_uppercase` on ASCII input).
pub fn to_ascii_uppercase_chars(s: &Vec<char>) -> (r: Vec<char>)
    ensures
        r@ == upper_seq(s@),
{
    let mut r: Vec<char> = Vec::new();
    for i in 0..s.len()
        invariant
            r@ == upper_seq(s@.subrange(0, i as int)),
    {
        let c = to_upper_char(s[i]);
        r.push(c);
        assert(upper_seq(s@.subrange(0, i + 1)) =~= upper_seq(s@.subrange(0, i as int)).push(
            upper_char(s@[i as int]),
        ));
    }
    assert(s@.subrange(0, s@.len() as int) =~= s@);
    r
}

/// `needle` occurs in `hay` at position `k`.
pub open spec fn occurs_at<T>(hay: Seq<T>, needle: Seq<T>, k: int) -> bool {
    0 <= k && k + needle.len() <= hay.len() && hay.subrange(k, k + needle.len()) == needle
}

/// `needle` occurs somewhere in `hay` (`str::contains`).
pub open spec fn contains_seq<T>(hay: Seq<T>, needle: Seq<T>) -> bool {
    exists|k: int| #[trigger] occurs_at(hay, needle, k)
}

fn matches_at_chars(hay: &[char], needle: &[char], k: usize) -> (r: bool)
    requires
        k + needle@.len() <= hay@.len(),
    ensures
        r == occurs_at(hay@, needle@, k as int),
{
    let mut j: usize = 0;
    while j < needle.len()
        invariant
            k + needle@.len() <= hay@.len(),
            hay@.len() == hay.len(),
            j <= needle@.len(),
                forall|t: int| 0 <= t < j ==> hay@[k + t] == needle@[t],
        decreases needle@.len() - j,
    {
        if hay[k + j] != needle[j] {
            assert(hay@.subrange(k as int, k + needle@.len())[j as int] != needle@[j as int]);
            return false;
        }
        j = j + 1;
    }
    assert(hay@.subrange(k as int, k + needle@.len()) =~= needle@);
    true
}

/// Substring search over character (or byte) slices.
pub fn contains_chars(hay: &[char], needle: &[char]) -> (r: bool)
    ensures
        r == contains_seq(hay@, needle@),
{
    if needle.len() > hay.len() {
        assert forall|k: int| !occurs_at(hay@, needle@, k) by {}
        return false;
    }
    let last = hay.len() - needle.len();
    let mut k: usize = 0;
    loop
        invariant
            last == hay@.len() - needle@.len(),
            k <= last,
            forall|t: int| 0 <= t < k ==> !occurs_at(hay@, needle@, t),
        decreases last - k,
    {
        if matches_at_chars(hay, needle, k) {
            return true;
        }
        if k == last {
            assert forall|t: int| !occurs_at(hay@, needle@, t) by {
                if 0 <= t && t + needle@.len() <= hay@.len() {
                    assert(t <= k);
                }
            }
            return false;
        }
        k = k + 1;
    }
}

fn matches_at_bytes(hay: &[u8], needle: &[u8], k: usize) -> (r: bool)
    requires
        k + needle@.len() <= hay@.len(),
    ensures
        r == occurs_at(hay@, needle@, k as int),
{
    let mut j: usize = 0;
    while j < needle.len()
        invariant
            k + needle@.len() <= hay@.len(),
            hay@.len() == hay.len(),
            j <= needle@.len(),
                forall|t: int| 0 <= t < j ==> hay@[k + t] == needle@[t],
        decreases needle@.len() - j,
    {
        if hay[k + j] != needle[j] {
            assert(hay@.subrange(k as int, k + needle@.len())[j as int] != needle@[j as int]);
            return false;
        }
        j = j + 1;
    }
    assert(hay@.subrange(k as int, k + needle@.len()) =~= needle@);
    true
}

/// Substring search over byte slices.
pub fn contains_bytes(hay: &[u8], needle: &[u8]) -> (r: bool)
    ensures
        r == contains_seq(hay@, needle@),
{
    if needle.len() > hay.len() {
        assert forall|k: int| !occurs_at(hay@, needle@, k) by {}
        return false;
    }
    let last = hay.len() - needle.len();
    let mut k: usize = 0;
    loop
        invariant
            last == hay@.len() - needle@.len(),
            k <= last,
            forall|t: int| 0 <= t < k ==> !occurs_at(hay@, needle@, t),
        decreases last - k,
    {
        if matches_at_bytes(hay, needle, k) {
            return true;
        }
        if k == last {
            assert forall|t: int| !occurs_at(hay@, needle@, t) by {
                if 0 <= t && t + needle@.len() <= hay@.len() {
                    assert(t <= k);
                }
            }
            return false;
        }
        k = k + 1;
    }
}

/// Unicode `White_Space` (what `char::is_whitespace` and `str::trim` use).
pub open spec fn is_ws(c: char) -> bool {
    let u = c as u32;
    (0x9 <= u && u <= 0xD) || u == 0x20 || u == 0x85 || u == 0xA0 || u == 0x1680
        || (0x2000 <= u && u <= 0x200A) || u == 0x2028 || u == 0x2029 || u == 0x202F
        || u == 0x205F || u == 0x3000
}

pub fn is_whitespace_char(c: char) -> (r: bool)
    ensures
        r == is_ws(c),
{
    let u = c as u32;
    (0x9 <= u && u <= 0xD) || u == 0x20 || u == 0x85 || u == 0xA0 || u == 0x1680 || (0x2000 <= u
        && u <= 0x200A) || u == 0x2028 || u == 0x2029 || u == 0x202F || u == 0x205F || u == 0x3000
}

/// Every character is whitespace (so `trim` leaves nothing).
pub open spec fn is_blank(s: Seq<char>) -> bool {
    forall|i: int| 0 <= i < s.len() ==> is_ws(#[trigger] s[i])
}

pub fn all_whitespace(s: &Vec<char>) -> (r: bool)
    ensures
        r == is_blank(s@),
{
    for i in 0..s.len()
        invariant
            forall|k: int| 0 <= k < i ==> is_ws(#[trigger] s@[k]),
    {
        if !is_whitespace_char(s[i]) {
            return false;
        }
    }
    true
}

/// Number of leading whitespace characters.
pub open spec fn lead_ws(s: Seq<char>) -> int
    decreases s.len(),
{
    if s.len() > 0 && is_ws(s[0]) {
        1 + lead_ws(s.drop_first())
    } else {
        0
    }
}

/// Number of trailing whitespace characters.
pub open spec fn trail_ws(s: Seq<char>) -> int
    decreases s.len(),
{
    if s.len() > 0 && is_ws(s.last()) {
        1 + trail_ws(s.drop_last())
    } else {
        0
    }
}

/// `str::trim`: leading and trailing whitespace removed.
pub open spec fn trim_seq(s: Seq<char>) -> Seq<char> {
    let t = s.subrange(0, s.len() - trail_ws(s));
    t.subrange(lead_ws(t), t.len() as int)
}

proof fn lemma_trail_ws_bounds(s: Seq<char>)
    ensures
        0 <= trail_ws(s) <= s.len(),
    decreases s.len(),
{
    if s.len() > 0 && is_ws(s.last()) {
        lemma_trail_ws_bounds(s.drop_last());
    }
}

proof fn lemma_lead_ws_bounds(s: Seq<char>)
    ensures
        0 <= lead_ws(s) <= s.len(),
    decreases s.len(),
{
    if s.len() > 0 && is_ws(s[0]) {
        lemma_lead_ws_bounds(s.drop_first());
    }
}

/// `str::trim` on a character vector.
pub fn trim_chars(s: &Vec<char>) -> (r: Vec<char>)
    ensures
        r@ == trim_seq(s@),
{
    let mut end: usize = s.len();
    proof {
        lemma_trail_ws_bounds(s@);
        assert(s@.subrange(0, s@.len() as int) =~= s@);
    }
    while end > 0 && is_whitespace_char(s[end - 1])
        invariant
            end <= s@.len(),
            trail_ws(s@) == (s@.len() - end) + trail_ws(s@.subrange(0, end as int)),
        decreases end,
    {
        assert(s@.subrange(0, end as int).drop_last() =~= s@.subrange(0, end - 1));
        end = end - 1;
    }
    let ghost t = s@.subrange(0, end as int);
    assert(trail_ws(t) == 0);
    let mut start: usize = 0;
    proof {
        assert(t.subrange(0, t.len() as int) =~= t);
    }
    while start < end && is_whitespace_char(s[start])
        invariant
            start <= end <= s@.len(),
            t == s@.subrange(0, end as int),
            lead_ws(t) == start + lead_ws(t.subrange(start as int, t.len() as int)),
        decreases end - start,
    {
        assert(t.subrange(start as int, t.len() as int).drop_first() =~= t.subrange(
            start + 1,
            t.len() as int,
        ));
        start = start + 1;
    }
    let mut r: Vec<char> = Vec::new();
    let mut i = start;
    while i < end
        invariant
            start <= i <= end <= s@.len(),
            r@ == s@.subrange(start as int, i as int),
        decreases end - i,
    {
        r.push(s[i]);
        assert(r@ =~= s@.subrange(start as int, i + 1));
        i = i + 1;
    }
    assert(r@ =~= trim_seq(s@));
    r
}

/// `s.trim()` as an owned string.
pub fn trim_string(s: &str) -> (r: String)
    ensures
        r@ == trim_seq(s@),
{
    let t = trim_chars(&str_to_chars(s));
    chars_to_string(t.as_slice())
}

/// `s.trim().is_empty()`.
pub fn is_blank_str(s: &str) -> (r: bool)
    ensures
        r == (trim_seq(s@).len() == 0),
{
    trim_chars(&str_to_chars(s)).len() == 0
}

/// Equality of two character sequences.
pub fn chars_equal(a: &[char], b: &[char]) -> (r: bool)
    ensures
        r == (a@ == b@),
{
    if a.len() != b.len() {
        return false;
    }
    for i in 0..a.len()
        invariant
            a@.len() == b@.len(),
            forall|k: int| 0 <= k < i ==> a@[k] == b@[k],
    {
        if a[i] != b[i] {
            return false;
        }
    }
    assert(a@ =~= b@);
    true
}

/// `a == b` on string slices.
pub fn str_equal(a: &str, b: &str) -> (r: bool)
    ensures
        r == (a@ == b@),
{
    let x = str_to_chars(a);
    let y = str_to_chars(b);
    chars_equal(x.as_slice(), y.as_slice())
}

/// What `str::to_uppercase` returns for a string (full Unicode case mapping).
pub uninterp spec fn unicode_upper(s: Seq<char>) -> Seq<char>;

/// What `str::to_lowercase` returns for a string (full Unicode case mapping).
pub uninterp spec fn unicode_lower(s: Seq<char>) -> Seq<char>;

/// Calls `str::to_uppercase`. Its result depends on the string alone and is
/// named `unicode_upper`; the Unicode mapping itself is not stated here.
#[verifier::external_body]
pub(crate) fn to_uppercase(s: &str) -> (r: String)
    ensures
        r@ == unicode_upper(s@),
{
    s.to_uppercase()
}

/// Calls `str::to_lowercase`. Its result depends on the string alone and is
/// named `unicode_lower`; the Unicode mapping itself is not stated here.
#[verifier::external_body]
pub(crate) fn to_lowercase(s: &str) -> (r: String)
    ensures
        r@ == unicode_lower(s@),
{
    s.to_lowercase()
}

/// `s` is one of the listed words.
pub open spec fn one_of(s: Seq<char>, words: Seq<Seq<char>>) -> bool {
    exists|i: int| 0 <= i < words.len() && words[i] == s
}

/// `a` followed by `b`, as an owned string.
pub fn cat(a: &str, b: &str) -> (r: String)
    ensures
        r@ == a@ + b@,
{
    let mut v = str_to_chars(a);
    let w = str_to_chars(b);
    let ghost start = v@;
    for i in 0..w.len()
        invariant
            v@ == start + w@.subrange(0, i as int),
    {
        v.push(w[i]);
        assert(v@ =~= start + w@.subrange(0, i + 1));
    }
    assert(w@.subrange(0, w@.len() as int) =~= w@);
    chars_to_string(v.as_slice())
}

/// `parts.join(sep)`.
pub open spec fn joined(parts: Seq<Seq<char>>, sep: Seq<char>) -> Seq<char>
    decreases parts.len(),
{
    if parts.len() == 0 {
        Seq::empty()
    } else if parts.len() == 1 {
        parts[0]
    } else {
        joined(parts.drop_last(), sep) + sep + parts.last()
    }
}

pub open spec fn string_views(v: Seq<String>) -> Seq<Seq<char>> {
    v.map_values(|s: String| s@)
}

/// `parts.join(sep)` on owned strings.
pub fn join_strings(parts: &Vec<String>, sep: &str) -> (r: String)
    ensures
        r@ == joined(string_views(parts@), sep@),
{
    let mut acc = String::new();
    for i in 0..parts.len()
        invariant
            acc@ == joined(string_views(parts@.subrange(0, i as int)), sep@),
    {
        assert(string_views(parts@.subrange(0, i + 1)).drop_last() =~= string_views(
            parts@.subrange(0, i as int),
        ));
        if i == 0 {
            acc = parts[i].clone();
        } else {
            let with_sep = cat(acc.as_str(), sep);
            acc = cat(with_sep.as_str(), parts[i].as_str());
        }
    }
    assert(parts@.subrange(0, parts@.len() as int) =~= parts@);
    acc
}

} // verus!
