//! Raw `application/x-www-form-urlencoded` request bodies: the decoded
//! key/value pairs, the value of a plain field, and the `lines[N][field]`
//! groups that repeat a field per line.
use vstd::prelude::*;
use crate::numparse::usize_text;
use crate::text::{occurs_at, str_to_chars, chars_to_string, chars_equal, str_equal};

verus! {

/// What `form_urlencoded::parse` yields for a body: its key/value pairs,
/// percent-decoded and with `+` read as a space, in order.
pub uninterp spec fn urlencoded_pairs(body: Seq<char>) -> Seq<(Seq<char>, Seq<char>)>;

pub open spec fn pair_views(v: Seq<(String, String)>) -> Seq<(Seq<char>, Seq<char>)> {
    v.map_values(|p: (String, String)| (p.0@, p.1@))
}

/// Calls `form_urlencoded::parse` on the body's bytes. Its result depends
/// on the body alone and is named `urlencoded_pairs`; the decoding rules
/// are not stated here.
#[verifier::external_body]
pub(crate) fn parse_urlencoded(body: &str) -> (r: Vec<(String, String)>)
    ensures
        pair_views(r@) == urlencoded_pairs(body@),
{
    form_urlencoded::parse(body.as_bytes()).map(|(k, v)| (k.into_owned(), v.into_owned())).collect()
}

/// The value of the first pair with key `key`, or empty text.
pub open spec fn first_value(pairs: Seq<(Seq<char>, Seq<char>)>, key: Seq<char>) -> Seq<char>
    decreases pairs.len(),
{
    if pairs.len() == 0 {
        Seq::empty()
    } else if pairs[0].0 == key {
        pairs[0].1
    } else {
        first_value(pairs.drop_first(), key)
    }
}

/// The value of a plain field (the first occurrence wins; absent fields
/// read as empty).
pub fn field_value(pairs: &Vec<(String, String)>, key: &str) -> (r: String)
    ensures
        r@ == first_value(pair_views(pairs@), key@),
{
    let k = str_to_chars(key);
    let mut i: usize = 0;
    assert(pair_views(pairs@).subrange(0, pairs@.len() as int) =~= pair_views(pairs@));
    while i < pairs.len()
        invariant
            i <= pairs@.len(),
            k@ == key@,
            first_value(pair_views(pairs@), key@) == first_value(
                pair_views(pairs@).subrange(i as int, pairs@.len() as int),
                key@,
            ),
        decreases pairs@.len() - i,
    {
        let ghost rest = pair_views(pairs@).subrange(i as int, pairs@.len() as int);
        assert(rest[0] == (pairs@[i as int].0@, pairs@[i as int].1@));
        if chars_equal(str_to_chars(pairs[i].0.as_str()).as_slice(), k.as_slice()) {
            return pairs[i].1.clone();
        }
        assert(rest.drop_first() =~= pair_views(pairs@).subrange(i + 1, pairs@.len() as int));
        i = i + 1;
    }
    String::new()
}

/// The first position of `pat` in `s` at or after `i`.
pub open spec fn find_from(s: Seq<char>, pat: Seq<char>, i: int) -> Option<int>
    decreases s.len() - i,
{
    if i < 0 || i >= s.len() || i + pat.len() > s.len() {
        None
    } else if occurs_at(s, pat, i) {
        Some(i)
    } else {
        find_from(s, pat, i + 1)
    }
}

/// `s` without its trailing `c` characters.
pub open spec fn strip_trailing(s: Seq<char>, c: char) -> Seq<char>
    decreases s.len(),
{
    if s.len() > 0 && s.last() == c {
        strip_trailing(s.drop_last(), c)
    } else {
        s
    }
}

/// A `lines[N][field]` key: the line number `N` (a `usize`) and the
/// field name (everything after `][`, trailing `]` removed).
pub open spec fn line_key(k: Seq<char>) -> Option<(usize, Seq<char>)> {
    if k.len() >= 6 && k.subrange(0, 6) == "lines["@ {
        let after = k.subrange(6, k.len() as int);
        match find_from(after, "]["@, 0) {
            None => None,
            Some(c) => match usize_text(after.subrange(0, c)) {
                None => None,
                Some(idx) => Some((idx, strip_trailing(after.subrange(c + 2, after.len() as int), ']'))),
            },
        }
    } else {
        None
    }
}

fn find_pair_sep(s: &Vec<char>) -> (r: Option<usize>)
    ensures
        match r {
            Some(c) => find_from(s@, "]["@, 0) == Some(c as int) && c + 2 <= s@.len(),
            None => find_from(s@, "]["@, 0) is None,
        },
{
    proof {
        reveal_strlit("][");
    }
    let mut i: usize = 0;
    while s.len() > 1 && i < s.len() - 1
        invariant
            find_from(s@, "]["@, 0) == find_from(s@, "]["@, i as int),
            "]["@ == seq![']', '['],
        decreases s@.len() - i,
    {
        if s[i] == ']' && s[i + 1] == '[' {
            assert(s@.subrange(i as int, i + 2) =~= "]["@);
            return Some(i);
        }
        assert(!occurs_at(s@, "]["@, i as int)) by {
            if occurs_at(s@, "]["@, i as int) {
                assert(s@.subrange(i as int, i + 2)[0] == s@[i as int]);
                assert(s@.subrange(i as int, i + 2)[1] == s@[i + 1]);
            }
        }
        i = i + 1;
    }
    None
}

fn strip_trailing_chars(s: &Vec<char>, start: usize, c: char) -> (r: Vec<char>)
    requires
        start <= s@.len(),
    ensures
        r@ == strip_trailing(s@.subrange(start as int, s@.len() as int), c),
{
    let mut end = s.len();
    while end > start && s[end - 1] == c
        invariant
            start <= end <= s@.len(),
            strip_trailing(s@.subrange(start as int, s@.len() as int), c) == strip_trailing(
                s@.subrange(start as int, end as int),
                c,
            ),
        decreases end,
    {
        assert(s@.subrange(start as int, end as int).drop_last() =~= s@.subrange(start as int, end - 1));
        end = end - 1;
    }
    let mut r: Vec<char> = Vec::new();
    let mut i = start;
    while i < end
        invariant
            start <= i <= end <= s@.len(),
            r@ == s@.subrange(start as int, i as int),
        decreases end - i,
    {
        r.push(s[i]);
        assert(r@ =~= s@.subrange(start as int, i + 1));
        i = i + 1;
    }
    r
}

/// Reads a `lines[N][field]` key.
pub fn parse_line_key(key: &str) -> (r: Option<(usize, String)>)
    ensures
        match r {
            Some((idx, f)) => line_key(key@) == Some((idx, f@)),
            None => line_key(key@) is None,
        },
{
    proof {
        reveal_strlit("lines[");
    }
    let k = str_to_chars(key);
    let prefix = str_to_chars("lines[");
    if k.len() < 6 {
        return None;
    }
    let mut ok = true;
    for i in 0..6
        invariant
            k@.len() >= 6,
            prefix@ == "lines["@,
            prefix@.len() == 6,
            ok == (forall|j: int| 0 <= j < i ==> k@[j] == prefix@[j]),
    {
        if k[i] != prefix[i] {
            ok = false;
        }
    }
    if !ok {
        assert(k@.subrange(0, 6) != "lines["@) by {
            let j = choose|j: int| 0 <= j < 6 && k@[j] != prefix@[j];
            assert(k@.subrange(0, 6)[j] == k@[j]);
        }
        return None;
    }
    assert(k@.subrange(0, 6) =~= "lines["@);
    let mut after: Vec<char> = Vec::new();
    for i in 6..k.len()
        invariant
            after@ == k@.subrange(6, i as int),
    {
        after.push(k[i]);
        assert(after@ =~= k@.subrange(6, i + 1));
    }
    assert(after@ =~= k@.subrange(6, k@.len() as int));
    let close = match find_pair_sep(&after) {
        Some(c) => c,
        None => {
            return None;
        },
    };
    let mut head: Vec<char> = Vec::new();
    for i in 0..close
        invariant
            close + 2 <= after@.len(),
            head@ == after@.subrange(0, i as int),
    {
        head.push(after[i]);
        assert(head@ =~= after@.subrange(0, i + 1));
    }
    let idx = match crate::numparse::parse_usize(chars_to_string(head.as_slice()).as_str()) {
        Some(v) => v,
        None => {
            return None;
        },
    };
    let field = strip_trailing_chars(&after, close + 2, ']');
    Some((idx, chars_to_string(field.as_slice())))
}


// ---------------------------------------------------------------------
// Line groups
// ---------------------------------------------------------------------

/// `lines` with `x` added in ascending position, unless already present.
pub open spec fn insert_sorted(s: Seq<usize>, x: usize) -> Seq<usize> {
    if s.contains(x) {
        s
    } else {
        let p = count_below(s, x);
        s.subrange(0, p) + seq![x] + s.subrange(p, s.len() as int)
    }
}

pub open spec fn count_below(s: Seq<usize>, x: usize) -> int
    decreases s.len(),
{
    if s.len() == 0 {
        0
    } else {
        count_below(s.drop_last(), x) + if s.last() < x {
            1int
        } else {
            0int
        }
    }
}

/// The line numbers of a body, ascending and without repeats.
pub open spec fn line_numbers(pairs: Seq<(Seq<char>, Seq<char>)>) -> Seq<usize>
    decreases pairs.len(),
{
    if pairs.len() == 0 {
        Seq::empty()
    } else {
        let prev = line_numbers(pairs.drop_last());
        match line_key(pairs.last().0) {
            Some((idx, _)) => insert_sorted(prev, idx),
            None => prev,
        }
    }
}

/// The value of field `f` of line `idx` (the last occurrence wins;
/// absent fields read as empty).
pub open spec fn line_field(pairs: Seq<(Seq<char>, Seq<char>)>, idx: usize, f: Seq<char>) -> Seq<char>
    decreases pairs.len(),
{
    if pairs.len() == 0 {
        Seq::empty()
    } else if line_key(pairs.last().0) == Some((idx, f)) {
        pairs.last().1
    } else {
        line_field(pairs.drop_last(), idx, f)
    }
}

pub fn insert_line_number(s: &mut Vec<usize>, x: usize)
    ensures
        final(s)@ == insert_sorted(old(s)@, x),
{
    let mut p: usize = 0;
    let mut present = false;
    for i in 0..s.len()
        invariant
            p as int == count_below(s@.subrange(0, i as int), x),
            p <= i,
            present == (exists|j: int| 0 <= j < i && #[trigger] s@[j] == x),
    {
        assert(s@.subrange(0, i + 1).drop_last() =~= s@.subrange(0, i as int));
        if s[i] < x {
            p = p + 1;
        }
        if s[i] == x {
            present = true;
        }
    }
    assert(s@.subrange(0, s@.len() as int) =~= s@);
    assert(present == s@.contains(x));
    if present {
        return;
    }
    let ghost old_s = s@;
    let mut out: Vec<usize> = Vec::new();
    for i in 0..p
        invariant
            p <= old_s.len(),
            s@ == old_s,
            out@ == old_s.subrange(0, i as int),
    {
        out.push(s[i]);
        assert(out@ =~= old_s.subrange(0, i + 1));
    }
    out.push(x);
    let ghost mid = out@;
    for i in p..s.len()
        invariant
            p <= old_s.len(),
            s@ == old_s,
            mid == old_s.subrange(0, p as int).push(x),
            out@ == mid + old_s.subrange(p as int, i as int),
    {
        out.push(s[i]);
        assert(out@ =~= mid + old_s.subrange(p as int, i + 1));
    }
    assert(out@ =~= insert_sorted(old_s, x));
    *s = out;
}

pub fn get_line_field(pairs: &Vec<(String, String)>, idx: usize, f: &str) -> (r: String)
    ensures
        r@ == line_field(pair_views(pairs@), idx, f@),
{
    let mut i = pairs.len();
    assert(pair_views(pairs@).subrange(0, pairs@.len() as int) =~= pair_views(pairs@));
    while i > 0
        invariant
            i <= pairs@.len(),
            line_field(pair_views(pairs@), idx, f@) == line_field(
                pair_views(pairs@).subrange(0, i as int),
                idx,
                f@,
            ),
        decreases i,
    {
        let ghost pre = pair_views(pairs@).subrange(0, i as int);
        assert(pre.last() == (pairs@[i - 1].0@, pairs@[i - 1].1@));
        assert(pre.drop_last() =~= pair_views(pairs@).subrange(0, i - 1));
        match parse_line_key(pairs[i - 1].0.as_str()) {
            Some((j, g)) => {
                if j == idx && str_equal(g.as_str(), f) {
                    return pairs[i - 1].1.clone();
                }
            },
            None => {},
        }
        i = i - 1;
    }
    assert(pair_views(pairs@).subrange(0, 0) =~= Seq::<(Seq<char>, Seq<char>)>::empty());
    String::new()
}

} // verus!
