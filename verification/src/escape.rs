//! Escaping rules of the export formats and of HTTP header values, plus
//! small text predicates used by the handlers.
use vstd::prelude::*;
use vstd::string::StringSliceAdditionalSpecFns;
use crate::text::{
    str_to_chars, chars_to_string, contains_bytes, contains_seq, trim_chars, trim_seq,
};

verus! {

/// Append the characters of `s`.
pub fn push_str(v: &mut Vec<char>, s: &str)
    ensures
        final(v)@ == old(v)@ + s@,
{
    let cs = str_to_chars(s);
    let ghost start = v@;
    for i in 0..cs.len()
        invariant
            v@ == start + cs@.subrange(0, i as int),
    {
        v.push(cs[i]);
        assert(v@ =~= start + cs@.subrange(0, i + 1));
    }
    assert(cs@.subrange(0, cs@.len() as int) =~= cs@);
}

/// Append a character sequence.
pub fn push_chars(v: &mut Vec<char>, s: &Vec<char>)
    ensures
        final(v)@ == old(v)@ + s@,
{
    let ghost start = v@;
    for i in 0..s.len()
        invariant
            v@ == start + s@.subrange(0, i as int),
    {
        v.push(s[i]);
        assert(v@ =~= start + s@.subrange(0, i + 1));
    }
    assert(s@.subrange(0, s@.len() as int) =~= s@);
}

/// XML escape of one character.
pub open spec fn xml_escape_char(c: char) -> Seq<char> {
    if c == '&' {
        "&amp;"@
    } else if c == '<' {
        "&lt;"@
    } else if c == '>' {
        "&gt;"@
    } else if c == '"' {
        "&quot;"@
    } else if c == '\'' {
        "&apos;"@
    } else {
        seq![c]
    }
}

/// XML escape of a text: each character replaced by its escape.
pub open spec fn xml_escaped(s: Seq<char>) -> Seq<char>
    decreases s.len(),
{
    if s.len() == 0 {
        Seq::empty()
    } else {
        xml_escaped(s.drop_last()) + xml_escape_char(s.last())
    }
}

/// Escape `&`, `<`, `>`, `"` and `'` for XML text and attribute values.
pub fn xml_escape(s: &str) -> (r: String)
    ensures
        r@ == xml_escaped(s@),
{
    let cs = str_to_chars(s);
    let mut out: Vec<char> = Vec::new();
    for i in 0..cs.len()
        invariant
            cs@ == s@,
            out@ == xml_escaped(cs@.subrange(0, i as int)),
    {
        assert(cs@.subrange(0, i + 1).drop_last() =~= cs@.subrange(0, i as int));
        let c = cs[i];
        if c == '&' {
            push_str(&mut out, "&amp;");
        } else if c == '<' {
            push_str(&mut out, "&lt;");
        } else if c == '>' {
            push_str(&mut out, "&gt;");
        } else if c == '"' {
            push_str(&mut out, "&quot;");
        } else if c == '\'' {
            push_str(&mut out, "&apos;");
        } else {
            out.push(c);
        }
    }
    assert(cs@.subrange(0, cs@.len() as int) =~= cs@);
    chars_to_string(out.as_slice())
}

/// Quote doubling of one character (CSV / DATEV convention).
pub open spec fn quote_double_char(c: char) -> Seq<char> {
    if c == '"' {
        seq!['"', '"']
    } else {
        seq![c]
    }
}

pub open spec fn quotes_doubled(s: Seq<char>) -> Seq<char>
    decreases s.len(),
{
    if s.len() == 0 {
        Seq::empty()
    } else {
        quotes_doubled(s.drop_last()) + quote_double_char(s.last())
    }
}

fn double_quotes_chars(cs: &Vec<char>) -> (out: Vec<char>)
    ensures
        out@ == quotes_doubled(cs@),
{
    let mut out: Vec<char> = Vec::new();
    for i in 0..cs.len()
        invariant
            out@ == quotes_doubled(cs@.subrange(0, i as int)),
    {
        assert(cs@.subrange(0, i + 1).drop_last() =~= cs@.subrange(0, i as int));
        let c = cs[i];
        if c == '"' {
            out.push('"');
            out.push('"');
            assert(out@ =~= quotes_doubled(cs@.subrange(0, i as int)) + seq!['"', '"']);
        } else {
            out.push(c);
            assert(out@ =~= quotes_doubled(cs@.subrange(0, i as int)) + seq![c]);
        }
    }
    assert(cs@.subrange(0, cs@.len() as int) =~= cs@);
    out
}

/// DATEV text escape: every `"` doubled.
pub fn datev_escape(s: &str) -> (r: String)
    ensures
        r@ == quotes_doubled(s@),
{
    let cs = str_to_chars(s);
    let out = double_quotes_chars(&cs);
    chars_to_string(out.as_slice())
}

/// A CSV cell needs quoting when it holds a comma, a quote or a newline.
pub open spec fn needs_csv_quotes(s: Seq<char>) -> bool {
    s.contains(',') || s.contains('"') || s.contains('\n')
}

pub open spec fn csv_escaped(s: Seq<char>) -> Seq<char> {
    if needs_csv_quotes(s) {
        seq!['"'] + quotes_doubled(s) + seq!['"']
    } else {
        s
    }
}

/// CSV cell escape: quote and double inner quotes when needed.
pub fn csv_escape(s: &str) -> (r: String)
    ensures
        r@ == csv_escaped(s@),
{
    let cs = str_to_chars(s);
    let mut needs = false;
    for i in 0..cs.len()
        invariant
            needs == (exists|k: int|
                0 <= k < i && (cs@[k] == ',' || cs@[k] == '"' || cs@[k] == '\n')),
    {
        let c = cs[i];
        if c == ',' || c == '"' || c == '\n' {
            needs = true;
        }
    }
    assert(needs == needs_csv_quotes(cs@)) by {
        if needs {
            let k = choose|k: int|
                0 <= k < cs@.len() && (cs@[k] == ',' || cs@[k] == '"' || cs@[k] == '\n');
            if cs@[k] == ',' {
                assert(cs@.contains(','));
            } else if cs@[k] == '"' {
                assert(cs@.contains('"'));
            } else {
                assert(cs@.contains('\n'));
            }
        }
    }
    if needs {
        let mut out: Vec<char> = Vec::new();
        out.push('"');
        let inner = double_quotes_chars(&cs);
        push_chars(&mut out, &inner);
        out.push('"');
        assert(out@ =~= seq!['"'] + quotes_doubled(cs@) + seq!['"']);
        chars_to_string(out.as_slice())
    } else {
        chars_to_string(cs.as_slice())
    }
}

/// `char::is_control`: general category Cc.
pub open spec fn is_control(c: char) -> bool {
    (c as u32) <= 0x1F || (0x7F <= (c as u32) && (c as u32) <= 0x9F)
}

/// Characters allowed into a header value.
pub open spec fn header_safe(c: char) -> bool {
    !is_control(c) && c != '"'
}

pub open spec fn header_sanitized(s: Seq<char>) -> Seq<char> {
    s.filter(|c: char| header_safe(c))
}

/// Strip control characters and double quotes from a header value.
pub fn sanitize_header_value(s: &str) -> (r: String)
    ensures
        r@ == header_sanitized(s@),
{
    let cs = str_to_chars(s);
    let mut out: Vec<char> = Vec::new();
    for i in 0..cs.len()
        invariant
            out@ == cs@.subrange(0, i as int).filter(|c: char| header_safe(c)),
    {
        reveal_with_fuel(Seq::filter, 1);
        assert(cs@.subrange(0, i + 1).drop_last() =~= cs@.subrange(0, i as int));
        let c = cs[i];
        let u = c as u32;
        if !(u <= 0x1F || (0x7F <= u && u <= 0x9F)) && c != '"' {
            out.push(c);
        }
    }
    assert(cs@.subrange(0, cs@.len() as int) =~= cs@);
    chars_to_string(out.as_slice())
}

/// Affirmative checkbox values after trimming.
pub open spec fn is_affirmative(s: Seq<char>) -> bool {
    s == "1"@ || s == "true"@ || s == "yes"@ || s == "on"@
}

pub open spec fn confirmed(v: Option<String>) -> bool {
    match v {
        Some(s) => is_affirmative(trim_seq(s@)),
        None => false,
    }
}

fn chars_eq(a: &Vec<char>, b: &Vec<char>) -> (r: bool)
    ensures
        r == (a@ == b@),
{
    if a.len() != b.len() {
        return false;
    }
    for i in 0..a.len()
        invariant
            a@.len() == b@.len(),
            forall|k: int| 0 <= k < i ==> a@[k] == b@[k],
    {
        if a[i] != b[i] {
            return false;
        }
    }
    assert(a@ =~= b@);
    true
}

/// Whether an optional confirmation field was ticked (`1`, `true`, `yes`, `on`).
pub fn confirm_given(v: &Option<String>) -> (r: bool)
    ensures
        r == confirmed(*v),
{
    match v {
        Some(s) => {
            let t = trim_chars(&str_to_chars(s.as_str()));
            chars_eq(&t, &str_to_chars("1")) || chars_eq(&t, &str_to_chars("true")) || chars_eq(
                &t,
                &str_to_chars("yes"),
            ) || chars_eq(&t, &str_to_chars("on"))
        },
        None => false,
    }
}

/// The UTF-8 bytes of the web-export header marker.
pub open spec fn alipay_web_marker() -> Seq<u8> {
    "交易时间,交易分类".spec_bytes()
}

/// The bytes hold the header of the web `.txt` export (not the mobile CSV).
pub fn is_web(bytes: &[u8]) -> (r: bool)
    ensures
        r == contains_seq(bytes@, alipay_web_marker()),
{
    let marker = "交易时间,交易分类".as_bytes();
    contains_bytes(bytes, marker)
}

} // verus!
