//! Decimal integers read from text, as `str::parse` reads them for
//! `usize` and `i32`: an optional sign (`+`, or `-` for signed types)
//! followed by at least one ASCII digit, within the type's range.
use vstd::prelude::*;
use crate::text::str_to_chars;

verus! {

pub open spec fn is_digit(c: char) -> bool {
    '0' <= c && c <= '9'
}

pub open spec fn all_digits(s: Seq<char>) -> bool {
    forall|i: int| 0 <= i < s.len() ==> is_digit(#[trigger] s[i])
}

/// The value of a string of ASCII digits.
pub open spec fn digits_value(s: Seq<char>) -> nat
    decreases s.len(),
{
    if s.len() == 0 {
        0
    } else {
        digits_value(s.drop_last()) * 10 + ((s.last() as u32 - '0' as u32) as nat)
    }
}

/// The digits after an optional leading `+` (a lone `+` has none).
pub open spec fn unsigned_digits(s: Seq<char>) -> Seq<char> {
    if s.len() > 1 && s[0] == '+' {
        s.drop_first()
    } else {
        s
    }
}

/// `s.parse::<usize>()`.
pub open spec fn usize_text(s: Seq<char>) -> Option<usize> {
    let d = unsigned_digits(s);
    if d.len() > 0 && all_digits(d) && digits_value(d) <= usize::MAX {
        Some(digits_value(d) as usize)
    } else {
        None
    }
}

/// `s.parse::<i32>()`.
pub open spec fn i32_text(s: Seq<char>) -> Option<i32> {
    if s.len() > 1 && s[0] == '-' {
        let d = s.drop_first();
        if all_digits(d) && digits_value(d) <= 2147483648 {
            Some((-digits_value(d)) as i32)
        } else {
            None
        }
    } else {
        let d = unsigned_digits(s);
        if d.len() > 0 && all_digits(d) && digits_value(d) <= 2147483647 {
            Some(digits_value(d) as i32)
        } else {
            None
        }
    }
}

proof fn lemma_digits_value_monotone(s: Seq<char>, i: int)
    requires
        0 <= i <= s.len(),
        all_digits(s),
    ensures
        digits_value(s.subrange(0, i)) <= digits_value(s),
    decreases s.len() - i,
{
    if i < s.len() {
        lemma_digits_value_monotone(s, i + 1);
        assert(s.subrange(0, i + 1).drop_last() =~= s.subrange(0, i));
    } else {
        assert(s.subrange(0, i) =~= s);
    }
}

/// The value of the digits `d[start..]`, or `None` when they are not all
/// digits or exceed `limit`.
fn digits_upto(d: &Vec<char>, start: usize, limit: u64) -> (r: Option<u64>)
    requires
        start <= d@.len(),
    ensures
        match r {
            Some(v) => all_digits(d@.subrange(start as int, d@.len() as int)) && v == digits_value(
                d@.subrange(start as int, d@.len() as int),
            ) && v <= limit,
            None => !all_digits(d@.subrange(start as int, d@.len() as int)) || digits_value(
                d@.subrange(start as int, d@.len() as int),
            ) > limit,
        },
{
    let ghost s = d@.subrange(start as int, d@.len() as int);
    let mut v: u64 = 0;
    let mut i = start;
    while i < d.len()
        invariant
            start <= i <= d@.len(),
            s == d@.subrange(start as int, d@.len() as int),
            all_digits(d@.subrange(start as int, i as int)),
            v == digits_value(d@.subrange(start as int, i as int)),
            v <= limit,
        decreases d@.len() - i,
    {
        let c = d[i];
        assert(d@.subrange(start as int, i + 1).drop_last() =~= d@.subrange(start as int, i as int));
        if !('0' <= c && c <= '9') {
            assert(s[i - start] == c);
            return None;
        }
        let digit = (c as u32 - '0' as u32) as u64;
        if digit > limit || v > (limit - digit) / 10 {
            proof {
                assert(all_digits(d@.subrange(start as int, i + 1)));
                assert(digits_value(d@.subrange(start as int, i + 1)) > limit) by (nonlinear_arith)
                    requires
                        digits_value(d@.subrange(start as int, i + 1)) == v * 10 + digit,
                        digit > limit || v > (limit - digit) / 10,
                        v >= 0,
                ;
                if all_digits(s) {
                    assert(s.subrange(0, i + 1 - start) =~= d@.subrange(start as int, i + 1));
                    lemma_digits_value_monotone(s, i + 1 - start);
                }
            }
            return None;
        }
        v = v * 10 + digit;
        i = i + 1;
    }
    Some(v)
}

/// `s.parse::<usize>()`.
pub fn parse_usize(s: &str) -> (r: Option<usize>)
    ensures
        r == usize_text(s@),
{
    let d = str_to_chars(s);
    let start: usize = if d.len() > 1 && d[0] == '+' {
        1
    } else {
        0
    };
    assert(d@.subrange(start as int, d@.len() as int) =~= unsigned_digits(s@));
    if d.len() == start {
        return None;
    }
    match digits_upto(&d, start, usize::MAX as u64) {
        Some(v) => Some(v as usize),
        None => None,
    }
}

/// `s.parse::<i32>()`.
pub fn parse_i32(s: &str) -> (r: Option<i32>)
    ensures
        r == i32_text(s@),
{
    let d = str_to_chars(s);
    if d.len() > 1 && d[0] == '-' {
        assert(d@.subrange(1, d@.len() as int) =~= s@.drop_first());
        match digits_upto(&d, 1, 2147483648) {
            Some(v) => Some((0 - (v as i64)) as i32),
            None => None,
        }
    } else {
        let start: usize = if d.len() > 1 && d[0] == '+' {
            1
        } else {
            0
        };
        assert(d@.subrange(start as int, d@.len() as int) =~= unsigned_digits(s@));
        if d.len() == start {
            return None;
        }
        match digits_upto(&d, start, 2147483647) {
            Some(v) => Some(v as i32),
            None => None,
        }
    }
}

} // verus!
