//! Identifiers: 128-bit UUID values and their hyphenated lower-case text
//! (the `Display` form of `uuid::Uuid`).
use vstd::prelude::*;

verus! {

pub open spec fn pow16(n: nat) -> nat
    decreases n,
{
    if n == 0 {
        1
    } else {
        16 * pow16((n - 1) as nat)
    }
}

proof fn lemma_pow16_add(a: nat, b: nat)
    ensures
        pow16(a + b) == pow16(a) * pow16(b),
    decreases b,
{
    if b == 0 {
        assert(a + b == a);
        assert(pow16(0) == 1);
        vstd::arithmetic::mul::lemma_mul_basics(pow16(a) as int);
    } else {
        lemma_pow16_add(a, (b - 1) as nat);
        assert((a + b - 1) as nat == a + (b - 1) as nat);
        assert(pow16(a + b) == 16 * pow16((a + b - 1) as nat));
        vstd::arithmetic::mul::lemma_mul_is_associative(16, pow16(a) as int, pow16((b - 1) as nat) as int);
        vstd::arithmetic::mul::lemma_mul_is_commutative(16, pow16(a) as int);
        vstd::arithmetic::mul::lemma_mul_is_associative(pow16(a) as int, 16, pow16((b - 1) as nat) as int);
    }
}

proof fn lemma_pow16_positive(n: nat)
    ensures
        pow16(n) >= 1,
    decreases n,
{
    if n > 0 {
        lemma_pow16_positive((n - 1) as nat);
    }
}

/// 16^n stays below 2^124 for n <= 31.
proof fn lemma_pow16_bound(n: nat)
    requires
        n <= 31,
    ensures
        1 <= pow16(n) <= 0x1000_0000_0000_0000_0000_0000_0000_0000,
{
    reveal_with_fuel(pow16, 32);
    assert(pow16(31) == 0x1000_0000_0000_0000_0000_0000_0000_0000);
    lemma_pow16_add(n, (31 - n) as nat);
    assert(n + (31 - n) as nat == 31);
    lemma_pow16_positive(n);
    lemma_pow16_positive((31 - n) as nat);
    vstd::arithmetic::mul::lemma_mul_inequality(1, pow16((31 - n) as nat) as int, pow16(n) as int);
    vstd::arithmetic::mul::lemma_mul_is_commutative(pow16(n) as int, pow16((31 - n) as nat) as int);
}

pub open spec fn hex_digit(n: nat) -> char {
    if n < 10 {
        ((n + 48) as u32) as char
    } else {
        ((n - 10 + 97) as u32) as char
    }
}

/// The `k`-th hex digit of `v`, counting from the most significant of 32.
pub open spec fn nibble(v: u128, k: nat) -> nat {
    ((v as nat) / pow16((31 - k) as nat)) % 16
}

/// Hex digits `lo..hi` (of 32) of `v`.
pub open spec fn hex_range(v: u128, lo: nat, hi: nat) -> Seq<char>
    decreases hi - lo,
{
    if hi <= lo {
        Seq::empty()
    } else {
        hex_range(v, lo, (hi - 1) as nat).push(hex_digit(nibble(v, (hi - 1) as nat)))
    }
}

/// `xxxxxxxx-xxxx-xxxx-xxxx-xxxxxxxxxxxx`.
pub open spec fn uuid_text(v: u128) -> Seq<char> {
    hex_range(v, 0, 8) + seq!['-'] + hex_range(v, 8, 12) + seq!['-'] + hex_range(v, 12, 16)
        + seq!['-'] + hex_range(v, 16, 20) + seq!['-'] + hex_range(v, 20, 32)
}

fn hex_char(n: u128) -> (c: char)
    requires
        n < 16,
    ensures
        c == hex_digit(n as nat),
{
    if n < 10 {
        let c = crate::text::ascii_char((n as u8) + 48);
        assert(c == hex_digit(n as nat));
        c
    } else {
        let c = crate::text::ascii_char((n as u8) - 10 + 97);
        assert(c == hex_digit(n as nat));
        c
    }
}

fn pow16_u128(e: u32) -> (r: u128)
    requires
        e <= 31,
    ensures
        r == pow16(e as nat),
{
    let mut r: u128 = 1;
    let mut i: u32 = 0;
    while i < e
        invariant
            i <= e <= 31,
            r == pow16(i as nat),
        decreases e - i,
    {
        proof {
            lemma_pow16_bound((i + 1) as nat);
            assert(pow16((i + 1) as nat) == 16 * pow16(i as nat));
        }
        r = r * 16;
        i = i + 1;
    }
    r
}

fn push_hex_range(out: &mut Vec<char>, v: u128, lo: usize, hi: usize)
    requires
        lo <= hi <= 32,
    ensures
        final(out)@ == old(out)@ + hex_range(v, lo as nat, hi as nat),
{
    let ghost start = old(out)@;
    let mut k = lo;
    assert(hex_range(v, lo as nat, lo as nat) =~= Seq::<char>::empty());
    assert(out@ =~= start + hex_range(v, lo as nat, lo as nat));
    while k < hi
        invariant
            lo <= k <= hi <= 32,
            out@ == start + hex_range(v, lo as nat, k as nat),
        decreases hi - k,
    {
        let p = pow16_u128((31 - k) as u32);
        proof {
            lemma_pow16_bound((31 - k) as nat);
        }
        let n = (v / p) % 16;
        let c = hex_char(n);
        out.push(c);
        assert(hex_range(v, lo as nat, (k + 1) as nat) == hex_range(v, lo as nat, k as nat).push(
            hex_digit(nibble(v, k as nat)),
        ));
        assert(out@ =~= start + hex_range(v, lo as nat, (k + 1) as nat));
        k = k + 1;
    }
}

/// The hyphenated lower-case text of a UUID.
pub fn uuid_chars(v: u128) -> (r: Vec<char>)
    ensures
        r@ == uuid_text(v),
{
    let mut r: Vec<char> = Vec::new();
    push_hex_range(&mut r, v, 0, 8);
    r.push('-');
    push_hex_range(&mut r, v, 8, 12);
    r.push('-');
    push_hex_range(&mut r, v, 12, 16);
    r.push('-');
    push_hex_range(&mut r, v, 16, 20);
    r.push('-');
    push_hex_range(&mut r, v, 20, 32);
    assert(r@ =~= uuid_text(v));
    r
}

/// What `uuid::Uuid::parse_str` gives for a text, as the UUID's 128-bit value
/// (`None` where it returns an error).
pub uninterp spec fn uuid_parsed(s: Seq<char>) -> Option<u128>;

/// Calls `uuid::Uuid::parse_str`, which accepts the simple, hyphenated, braced
/// and URN forms; its result depends on the text alone and is named
/// `uuid_parsed`. The value is read back with `Uuid::as_u128`.
#[verifier::external_body]
pub(crate) fn parse_uuid(s: &str) -> (r: Option<u128>)
    ensures
        r == uuid_parsed(s@),
{
    match uuid::Uuid::parse_str(s) {
        Ok(u) => Some(u.as_u128()),
        Err(_) => None,
    }
}

} // verus!
