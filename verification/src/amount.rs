//! Monetary amounts: a signed 96-bit mantissa with a decimal scale of at
//! most 28, the representation `rust_decimal::Decimal` uses. Addition and
//! subtraction are exact; an operation whose exact result has no such
//! representation at the larger of the two scales yields `None`.
use vstd::prelude::*;
use vstd::arithmetic::mul::*;
use vstd::arithmetic::div_mod::lemma_fundamental_div_mod;
use crate::escape::push_chars;

verus! {

/// Largest mantissa magnitude: 2^96 - 1.
pub const MAX_MANTISSA: i128 = 79228162514264337593543950335;

/// Largest number of fractional digits.
pub const MAX_SCALE: u32 = 28;

/// A decimal amount `mantissa * 10^-scale`.
#[derive(Debug, Clone, Copy, PartialEq, Eq)]
pub struct Amount {
    pub mantissa: i128,
    pub scale: u32,
}

pub open spec fn pow10(n: nat) -> int
    decreases n,
{
    if n == 0 {
        1
    } else {
        10 * pow10((n - 1) as nat)
    }
}

pub proof fn lemma_pow10_positive(n: nat)
    ensures
        pow10(n) >= 1,
    decreases n,
{
    if n > 0 {
        lemma_pow10_positive((n - 1) as nat);
    }
}

pub proof fn lemma_pow10_add(a: nat, b: nat)
    ensures
        pow10(a + b) == pow10(a) * pow10(b),
    decreases b,
{
    if b == 0 {
        assert(pow10(a + b) == pow10(a));
    } else {
        lemma_pow10_add(a, (b - 1) as nat);
        assert(pow10(a + b) == 10 * pow10((a + b - 1) as nat));
        assert((a + b - 1) as nat == a + (b - 1) as nat);
        lemma_mul_is_associative(10, pow10(a), pow10((b - 1) as nat));
        lemma_mul_is_commutative(10, pow10(a));
        lemma_mul_is_associative(pow10(a), 10, pow10((b - 1) as nat));
    }
}

pub proof fn lemma_pow10_monotone(a: nat, b: nat)
    requires
        a <= b,
    ensures
        pow10(a) <= pow10(b),
    decreases b,
{
    if a < b {
        lemma_pow10_monotone(a, (b - 1) as nat);
        lemma_pow10_positive((b - 1) as nat);
    }
}

impl Amount {
    /// A representable `Decimal` value.
    pub open spec fn wf(self) -> bool {
        self.scale <= MAX_SCALE && -MAX_MANTISSA <= self.mantissa <= MAX_MANTISSA
    }

    /// The amount with its mantissa negated.
    pub open spec fn neg_spec(self) -> Amount {
        Amount { mantissa: (-self.mantissa) as i128, scale: self.scale }
    }

    /// The exact value in units of 10^-28.
    pub open spec fn value(self) -> int {
        self.mantissa * pow10((MAX_SCALE - self.scale) as nat)
    }

    pub fn zero() -> (r: Amount)
        ensures
            r.wf(),
            r.value() == 0,
            r == (Amount { mantissa: 0, scale: 0 }),
    {
        Amount { mantissa: 0, scale: 0 }
    }

    pub fn is_zero(&self) -> (r: bool)
        requires
            self.wf(),
        ensures
            r == (self.value() == 0),
    {
        proof {
            lemma_value_sign(*self);
        }
        self.mantissa == 0
    }

    pub fn is_negative(&self) -> (r: bool)
        requires
            self.wf(),
        ensures
            r == (self.value() < 0),
    {
        proof {
            lemma_value_sign(*self);
        }
        self.mantissa < 0
    }

    pub fn is_positive(&self) -> (r: bool)
        requires
            self.wf(),
        ensures
            r == (self.value() > 0),
    {
        proof {
            lemma_value_sign(*self);
        }
        self.mantissa > 0
    }

    /// The negated amount (same scale).
    pub fn neg(&self) -> (r: Amount)
        requires
            self.wf(),
        ensures
            r.wf(),
            r.scale == self.scale,
            r.value() == -self.value(),
            r == self.neg_spec(),
    {
        proof {
            lemma_mul_unary_negation(self.mantissa as int, pow10((MAX_SCALE - self.scale) as nat));
        }
        Amount { mantissa: -self.mantissa, scale: self.scale }
    }
}

pub proof fn lemma_value_sign(a: Amount)
    requires
        a.wf(),
    ensures
        (a.value() < 0) == (a.mantissa < 0),
        (a.value() > 0) == (a.mantissa > 0),
        (a.value() == 0) == (a.mantissa == 0),
{
    let p = pow10((MAX_SCALE - a.scale) as nat);
    lemma_pow10_positive((MAX_SCALE - a.scale) as nat);
    if a.mantissa > 0 {
        lemma_mul_strictly_positive(a.mantissa as int, p);
        assert(a.value() > 0);
    } else if a.mantissa < 0 {
        lemma_mul_strictly_positive(-a.mantissa as int, p);
        lemma_mul_unary_negation(-a.mantissa as int, p);
        assert(a.value() < 0);
    } else {
        lemma_mul_basics(p);
        assert(a.value() == 0);
    }
}

proof fn lemma_pow10_28()
    ensures
        pow10(28) == 10000000000000000000000000000,
{
    reveal_with_fuel(pow10, 29);
}

/// 10^n as an integer, for n <= 28.
pub fn pow10_i128(n: u32) -> (r: i128)
    requires
        n <= MAX_SCALE,
    ensures
        r == pow10(n as nat),
        1 <= r <= 10000000000000000000000000000,
{
    let mut r: i128 = 1;
    let mut i: u32 = 0;
    while i < n
        invariant
            i <= n <= MAX_SCALE,
            r == pow10(i as nat),
            1 <= r,
            r * pow10((MAX_SCALE - i) as nat) == pow10(MAX_SCALE as nat),
        decreases n - i,
    {
        proof {
            lemma_pow10_add(1, (MAX_SCALE - i - 1) as nat);
            reveal_with_fuel(pow10, 2);
            assert(pow10(1) == 10);
            assert((MAX_SCALE - i) as nat == 1 + (MAX_SCALE - i - 1) as nat);
            lemma_pow10_positive((MAX_SCALE - i - 1) as nat);
            lemma_mul_is_associative(r as int, 10, pow10((MAX_SCALE - i - 1) as nat));
            lemma_pow10_28();
            lemma_mul_inequality(1, pow10((MAX_SCALE - i - 1) as nat), r * 10);
            lemma_mul_is_commutative(r * 10, pow10((MAX_SCALE - i - 1) as nat));
        }
        r = r * 10;
        i = i + 1;
    }
    proof {
        lemma_pow10_28();
        lemma_pow10_positive((MAX_SCALE - n) as nat);
        lemma_mul_inequality(1, pow10((MAX_SCALE - n) as nat), r as int);
        lemma_mul_is_commutative(r as int, pow10((MAX_SCALE - n) as nat));
    }
    r
}

/// The mantissa an exact value has at `scale`, when it has one.
pub open spec fn mantissa_at(v: int, scale: nat) -> int {
    v / pow10((MAX_SCALE - scale) as nat)
}

/// `v` (in units of 10^-28) has a representation at `scale`.
pub open spec fn representable_at(v: int, scale: nat) -> bool {
    &&& scale <= MAX_SCALE
    &&& v % pow10((MAX_SCALE - scale) as nat) == 0
    &&& -MAX_MANTISSA <= mantissa_at(v, scale) <= MAX_MANTISSA
}

pub open spec fn max_scale(a: Amount, b: Amount) -> u32 {
    if a.scale >= b.scale {
        a.scale
    } else {
        b.scale
    }
}

/// Rescale `a` up to `s` when the mantissa stays below `limit` in magnitude.
fn rescale_within(a: Amount, s: u32, limit: i128) -> (r: Option<i128>)
    requires
        a.wf(),
        a.scale <= s <= MAX_SCALE,
        0 < limit <= 2 * MAX_MANTISSA,
    ensures
        match r {
            Some(m) => -limit <= m <= limit && m * pow10((MAX_SCALE - s) as nat) == a.value(),
            None => a.mantissa * pow10((s - a.scale) as nat) > limit || a.mantissa * pow10(
                (s - a.scale) as nat,
            ) < -limit,
        },
{
    let k = s - a.scale;
    let p = pow10_i128(k);
    let bound = limit / p;
    proof {
        lemma_pow10_add((s - a.scale) as nat, (MAX_SCALE - s) as nat);
        assert((MAX_SCALE - a.scale) as nat == (s - a.scale) as nat + (MAX_SCALE - s) as nat);
        lemma_mul_is_associative(
            a.mantissa as int,
            pow10((s - a.scale) as nat),
            pow10((MAX_SCALE - s) as nat),
        );
    }
    if a.mantissa > bound || a.mantissa < -bound {
        proof {
            lemma_fundamental_div_mod(limit as int, p as int);
            vstd::arithmetic::div_mod::lemma_mod_pos_bound(limit as int, p as int);
            lemma_mul_is_distributive_add_other_way(p as int, bound as int, 1);
            lemma_mul_is_commutative(p as int, bound as int);
            lemma_mul_is_commutative(p as int, bound + 1);
            assert((bound + 1) * p == bound * p + p);
            assert(limit < (bound + 1) * p);
            if a.mantissa > bound {
                lemma_mul_inequality(bound + 1, a.mantissa as int, p as int);
                assert(a.mantissa * p > limit);
            } else {
                lemma_mul_inequality(bound + 1, -a.mantissa as int, p as int);
                lemma_mul_unary_negation(a.mantissa as int, p as int);
                assert(a.mantissa * p < -limit);
            }
        }
        None
    } else {
        proof {
            lemma_fundamental_div_mod(limit as int, p as int);
            vstd::arithmetic::div_mod::lemma_mod_pos_bound(limit as int, p as int);
            if a.mantissa >= 0 {
                lemma_mul_inequality(a.mantissa as int, bound as int, p as int);
            } else {
                lemma_mul_inequality(-a.mantissa as int, bound as int, p as int);
                lemma_mul_unary_negation(a.mantissa as int, p as int);
            }
            lemma_mul_is_commutative(bound as int, p as int);
        }
        let m = a.mantissa * p;
        proof {
            let j = (MAX_SCALE - s) as nat;
            let kk = (s - a.scale) as nat;
            assert(p == pow10(kk));
            assert(pow10((MAX_SCALE - a.scale) as nat) == pow10(kk + j));
            assert(pow10(kk + j) == pow10(kk) * pow10(j));
            assert(a.value() == a.mantissa * (pow10(kk) * pow10(j)));
            assert(m * pow10(j) == a.value());
            assert(bound * p <= limit);
            if a.mantissa >= 0 {
                assert(a.mantissa * p <= bound * p);
                assert(0 <= m <= limit);
            } else {
                assert((-a.mantissa) * p <= bound * p);
                assert(-m <= limit);
            }
        }
        Some(m)
    }
}

proof fn lemma_div_exact(m: int, p: int)
    requires
        p > 0,
    ensures
        (m * p) / p == m,
        (m * p) % p == 0,
{
    lemma_mul_is_commutative(m, p);
    vstd::arithmetic::div_mod::lemma_div_multiples_vanish(m, p);
    vstd::arithmetic::div_mod::lemma_mod_multiples_basic(m, p);
}

/// Exact `a + b` at the larger scale, or `None` when that value has no
/// 96-bit mantissa at that scale.
pub fn checked_add(a: Amount, b: Amount) -> (r: Option<Amount>)
    requires
        a.wf(),
        b.wf(),
    ensures
        match r {
            Some(c) => c.wf() && c.scale == max_scale(a, b) && c.value() == a.value() + b.value(),
            None => !representable_at(a.value() + b.value(), max_scale(a, b) as nat),
        },
{
    let s = if a.scale >= b.scale {
        a.scale
    } else {
        b.scale
    };
    let limit: i128 = 2 * MAX_MANTISSA;
    let ghost p = pow10((MAX_SCALE - s) as nat);
    proof {
        lemma_pow10_positive((MAX_SCALE - s) as nat);
    }
    let ra = rescale_within(a, s, limit);
    let rb = rescale_within(b, s, limit);
    match (ra, rb) {
        (Some(ma), Some(mb)) => {
            let m = ma + mb;
            proof {
                lemma_mul_is_distributive_add_other_way(p, ma as int, mb as int);
                lemma_div_exact(m as int, p);
            }
            if m > MAX_MANTISSA || m < -MAX_MANTISSA {
                None
            } else {
                Some(Amount { mantissa: m, scale: s })
            }
        },
        _ => {
            proof {
                // One operand is at the target scale already, so its
                // rescaled mantissa is within MAX_MANTISSA; the other one
                // exceeds twice that, hence so does the sum.
                let ka = (s - a.scale) as nat;
                let kb = (s - b.scale) as nat;
                let xa = a.mantissa * pow10(ka);
                let xb = b.mantissa * pow10(kb);
                lemma_pow10_add(ka, (MAX_SCALE - s) as nat);
                lemma_pow10_add(kb, (MAX_SCALE - s) as nat);
                assert((MAX_SCALE - a.scale) as nat == ka + (MAX_SCALE - s) as nat);
                assert((MAX_SCALE - b.scale) as nat == kb + (MAX_SCALE - s) as nat);
                lemma_mul_is_associative(a.mantissa as int, pow10(ka), p);
                lemma_mul_is_associative(b.mantissa as int, pow10(kb), p);
                if a.scale >= b.scale {
                    assert(ka == 0);
                    assert(pow10(0) == 1);
                    lemma_mul_basics(a.mantissa as int);
                    assert(xa == a.mantissa);
                } else {
                    assert(kb == 0);
                    assert(pow10(0) == 1);
                    lemma_mul_basics(b.mantissa as int);
                    assert(xb == b.mantissa);
                }
                lemma_mul_is_distributive_add_other_way(p, xa, xb);
                lemma_div_exact(xa + xb, p);
            }
            None
        },
    }
}

/// Exact `a - b` at the larger scale, or `None` when unrepresentable.
pub fn checked_sub(a: Amount, b: Amount) -> (r: Option<Amount>)
    requires
        a.wf(),
        b.wf(),
    ensures
        match r {
            Some(c) => c.wf() && c.scale == max_scale(a, b) && c.value() == a.value() - b.value(),
            None => !representable_at(a.value() - b.value(), max_scale(a, b) as nat),
        },
{
    let nb = b.neg();
    checked_add(a, nb)
}

/// Value equality of two amounts (`42.50 == 42.5`).
pub fn amounts_equal(a: Amount, b: Amount) -> (r: bool)
    requires
        a.wf(),
        b.wf(),
    ensures
        r == (a.value() == b.value()),
{
    match checked_sub(a, b) {
        Some(c) => c.is_zero(),
        None => {
            proof {
                if a.value() == b.value() {
                    let sc = max_scale(a, b);
                    let p = pow10((MAX_SCALE - sc) as nat);
                    lemma_pow10_positive((MAX_SCALE - sc) as nat);
                    assert(0int % p == 0) by {
                        vstd::arithmetic::div_mod::lemma_small_mod(0, p as nat);
                    }
                    assert(0int / p == 0) by {
                        vstd::arithmetic::div_mod::lemma_basic_div(0, p);
                    }
                    assert(representable_at(0, sc as nat));
                }
            }
            false
        },
    }
}

pub open spec fn sign_of(v: int) -> i8 {
    if v < 0 {
        -1i8
    } else if v == 0 {
        0i8
    } else {
        1i8
    }
}

/// Three-way comparison of the values of two amounts: -1, 0 or 1.
pub fn compare_amounts(a: Amount, b: Amount) -> (r: i8)
    requires
        a.wf(),
        b.wf(),
    ensures
        r == sign_of(a.value() - b.value()),
{
    let s = if a.scale >= b.scale {
        a.scale
    } else {
        b.scale
    };
    let limit: i128 = 2 * MAX_MANTISSA;
    let ghost p = pow10((MAX_SCALE - s) as nat);
    proof {
        lemma_pow10_positive((MAX_SCALE - s) as nat);
    }
    let ra = rescale_within(a, s, limit);
    let rb = rescale_within(b, s, limit);
    proof {
        let ka = (s - a.scale) as nat;
        let kb = (s - b.scale) as nat;
        lemma_pow10_add(ka, (MAX_SCALE - s) as nat);
        lemma_pow10_add(kb, (MAX_SCALE - s) as nat);
        assert((MAX_SCALE - a.scale) as nat == ka + (MAX_SCALE - s) as nat);
        assert((MAX_SCALE - b.scale) as nat == kb + (MAX_SCALE - s) as nat);
        lemma_mul_is_associative(a.mantissa as int, pow10(ka), p);
        lemma_mul_is_associative(b.mantissa as int, pow10(kb), p);
        if a.scale >= b.scale {
            assert(pow10(0) == 1);
            lemma_mul_basics(a.mantissa as int);
        } else {
            assert(pow10(0) == 1);
            lemma_mul_basics(b.mantissa as int);
        }
    }
    match (ra, rb) {
        (Some(ma), Some(mb)) => {
            proof {
                lemma_mul_is_distributive_sub_other_way(p, ma as int, mb as int);
                lemma_mul_is_commutative(p, ma - mb);
                if ma - mb > 0 {
                    lemma_mul_strictly_positive(ma - mb, p);
                } else if ma - mb < 0 {
                    lemma_mul_strictly_positive(mb - ma, p);
                    lemma_mul_unary_negation(mb - ma, p);
                } else {
                    lemma_mul_basics(p);
                }
            }
            if ma > mb {
                1
            } else if ma < mb {
                -1
            } else {
                0
            }
        },
        (None, _) => {
            // `a` needed rescaling and became larger in magnitude than
            // anything `b` (at its own scale) can reach.
            proof {
                let ka = (s - a.scale) as nat;
                let xa = a.mantissa * pow10(ka);
                let xb = b.mantissa as int;
                assert(xa > limit || xa < -limit);
                assert(a.scale < b.scale) by {
                    if a.scale >= b.scale {
                        assert(ka == 0);
                        assert(pow10(0) == 1);
                    }
                }
                assert(b.value() == xb * p);
                assert(a.value() == xa * p);
                lemma_pow10_positive(ka);
                if a.mantissa <= 0 {
                    lemma_mul_inequality(a.mantissa as int, 0, pow10(ka));
                    assert(xa <= 0);
                } else {
                    lemma_mul_strictly_positive(a.mantissa as int, pow10(ka));
                }
                lemma_mul_is_distributive_sub_other_way(p, xa, xb);
                if xa > limit {
                    lemma_mul_strictly_positive(xa - xb, p);
                } else {
                    lemma_mul_strictly_positive(xb - xa, p);
                    lemma_mul_unary_negation(xb - xa, p);
                }
            }
            if a.mantissa > 0 {
                1
            } else {
                -1
            }
        },
        (_, None) => {
            proof {
                let kb = (s - b.scale) as nat;
                let xa = a.mantissa as int;
                let xb = b.mantissa * pow10(kb);
                assert(xb > limit || xb < -limit);
                assert(b.scale < a.scale) by {
                    if b.scale >= a.scale {
                        assert(kb == 0);
                        assert(pow10(0) == 1);
                    }
                }
                assert(b.value() == xb * p);
                assert(a.value() == xa * p);
                lemma_pow10_positive(kb);
                if b.mantissa <= 0 {
                    lemma_mul_inequality(b.mantissa as int, 0, pow10(kb));
                    assert(xb <= 0);
                } else {
                    lemma_mul_strictly_positive(b.mantissa as int, pow10(kb));
                }
                lemma_mul_is_distributive_sub_other_way(p, xa, xb);
                if xb < -limit {
                    lemma_mul_strictly_positive(xa - xb, p);
                } else {
                    lemma_mul_strictly_positive(xb - xa, p);
                    lemma_mul_unary_negation(xb - xa, p);
                }
            }
            if b.mantissa > 0 {
                -1
            } else {
                1
            }
        },
    }
}

// ---------------------------------------------------------------------
// Decimal text (the `Display` form of `rust_decimal::Decimal`)
// ---------------------------------------------------------------------

pub open spec fn digit_char(d: nat) -> char {
    ((d % 10) + 48) as char
}

/// Decimal digits of `n`, most significant first; empty for zero.
pub open spec fn digits(n: nat) -> Seq<char>
    decreases n,
{
    if n == 0 {
        Seq::empty()
    } else {
        digits(n / 10).push(digit_char(n % 10))
    }
}

/// `digits` left-padded with zeros to at least `width` characters.
pub open spec fn padded_digits(n: nat, width: nat) -> Seq<char> {
    let d = digits(n);
    if d.len() >= width {
        d
    } else {
        Seq::new((width - d.len()) as nat, |i: int| '0') + d
    }
}

pub open spec fn abs(m: int) -> nat {
    if m < 0 {
        (-m) as nat
    } else {
        m as nat
    }
}

/// The text of an integer, as `Display` prints it.
pub open spec fn int_text(m: int) -> Seq<char> {
    (if m < 0 {
        seq!['-']
    } else {
        Seq::empty()
    }) + (if m == 0 {
        seq!['0']
    } else {
        digits(abs(m))
    })
}

/// The text of `mantissa * 10^-scale`: the sign, the whole part (`0` when
/// empty) and, for a positive scale, a point and exactly `scale` digits.
pub open spec fn decimal_text(mantissa: int, scale: nat) -> Seq<char> {
    if scale == 0 {
        int_text(mantissa)
    } else {
        let d = padded_digits(abs(mantissa), scale);
        let whole = d.subrange(0, d.len() - scale);
        (if mantissa < 0 {
            seq!['-']
        } else {
            Seq::empty()
        }) + (if whole.len() == 0 {
            seq!['0']
        } else {
            whole
        }) + seq!['.'] + d.subrange(d.len() - scale, d.len() as int)
    }
}

fn digit_to_char(d: u128) -> (c: char)
    requires
        d < 10,
    ensures
        c == digit_char(d as nat),
{
    let b: u8 = (d as u8) + 48;
    let c = crate::text::ascii_char(b);
    assert(c == digit_char(d as nat));
    c
}

/// Decimal digits of `n`.
pub fn digits_of(n: u128) -> (r: Vec<char>)
    ensures
        r@ == digits(n as nat),
{
    let mut rev: Vec<char> = Vec::new();
    let mut k: u128 = n;
    while k > 0
        invariant
            digits(n as nat) == digits(k as nat) + rev@.reverse(),
        decreases k,
    {
        let ghost before = rev@;
        let c = digit_to_char(k % 10);
        rev.push(c);
        assert(rev@.reverse() =~= seq![c] + before.reverse());
        assert(digits(k as nat) == digits((k / 10) as nat).push(c));
        assert(digits(k as nat) + before.reverse() =~= digits((k / 10) as nat) + rev@.reverse());
        k = k / 10;
    }
    assert(digits(n as nat) =~= rev@.reverse());
    let mut r: Vec<char> = Vec::new();
    let mut i: usize = rev.len();
    while i > 0
        invariant
            i <= rev@.len(),
            r@ == rev@.reverse().subrange(0, rev@.len() - i),
        decreases i,
    {
        i = i - 1;
        r.push(rev[i]);
        assert(r@ =~= rev@.reverse().subrange(0, rev@.len() - i));
    }
    assert(r@ =~= rev@.reverse());
    r
}

fn unsigned_abs(m: i128) -> (r: u128)
    ensures
        r == abs(m as int),
{
    if m < 0 {
        if m == i128::MIN {
            170141183460469231731687303715884105728u128
        } else {
            (-m) as u128
        }
    } else {
        m as u128
    }
}

/// Text of an integer (`i128` `Display`).
pub fn int_to_text(m: i128) -> (r: Vec<char>)
    ensures
        r@ == int_text(m as int),
{
    let mut r: Vec<char> = Vec::new();
    if m < 0 {
        r.push('-');
    }
    if m == 0 {
        r.push('0');
    } else {
        let d = digits_of(unsigned_abs(m));
        push_chars(&mut r, &d);
    }
    assert(r@ =~= int_text(m as int));
    r
}

/// Text of an amount, as `Decimal`'s `Display` prints it.
pub fn amount_text(a: Amount) -> (r: Vec<char>)
    ensures
        r@ == decimal_text(a.mantissa as int, a.scale as nat),
{
    if a.scale == 0 {
        return int_to_text(a.mantissa);
    }
    let scale = a.scale as usize;
    let raw = digits_of(unsigned_abs(a.mantissa));
    let mut d: Vec<char> = Vec::new();
    if raw.len() < scale {
        let pad = scale - raw.len();
        for i in 0..pad
            invariant
                d@ == Seq::new(i as nat, |j: int| '0'),
        {
            d.push('0');
            assert(d@ =~= Seq::new((i + 1) as nat, |j: int| '0'));
        }
    }
    push_chars(&mut d, &raw);
    let ghost dv = padded_digits(abs(a.mantissa as int), a.scale as nat);
    assert(d@ =~= dv);
    let whole_len = d.len() - scale;
    let mut r: Vec<char> = Vec::new();
    if a.mantissa < 0 {
        r.push('-');
    }
    if whole_len == 0 {
        r.push('0');
    } else {
        for i in 0..whole_len
            invariant
                whole_len <= d@.len(),
                r@ == (if a.mantissa < 0 {
                    seq!['-']
                } else {
                    Seq::empty()
                }) + d@.subrange(0, i as int),
        {
            r.push(d[i]);
            assert(r@ =~= (if a.mantissa < 0 {
                seq!['-']
            } else {
                Seq::empty()
            }) + d@.subrange(0, i + 1));
        }
    }
    let ghost head = r@;
    r.push('.');
    let mut i = whole_len;
    while i < d.len()
        invariant
            whole_len <= i <= d@.len(),
            r@ == head + seq!['.'] + d@.subrange(whole_len as int, i as int),
        decreases d@.len() - i,
    {
        r.push(d[i]);
        assert(r@ =~= head + seq!['.'] + d@.subrange(whole_len as int, i + 1));
        i = i + 1;
    }
    assert(r@ =~= decimal_text(a.mantissa as int, a.scale as nat));
    r
}

/// `Decimal::to_string`.
pub fn amount_to_string(a: Amount) -> (r: String)
    ensures
        r@ == decimal_text(a.mantissa as int, a.scale as nat),
{
    let v = amount_text(a);
    crate::text::chars_to_string(v.as_slice())
}

/// What `str::parse::<rust_decimal::Decimal>` yields: (mantissa, scale) of
/// the value, or the text of the parse error.
pub uninterp spec fn decimal_parse(s: Seq<char>) -> Result<(i128, u32), Seq<char>>;

pub open spec fn parsed_amount(s: Seq<char>) -> Option<Amount> {
    match decimal_parse(s) {
        Ok((m, sc)) => Some(Amount { mantissa: m, scale: sc }),
        Err(_) => None,
    }
}

/// Calls `<rust_decimal::Decimal as FromStr>::from_str`. Its result depends on
/// the text alone and is named `decimal_parse`; the amount is read back with
/// `Decimal::mantissa` and `Decimal::scale`, and the error as its `Display`
/// text. Every `Decimal` has a mantissa below 2^96 in magnitude and a scale
/// of at most 28; the grammar it accepts is not stated here.
#[verifier::external_body]
pub(crate) fn parse_amount(s: &str) -> (r: Result<Amount, String>)
    ensures
        match (r, decimal_parse(s@)) {
            (Ok(a), Ok((m, sc))) => a == Amount { mantissa: m, scale: sc },
            (Err(e), Err(t)) => e@ == t,
            _ => false,
        },
        r matches Ok(a) ==> a.wf(),
{
    match s.parse::<rust_decimal::Decimal>() {
        Ok(d) => Ok(Amount { mantissa: d.mantissa(), scale: d.scale() }),
        Err(e) => Err(e.to_string()),
    }
}

/// Unsigned part of `{:.2}`: the whole digits (`0` when none), a point
/// and the first two fractional digits, zero-filled (digits beyond the
/// second are dropped, not rounded).
pub open spec fn fixed2_body(mantissa: int, scale: nat) -> Seq<char> {
    fixed2_whole(mantissa, scale) + seq!['.'] + fixed2_frac(mantissa, scale)
}

/// The whole digits of `{:.2}` (`0` when there are none).
pub open spec fn fixed2_whole(mantissa: int, scale: nat) -> Seq<char> {
    let d = padded_digits(abs(mantissa), scale);
    let whole = d.subrange(0, d.len() - scale);
    if whole.len() == 0 {
        seq!['0']
    } else {
        whole
    }
}

/// The two fractional digits of `{:.2}`, zero-filled.
pub open spec fn fixed2_frac(mantissa: int, scale: nat) -> Seq<char> {
    let d = padded_digits(abs(mantissa), scale);
    let w = d.len() - scale;
    (d.subrange(w, d.len() as int) + seq!['0', '0']).subrange(0, 2)
}

/// `format!("{:.2}", d)` of a `Decimal`.
pub open spec fn fixed2_text(mantissa: int, scale: nat) -> Seq<char> {
    (if mantissa < 0 {
        seq!['-']
    } else {
        Seq::empty()
    }) + fixed2_body(mantissa, scale)
}

/// `format!("{:+.2}", d)` of a `Decimal`.
pub open spec fn signed_fixed2_text(mantissa: int, scale: nat) -> Seq<char> {
    (if mantissa < 0 {
        seq!['-']
    } else {
        seq!['+']
    }) + fixed2_body(mantissa, scale)
}

fn fixed2_body_chars(a: Amount) -> (r: Vec<char>)
    ensures
        r@ == fixed2_body(a.mantissa as int, a.scale as nat),
{
    let scale = a.scale as usize;
    let raw = digits_of(unsigned_abs(a.mantissa));
    let mut d: Vec<char> = Vec::new();
    if raw.len() < scale {
        let pad = scale - raw.len();
        for i in 0..pad
            invariant
                d@ == Seq::new(i as nat, |j: int| '0'),
        {
            d.push('0');
            assert(d@ =~= Seq::new((i + 1) as nat, |j: int| '0'));
        }
    }
    push_chars(&mut d, &raw);
    assert(d@ =~= padded_digits(abs(a.mantissa as int), a.scale as nat));
    let w = d.len() - scale;
    let mut r: Vec<char> = Vec::new();
    if w == 0 {
        r.push('0');
    } else {
        for i in 0..w
            invariant
                w <= d@.len(),
                r@ == d@.subrange(0, i as int),
        {
            r.push(d[i]);
            assert(r@ =~= d@.subrange(0, i + 1));
        }
    }
    let ghost head = r@;
    r.push('.');
    let c1 = if w < d.len() {
        d[w]
    } else {
        '0'
    };
    let c2 = if d.len() - w > 1 {
        d[w + 1]
    } else {
        '0'
    };
    r.push(c1);
    r.push(c2);
    let ghost tail = d@.subrange(w as int, d@.len() as int) + seq!['0', '0'];
    assert(tail[0] == c1);
    assert(tail[1] == c2);
    assert(tail.subrange(0, 2) =~= seq![c1, c2]);
    assert(r@ =~= fixed2_body(a.mantissa as int, a.scale as nat));
    r
}

/// `format!("{:.2}", amount)`.
pub fn fixed2(a: Amount) -> (r: Vec<char>)
    ensures
        r@ == fixed2_text(a.mantissa as int, a.scale as nat),
{
    let mut r: Vec<char> = Vec::new();
    if a.mantissa < 0 {
        r.push('-');
    }
    push_chars(&mut r, &fixed2_body_chars(a));
    assert(r@ =~= fixed2_text(a.mantissa as int, a.scale as nat));
    r
}

/// The first fractional digit of `{:.1}`, zero-filled.
pub open spec fn fixed1_frac(mantissa: int, scale: nat) -> Seq<char> {
    fixed2_frac(mantissa, scale).subrange(0, 1)
}

/// `format!("{:.1}", d)` of a `Decimal` (digits beyond the first
/// fractional one are dropped, not rounded).
pub open spec fn fixed1_text(mantissa: int, scale: nat) -> Seq<char> {
    (if mantissa < 0 {
        seq!['-']
    } else {
        Seq::empty()
    }) + fixed2_whole(mantissa, scale) + seq!['.'] + fixed1_frac(mantissa, scale)
}

/// `format!("{:.1}", amount)`.
pub fn fixed1(a: Amount) -> (r: Vec<char>)
    ensures
        r@ == fixed1_text(a.mantissa as int, a.scale as nat),
{
    let body = fixed2_body_chars(a);
    let ghost whole = fixed2_whole(a.mantissa as int, a.scale as nat);
    let ghost frac = fixed2_frac(a.mantissa as int, a.scale as nat);
    assert(body@ == whole + seq!['.'] + frac);
    assert(frac.len() == 2);
    let mut r: Vec<char> = Vec::new();
    if a.mantissa < 0 {
        r.push('-');
    }
    let ghost start = r@;
    let n = body.len() - 1;
    for i in 0..n
        invariant
            n + 1 == body@.len(),
            r@ == start + body@.subrange(0, i as int),
    {
        r.push(body[i]);
        assert(r@ =~= start + body@.subrange(0, i + 1));
    }
    assert(body@.subrange(0, n as int) =~= whole + seq!['.'] + frac.subrange(0, 1));
    assert(r@ =~= fixed1_text(a.mantissa as int, a.scale as nat));
    r
}

/// `format!("{:+.2}", amount)`.
pub fn signed_fixed2(a: Amount) -> (r: Vec<char>)
    ensures
        r@ == signed_fixed2_text(a.mantissa as int, a.scale as nat),
{
    let mut r: Vec<char> = Vec::new();
    if a.mantissa < 0 {
        r.push('-');
    } else {
        r.push('+');
    }
    push_chars(&mut r, &fixed2_body_chars(a));
    assert(r@ =~= signed_fixed2_text(a.mantissa as int, a.scale as nat));
    r
}

/// Exact sum of a list of amounts, or `None` when a partial sum has no
/// representation (summing left to right, as `Iterator::sum` does).
pub open spec fn sum_amounts(v: Seq<Amount>) -> Option<Amount>
    decreases v.len(),
{
    if v.len() == 0 {
        Some(Amount { mantissa: 0, scale: 0 })
    } else {
        match sum_amounts(v.drop_last()) {
            Some(acc) => if representable_at(acc.value() + v.last().value(), max_scale(acc, v.last()) as nat) {
                Some(Amount {
                    mantissa: mantissa_at(acc.value() + v.last().value(), max_scale(acc, v.last()) as nat) as i128,
                    scale: max_scale(acc, v.last()),
                })
            } else {
                None
            },
            None => None,
        }
    }
}

/// The value of a list of amounts (in units of 10^-28).
pub open spec fn total_value(v: Seq<Amount>) -> int
    decreases v.len(),
{
    if v.len() == 0 {
        0
    } else {
        total_value(v.drop_last()) + v.last().value()
    }
}

pub proof fn lemma_exact_result(c: Amount, v: int, sc: u32)
    requires
        c.wf(),
        c.scale == sc,
        c.value() == v,
    ensures
        representable_at(v, sc as nat),
        mantissa_at(v, sc as nat) == c.mantissa,
{
    let p = pow10((MAX_SCALE - sc) as nat);
    lemma_pow10_positive((MAX_SCALE - sc) as nat);
    lemma_div_exact(c.mantissa as int, p);
}

/// `Iterator::sum` over amounts, exactly.
pub fn sum_all(v: &Vec<Amount>) -> (r: Option<Amount>)
    requires
        forall|i: int| 0 <= i < v@.len() ==> (#[trigger] v@[i]).wf(),
    ensures
        r == sum_amounts(v@),
        r matches Some(s) ==> s.wf() && s.value() == total_value(v@),
{
    let mut acc = Amount::zero();
    for i in 0..v.len()
        invariant
            forall|k: int| 0 <= k < v@.len() ==> (#[trigger] v@[k]).wf(),
            acc.wf(),
            sum_amounts(v@.subrange(0, i as int)) == Some(acc),
            acc.value() == total_value(v@.subrange(0, i as int)),
    {
        assert(v@.subrange(0, i + 1).drop_last() =~= v@.subrange(0, i as int));
        let x = v[i];
        match checked_add(acc, x) {
            Some(c) => {
                proof {
                    lemma_exact_result(c, acc.value() + x.value(), max_scale(acc, x));
                }
                acc = c;
            },
            None => {
                proof {
                    lemma_sum_none_stays(v@, i as int + 1, v@.len() as int);
                }
                assert(v@.subrange(0, v@.len() as int) =~= v@);
                return None;
            },
        }
    }
    assert(v@.subrange(0, v@.len() as int) =~= v@);
    Some(acc)
}

proof fn lemma_sum_none_stays(v: Seq<Amount>, k: int, n: int)
    requires
        0 <= k <= n <= v.len(),
        sum_amounts(v.subrange(0, k)) is None,
    ensures
        sum_amounts(v.subrange(0, n)) is None,
    decreases n - k,
{
    if k < n {
        lemma_sum_none_stays(v, k, n - 1);
        assert(v.subrange(0, n).drop_last() =~= v.subrange(0, n - 1));
    }
}

/// A value representable at a scale is what its mantissa there denotes.
pub proof fn lemma_representable_value(v: int, sc: u32)
    requires
        representable_at(v, sc as nat),
    ensures
        (Amount { mantissa: mantissa_at(v, sc as nat) as i128, scale: sc }).wf(),
        (Amount { mantissa: mantissa_at(v, sc as nat) as i128, scale: sc }).value() == v,
{
    let p = pow10((MAX_SCALE - sc) as nat);
    lemma_pow10_positive((MAX_SCALE - sc) as nat);
    lemma_fundamental_div_mod(v, p);
    lemma_mul_is_commutative(p, v / p);
}

/// A sum that exists is well formed and has the exact total value.
pub proof fn lemma_sum_value(v: Seq<Amount>)
    ensures
        sum_amounts(v) matches Some(s) ==> s.wf() && s.value() == total_value(v),
    decreases v.len(),
{
    if v.len() > 0 {
        lemma_sum_value(v.drop_last());
        if let Some(acc) = sum_amounts(v.drop_last()) {
            let t = acc.value() + v.last().value();
            let sc = max_scale(acc, v.last());
            if representable_at(t, sc as nat) {
                lemma_representable_value(t, sc);
            }
        }
    } else {
        assert(pow10(28) > 0) by {
            lemma_pow10_positive(28);
        }
    }
}

/// The whole and fractional digits of `{:.2}` of an amount's magnitude.
pub fn fixed2_parts(a: Amount) -> (r: (Vec<char>, Vec<char>))
    ensures
        r.0@ == fixed2_whole(a.mantissa as int, a.scale as nat),
        r.1@ == fixed2_frac(a.mantissa as int, a.scale as nat),
{
    let body = fixed2_body_chars(a);
    let ghost w = fixed2_whole(a.mantissa as int, a.scale as nat);
    let ghost f = fixed2_frac(a.mantissa as int, a.scale as nat);
    assert(f.len() == 2);
    assert(body@.len() == w.len() + 3);
    let n = body.len() - 3;
    let mut whole: Vec<char> = Vec::new();
    for i in 0..n
        invariant
            n == body@.len() - 3,
            body@ == w + seq!['.'] + f,
            whole@ == body@.subrange(0, i as int),
    {
        whole.push(body[i]);
        assert(whole@ =~= body@.subrange(0, i + 1));
    }
    let mut frac: Vec<char> = Vec::new();
    frac.push(body[n + 1]);
    frac.push(body[n + 2]);
    assert(whole@ =~= w);
    assert(frac@ =~= f);
    (whole, frac)
}

/// Negating the mantissa negates the value.
pub proof fn lemma_negated_value(a: Amount)
    requires
        a.wf(),
    ensures
        (Amount { mantissa: (-a.mantissa) as i128, scale: a.scale }).wf(),
        (Amount { mantissa: (-a.mantissa) as i128, scale: a.scale }).value() == -a.value(),
{
    lemma_mul_unary_negation(a.mantissa as int, pow10((MAX_SCALE - a.scale) as nat));
}

/// Zero at scale zero is worth zero.
pub proof fn lemma_zero_value()
    ensures
        (Amount { mantissa: 0, scale: 0 }).value() == 0,
        (Amount { mantissa: 0, scale: 0 }).wf(),
{
    lemma_mul_basics(pow10(28));
}

/// `rust_decimal::Decimal::round_dp(2)`: an amount with at most two
/// places is kept as it is; a longer one is rounded to two places, half to
/// even (banker's rounding), on its magnitude, keeping its sign.
pub open spec fn decimal_round2(a: Amount) -> Amount {
    if a.scale <= 2 {
        a
    } else {
        let d = pow10((a.scale - 2) as nat);
        let m = if a.mantissa < 0 {
            -a.mantissa
        } else {
            a.mantissa as int
        };
        let q = m / d;
        let rem = m % d;
        let r = if 2 * rem > d || (2 * rem == d && q % 2 == 1) {
            q + 1
        } else {
            q
        };
        Amount {
            mantissa: (if a.mantissa < 0 {
                -r
            } else {
                r
            }) as i128,
            scale: 2,
        }
    }
}

/// Calls `rust_decimal::Decimal::round_dp(2)`, which keeps an amount of at
/// most two places as it is and otherwise rounds the magnitude to two
/// places, half to even, keeping the sign (see `decimal_round2`).
#[verifier::external_body]
pub(crate) fn round_cents(a: Amount) -> (r: Amount)
    requires
        a.wf(),
    ensures
        r == decimal_round2(a),
        r.wf(),
{
    let d = rust_decimal::Decimal::from_i128_with_scale(a.mantissa, a.scale).round_dp(2);
    Amount { mantissa: d.mantissa(), scale: d.scale() }
}

/// The amount of a line: quantity times unit price rounded to cents, or
/// `None` where the product overflows.
pub open spec fn decimal_line_product(q: Amount, p: Amount) -> Option<Amount> {
    match decimal_product(q, p) {
        Some(x) => Some(decimal_round2(x)),
        None => None,
    }
}

/// The amount of a line: quantity times unit price, rounded to cents
/// (`None` when the product overflows).
pub fn line_amount(q: Amount, p: Amount) -> (r: Option<Amount>)
    requires
        q.wf(),
        p.wf(),
    ensures
        r == decimal_line_product(q, p),
        r matches Some(a) ==> a.wf(),
{
    match decimal_mul(q, p) {
        Some(x) => Some(round_cents(x)),
        None => None,
    }
}

/// The amount of an integer count (scale 0).
pub fn from_int(n: i64) -> (r: Amount)
    ensures
        r.wf(),
        r == (Amount { mantissa: n as i128, scale: 0 }),
        r.value() == n * pow10(28),
{
    Amount { mantissa: n as i128, scale: 0 }
}

/// The amount an exact value has at `scale`.
pub open spec fn exact_amount(v: int, scale: u32) -> Amount {
    Amount { mantissa: mantissa_at(v, scale as nat) as i128, scale }
}

/// What `rust_decimal::Decimal::checked_div` yields for two amounts.
pub uninterp spec fn decimal_quotient(a: Amount, b: Amount) -> Option<Amount>;

/// Calls `rust_decimal::Decimal::checked_div`, which is `None` exactly
/// where the `/` operator panics: on a zero divisor or an overflow. A zero
/// dividend over a non-zero divisor gives `Decimal::ZERO`. Its result
/// depends on the two amounts alone and is named `decimal_quotient`; the
/// digits of other quotients are not stated here.
#[verifier::external_body]
pub(crate) fn decimal_div(a: Amount, b: Amount) -> (r: Option<Amount>)
    requires
        a.wf(),
        b.wf(),
    ensures
        r == decimal_quotient(a, b),
        r matches Some(q) ==> q.wf(),
        b.value() == 0 ==> r is None,
        a.value() == 0 && b.value() != 0 ==> r == Some(Amount { mantissa: 0, scale: 0 }),
{
    let ad = rust_decimal::Decimal::from_i128_with_scale(a.mantissa, a.scale);
    let bd = rust_decimal::Decimal::from_i128_with_scale(b.mantissa, b.scale);
    ad.checked_div(bd).map(|x| Amount { mantissa: x.mantissa(), scale: x.scale() })
}

/// What `rust_decimal::Decimal::checked_mul` yields for two amounts.
pub uninterp spec fn decimal_product(a: Amount, b: Amount) -> Option<Amount>;

/// Calls `rust_decimal::Decimal::checked_mul`, which is `None` exactly
/// where the `*` operator panics (an overflow). Its result depends on the
/// two amounts alone and is named `decimal_product`; how it rounds a
/// product with more than 28 fractional digits is not stated here.
#[verifier::external_body]
pub(crate) fn decimal_mul(a: Amount, b: Amount) -> (r: Option<Amount>)
    requires
        a.wf(),
        b.wf(),
    ensures
        r == decimal_product(a, b),
        r matches Some(q) ==> q.wf(),
{
    let ad = rust_decimal::Decimal::from_i128_with_scale(a.mantissa, a.scale);
    let bd = rust_decimal::Decimal::from_i128_with_scale(b.mantissa, b.scale);
    ad.checked_mul(bd).map(|x| Amount { mantissa: x.mantissa(), scale: x.scale() })
}

/// An exact value with a representation at `scale` is the value of its
/// amount there.
pub proof fn lemma_exact_amount(v: int, scale: u32)
    requires
        representable_at(v, scale as nat),
    ensures
        exact_amount(v, scale).wf(),
        exact_amount(v, scale).value() == v,
{
    let p = pow10((MAX_SCALE - scale) as nat);
    lemma_pow10_positive((MAX_SCALE - scale) as nat);
    lemma_fundamental_div_mod(v, p);
    lemma_mul_is_commutative(p, v / p);
}

} // verus!
