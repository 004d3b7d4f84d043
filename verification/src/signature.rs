//! Request signatures and secrets: HMAC-SHA256 `sha256=<hex>` signature
//! checks for incoming events and bank-feed webhooks, lower-case hex
//! encoding and decoding, token hashing and fresh secrets.
use vstd::prelude::*;
use vstd::string::StringSliceAdditionalSpecFns;
use hmac::Mac;
use sha2::Digest;
use rand::RngCore;
use crate::text::{str_to_chars, chars_to_string, trim_chars, trim_seq};

verus! {

/// HMAC-SHA256 of `msg` under `key`.
pub uninterp spec fn hmac_sha256(key: Seq<u8>, msg: Seq<u8>) -> Seq<u8>;

/// SHA-256 digest of `data`.
pub uninterp spec fn sha256(data: Seq<u8>) -> Seq<u8>;

/// `Hmac::<Sha256>::new_from_slice(key)` then `update(msg)` and
/// `finalize().into_bytes()`: the 32-byte MAC. HMAC accepts keys of every
/// length, so the constructor does not fail.
#[verifier::external_body]
fn hmac_sha256_bytes(key: &[u8], msg: &[u8]) -> (r: Vec<u8>)
    ensures
        r@ == hmac_sha256(key@, msg@),
        r@.len() == 32,
{
    let mut mac = <hmac::Hmac<sha2::Sha256> as Mac>::new_from_slice(key).expect("any key length");
    mac.update(msg);
    mac.finalize().into_bytes().to_vec()
}

/// `sha2::Sha256::digest(data)`: the 32-byte digest.
#[verifier::external_body]
fn sha256_bytes(data: &[u8]) -> (r: Vec<u8>)
    ensures
        r@ == sha256(data@),
        r@.len() == 32,
{
    sha2::Sha256::digest(data).to_vec()
}

/// `rand::thread_rng().fill_bytes` on a buffer of `n` bytes: `n` bytes from
/// the thread-local CSPRNG. Nothing is promised of their values.
#[verifier::external_body]
fn random_bytes(n: usize) -> (r: Vec<u8>)
    ensures
        r@.len() == n,
{
    let mut bytes = vec![0u8; n];
    rand::thread_rng().fill_bytes(&mut bytes);
    bytes
}

pub open spec fn lower_hex_digit(n: u8) -> char {
    if n < 10 {
        ((n + 48) as u32) as char
    } else {
        ((n - 10 + 97) as u32) as char
    }
}

/// Lower-case hex text of bytes (`hex::encode`).
pub open spec fn hex_text(b: Seq<u8>) -> Seq<char>
    decreases b.len(),
{
    if b.len() == 0 {
        Seq::empty()
    } else {
        hex_text(b.drop_last()) + seq![lower_hex_digit(b.last() / 16), lower_hex_digit(b.last() % 16)]
    }
}

fn hex_digit_char(n: u8) -> (c: char)
    requires
        n < 16,
    ensures
        c == lower_hex_digit(n),
{
    if n < 10 {
        let c = crate::text::ascii_char(n + 48);
        assert(c == lower_hex_digit(n));
        c
    } else {
        let c = crate::text::ascii_char(n - 10 + 97);
        assert(c == lower_hex_digit(n));
        c
    }
}

/// `hex::encode`.
pub fn hex_encode(b: &[u8]) -> (r: String)
    ensures
        r@ == hex_text(b@),
{
    let mut out: Vec<char> = Vec::new();
    for i in 0..b.len()
        invariant
            out@ == hex_text(b@.subrange(0, i as int)),
    {
        assert(b@.subrange(0, i + 1).drop_last() =~= b@.subrange(0, i as int));
        let x = b[i];
        out.push(hex_digit_char(x / 16));
        out.push(hex_digit_char(x % 16));
        assert(out@ =~= hex_text(b@.subrange(0, i + 1)));
    }
    assert(b@.subrange(0, b@.len() as int) =~= b@);
    chars_to_string(out.as_slice())
}

/// Value of one hex digit byte (either case).
pub open spec fn hex_val(c: u8) -> Option<u8> {
    if 65 <= c && c <= 70 {
        Some((c - 65 + 10) as u8)
    } else if 97 <= c && c <= 102 {
        Some((c - 97 + 10) as u8)
    } else if 48 <= c && c <= 57 {
        Some((c - 48) as u8)
    } else {
        None
    }
}

/// Bytes `d[0..2n]` decoded pairwise, if every byte is a hex digit.
pub open spec fn hex_pairs(d: Seq<u8>, n: int) -> Option<Seq<u8>>
    decreases n,
{
    if n <= 0 {
        Some(Seq::empty())
    } else {
        match (hex_pairs(d, n - 1), hex_val(d[2 * n - 2]), hex_val(d[2 * n - 1])) {
            (Some(prev), Some(hi), Some(lo)) => Some(prev.push((hi * 16 + lo) as u8)),
            _ => None,
        }
    }
}

/// `hex::decode`: odd length or a non-hex byte fails.
pub open spec fn hex_decoded(d: Seq<u8>) -> Option<Seq<u8>> {
    if d.len() % 2 != 0 {
        None
    } else {
        hex_pairs(d, (d.len() / 2) as int)
    }
}

fn hex_value(c: u8) -> (r: Option<u8>)
    ensures
        r == hex_val(c),
{
    if 65 <= c && c <= 70 {
        Some(c - 65 + 10)
    } else if 97 <= c && c <= 102 {
        Some(c - 97 + 10)
    } else if 48 <= c && c <= 57 {
        Some(c - 48)
    } else {
        None
    }
}

proof fn lemma_hex_pairs_none(d: Seq<u8>, k: int, n: int)
    requires
        0 <= k <= n,
        hex_pairs(d, k) is None,
    ensures
        hex_pairs(d, n) is None,
    decreases n - k,
{
    if k < n {
        lemma_hex_pairs_none(d, k, n - 1);
    }
}

/// `hex::decode`.
pub fn hex_decode(d: &[u8]) -> (r: Option<Vec<u8>>)
    ensures
        match r {
            Some(v) => hex_decoded(d@) == Some(v@),
            None => hex_decoded(d@) is None,
        },
{
    if d.len() % 2 != 0 {
        return None;
    }
    let n = d.len() / 2;
    let mut out: Vec<u8> = Vec::new();
    for i in 0..n
        invariant
            n == d@.len() / 2,
            d@.len() % 2 == 0,
            d@.len() == d.len(),
            d.len() <= usize::MAX,
            hex_pairs(d@, i as int) == Some(out@),
    {
        let hi = hex_value(d[2 * i]);
        let lo = hex_value(d[2 * i + 1]);
        match (hi, lo) {
            (Some(h), Some(l)) => {
                out.push(h * 16 + l);
                assert(hex_pairs(d@, i + 1) == Some(out@));
            },
            _ => {
                proof {
                    lemma_hex_pairs_none(d@, i + 1, n as int);
                }
                return None;
            },
        }
    }
    Some(out)
}

/// The value of a signature header checks out: after trimming, it is
/// `sha256=` followed (modulo surrounding whitespace) by the hex of the
/// HMAC-SHA256 of the body under the secret.
pub open spec fn signature_valid(body: Seq<u8>, header: Seq<char>, secret: Seq<char>) -> bool {
    let t = trim_seq(header);
    let prefix = "sha256="@;
    &&& t.len() >= prefix.len()
    &&& t.subrange(0, prefix.len() as int) == prefix
    &&& hex_decoded(
        vstd::utf8::encode_utf8(trim_seq(t.subrange(prefix.len() as int, t.len() as int))),
    ) == Some(hmac_sha256(vstd::utf8::encode_utf8(secret), body))
}

fn bytes_equal_ct(a: &Vec<u8>, b: &Vec<u8>) -> (r: bool)
    requires
        a@.len() == b@.len(),
    ensures
        r == (a@ == b@),
{
    let mut diff: u8 = 0;
    for i in 0..a.len()
        invariant
            a@.len() == b@.len(),
            (diff == 0) == (forall|k: int| 0 <= k < i ==> a@[k] == b@[k]),
    {
        let ai = a[i];
        let bi = b[i];
        let x = ai ^ bi;
        assert((x == 0) == (ai == bi)) by (bit_vector)
            requires
                x == ai ^ bi,
        ;
        let nd = diff | x;
        assert((nd == 0) == (diff == 0 && x == 0)) by (bit_vector)
            requires
                nd == diff | x,
        ;
        diff = nd;
    }
    if diff == 0 {
        assert(a@ =~= b@);
    }
    diff == 0
}

fn strip_sha256_prefix(t: &Vec<char>) -> (r: Option<Vec<char>>)
    ensures
        match r {
            Some(rest) => t@.len() >= 7 && t@.subrange(0, 7) == "sha256="@ && rest@ == t@.subrange(
                7,
                t@.len() as int,
            ),
            None => !(t@.len() >= 7 && t@.subrange(0, 7) == "sha256="@),
        },
{
    let prefix = str_to_chars("sha256=");
    proof {
        reveal_strlit("sha256=");
    }
    if t.len() < prefix.len() {
        return None;
    }
    for i in 0..prefix.len()
        invariant
            prefix@ == "sha256="@,
            prefix@.len() == 7,
            t@.len() >= 7,
            forall|k: int| 0 <= k < i ==> t@[k] == prefix@[k],
    {
        if t[i] != prefix[i] {
            assert(t@.subrange(0, 7)[i as int] != prefix@[i as int]);
            return None;
        }
    }
    assert(t@.subrange(0, 7) =~= prefix@);
    let mut rest: Vec<char> = Vec::new();
    let mut i: usize = 7;
    while i < t.len()
        invariant
            7 <= i <= t@.len(),
            rest@ == t@.subrange(7, i as int),
        decreases t@.len() - i,
    {
        rest.push(t[i]);
        assert(rest@ =~= t@.subrange(7, i + 1));
        i = i + 1;
    }
    Some(rest)
}

/// Verify `sha256=<hex>` HMAC-SHA256 over the raw body. Fails closed; the
/// comparison takes the same time wherever the bytes differ.
pub fn verify_signature(body: &[u8], header: &str, secret: &str) -> (r: bool)
    ensures
        r == signature_valid(body@, header@, secret@),
{
    proof {
        reveal_strlit("sha256=");
    }
    let t = trim_chars(&str_to_chars(header));
    let rest = match strip_sha256_prefix(&t) {
        Some(x) => x,
        None => {
            return false;
        },
    };
    let expected = hmac_sha256_bytes(secret.as_bytes(), body);
    let hex_part = chars_to_string(trim_chars(&rest).as_slice());
    let provided = match hex_decode(hex_part.as_str().as_bytes()) {
        Some(p) => p,
        None => {
            return false;
        },
    };
    if provided.len() != expected.len() {
        return false;
    }
    bytes_equal_ct(&provided, &expected)
}

/// A bank-feed webhook signature checks out: the trimmed header is the hex
/// (either case) of the HMAC-SHA256 of the body under the secret.
pub open spec fn plaid_signature_valid(body: Seq<u8>, header: Seq<char>, secret: Seq<char>) -> bool {
    hex_decoded(vstd::utf8::encode_utf8(trim_seq(header))) == Some(
        hmac_sha256(vstd::utf8::encode_utf8(secret), body),
    )
}

/// Verify a Plaid webhook signature (HMAC-SHA256 of the raw body, hex in
/// the header). Fails closed; constant-time comparison.
pub fn verify_plaid_signature(body: &[u8], header: &str, secret: &str) -> (r: bool)
    ensures
        r == plaid_signature_valid(body@, header@, secret@),
{
    let expected = hmac_sha256_bytes(secret.as_bytes(), body);
    let hex_part = chars_to_string(trim_chars(&str_to_chars(header)).as_slice());
    let provided = match hex_decode(hex_part.as_str().as_bytes()) {
        Some(p) => p,
        None => {
            return false;
        },
    };
    if provided.len() != expected.len() {
        return false;
    }
    bytes_equal_ct(&provided, &expected)
}

/// Lower-case hex SHA-256 of a share token (what is stored instead of it).
pub fn hash_token(token: &str) -> (r: String)
    ensures
        r@ == hex_text(sha256(vstd::utf8::encode_utf8(token@))),
{
    let d = sha256_bytes(token.as_bytes());
    hex_encode(d.as_slice())
}

/// The incoming-events secret made of the given random bytes: `oa_in_`
/// followed by their hex.
pub fn incoming_secret_from(bytes: &[u8]) -> (r: String)
    ensures
        r@ == "oa_in_"@ + hex_text(bytes@),
{
    let h = hex_encode(bytes);
    let mut out = str_to_chars("oa_in_");
    crate::escape::push_chars(&mut out, &str_to_chars(h.as_str()));
    chars_to_string(out.as_slice())
}

/// A fresh incoming-events secret: `oa_in_` and 24 random bytes in hex.
pub fn generate_incoming_secret() -> (r: String)
    ensures
        exists|b: Seq<u8>| b.len() == 24 && r@ == "oa_in_"@ + hex_text(b),
{
    let bytes = random_bytes(24);
    incoming_secret_from(bytes.as_slice())
}

} // verus!
