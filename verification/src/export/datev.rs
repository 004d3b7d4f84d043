//! DATEV Buchungsstapel CSV: one booking line per balanced transaction
//! of the period.
use vstd::prelude::*;
use crate::amount::{amount_text, decimal_text, amounts_equal};
use crate::date::{Date, date_dmy_compact, dmy_compact_text};
use crate::escape::{push_str, push_chars, quotes_doubled};
use crate::export::{LedgerSnapshot, TransactionRow, PostingRow, snapshot_wf, in_period, in_period_exec, push_string};
use crate::text::{str_to_chars, chars_to_string};
use crate::uuid_text::{uuid_chars, uuid_text, hex_range, hex_digit, nibble};
use crate::wrap::{split_on, split_scan, lemma_split_scan_extends, lemma_split_scan_sep, lemma_split_scan_text};
use crate::amount::{digits, digit_char, padded_digits, int_text, abs};

verus! {

fn str_is(a: &str, b: &str) -> (r: bool)
    ensures
        r == (a@ == b@),
{
    let x = str_to_chars(a);
    let y = str_to_chars(b);
    if x.len() != y.len() {
        return false;
    }
    for i in 0..x.len()
        invariant
            x@ == a@,
            y@ == b@,
            x@.len() == y@.len(),
            forall|k: int| 0 <= k < i ==> x@[k] == y@[k],
    {
        if x[i] != y[i] {
            assert(x@[i as int] != y@[i as int]);
            return false;
        }
    }
    assert(x@ =~= y@);
    true
}

// ---------------------------------------------------------------------
// DATEV
// ---------------------------------------------------------------------

/// Fixed DATEV Buchungsstapel header (EXTF format version 700).
pub const HEADER: &'static str = "EXTF;700;Buchungsstapel;2;1;1;1;openaccounting;Test;20260101;20260331;;;;";

/// The column-name row that follows the header.
pub const DATEV_COLUMNS: &'static str = "Umsatz (Soll);Umsatz (Haben);WKZ;Kurs;Basis-US$;Basis-US$ (Haben);Konto;Gegenkonto;BU-Schlüssel;Belegdatum;Belegfeld 1;Buchungstext;Fälligkeit;Skonto;Skontosperre";

/// The DATEV header text.
pub fn datev_header() -> (r: String)
    ensures
        r@ == HEADER@,
{
    HEADER.to_string()
}

/// Index of the first posting of transaction `txn` with direction `dir`.
pub open spec fn first_posting_from(ps: Seq<PostingRow>, txn: u128, dir: Seq<char>, i: int) -> Option<int>
    decreases ps.len() - i,
{
    if i < 0 || i >= ps.len() {
        None
    } else if ps[i].transaction_id == txn && ps[i].direction@ == dir {
        Some(i)
    } else {
        first_posting_from(ps, txn, dir, i + 1)
    }
}

pub open spec fn first_posting(ps: Seq<PostingRow>, txn: u128, dir: Seq<char>) -> Option<int> {
    first_posting_from(ps, txn, dir, 0)
}

fn find_first_posting(ps: &Vec<PostingRow>, txn: u128, dir: &str) -> (r: Option<usize>)
    ensures
        match r {
            Some(i) => first_posting(ps@, txn, dir@) == Some(i as int),
            None => first_posting(ps@, txn, dir@) is None,
        },
        r matches Some(i) ==> i < ps@.len(),
{
    let mut i: usize = 0;
    while i < ps.len()
        invariant
            i <= ps@.len(),
            first_posting(ps@, txn, dir@) == first_posting_from(ps@, txn, dir@, i as int),
        decreases ps@.len() - i,
    {
        if ps[i].transaction_id == txn && str_is(ps[i].direction.as_str(), dir) {
            return Some(i);
        }
        i = i + 1;
    }
    None
}

pub open spec fn opt_text(o: Option<String>) -> Seq<char> {
    match o {
        Some(s) => s@,
        None => Seq::empty(),
    }
}

/// One DATEV booking line for a balanced debit/credit pair.
pub open spec fn datev_line(t: TransactionRow, d: PostingRow, c: PostingRow) -> Seq<char> {
    let da = decimal_text(d.amount.mantissa as int, d.amount.scale as nat);
    let ca = decimal_text(c.amount.mantissa as int, c.amount.scale as nat);
    let bd = dmy_compact_text(t.txn_date);
    da + ";"@ + ca + ";USD;;"@ + da + ";"@ + ca + ";"@ + uuid_text(d.account_id) + ";"@ + uuid_text(
        c.account_id,
    ) + ";\"\";"@ + bd + ";"@ + opt_text(t.reference) + ";"@ + quotes_doubled(t.description@)
        + ";"@ + bd + ";;"@ + seq!['\n']
}

/// The line a transaction contributes: only transactions in the period
/// with a first debit and a first credit posting of equal value.
pub open spec fn datev_entry(t: TransactionRow, ps: Seq<PostingRow>, from: Date, to: Date) -> Seq<char> {
    if !in_period(t.txn_date, from, to) {
        Seq::empty()
    } else {
        match (first_posting(ps, t.id, "DEBIT"@), first_posting(ps, t.id, "CREDIT"@)) {
            (Some(di), Some(ci)) => if ps[di].amount.value() == ps[ci].amount.value() {
                datev_line(t, ps[di], ps[ci])
            } else {
                Seq::empty()
            },
            _ => Seq::empty(),
        }
    }
}

pub open spec fn datev_body(ts: Seq<TransactionRow>, ps: Seq<PostingRow>, from: Date, to: Date, n: int) -> Seq<char>
    decreases n,
{
    if n <= 0 {
        Seq::empty()
    } else {
        datev_body(ts, ps, from, to, n - 1) + datev_entry(ts[n - 1], ps, from, to)
    }
}

/// The whole DATEV export.
pub open spec fn datev_text(snap: &LedgerSnapshot, from: Date, to: Date) -> Seq<char> {
    HEADER@ + seq!['\n'] + DATEV_COLUMNS@ + seq!['\n'] + datev_body(
        snap.transactions@,
        snap.postings@,
        from,
        to,
        snap.transactions@.len() as int,
    )
}

fn push_opt_string(out: &mut Vec<char>, s: &Option<String>)
    ensures
        final(out)@ == old(out)@ + opt_text(*s),
{
    match s {
        Some(x) => push_string(out, x),
        None => {
            assert(out@ =~= old(out)@ + Seq::<char>::empty());
        },
    }
}

#[verifier::rlimit(50)]
fn datev_line_exec(t: &TransactionRow, d: &PostingRow, c: &PostingRow) -> (out: Vec<char>)
    ensures
        out@ == datev_line(*t, *d, *c),
{
    let mut out: Vec<char> = Vec::new();
    let da = amount_text(d.amount);
    let ca = amount_text(c.amount);
    let bd = date_dmy_compact(t.txn_date);
    push_chars(&mut out, &da);
    push_str(&mut out, ";");
    push_chars(&mut out, &ca);
    push_str(&mut out, ";USD;;");
    push_chars(&mut out, &da);
    push_str(&mut out, ";");
    push_chars(&mut out, &ca);
    push_str(&mut out, ";");
    let ghost p1 = out@;
    push_chars(&mut out, &uuid_chars(d.account_id));
    push_str(&mut out, ";");
    push_chars(&mut out, &uuid_chars(c.account_id));
    push_str(&mut out, ";\"\";");
    push_chars(&mut out, &bd);
    push_str(&mut out, ";");
    let ghost p2 = out@;
    push_opt_string(&mut out, &t.reference);
    push_str(&mut out, ";");
    let esc = crate::escape::datev_escape(t.description.as_str());
    push_string(&mut out, &esc);
    push_str(&mut out, ";");
    push_chars(&mut out, &bd);
    push_str(&mut out, ";;");
    out.push('\n');
    assert(out@ =~= datev_line(*t, *d, *c));
    out
}

fn datev_entry_exec(out: &mut Vec<char>, t: &TransactionRow, ps: &Vec<PostingRow>, from: Date, to: Date)
    requires
        t.txn_date.wf(),
        forall|i: int| 0 <= i < ps@.len() ==> (#[trigger] ps@[i]).amount.wf(),
    ensures
        final(out)@ == old(out)@ + datev_entry(*t, ps@, from, to),
{
    if !in_period_exec(t.txn_date, from, to) {
        assert(out@ =~= old(out)@ + Seq::<char>::empty());
        return;
    }
    let di = find_first_posting(ps, t.id, "DEBIT");
    let ci = find_first_posting(ps, t.id, "CREDIT");
    match (di, ci) {
        (Some(di), Some(ci)) => {
            let d = &ps[di];
            let c = &ps[ci];
            if !amounts_equal(d.amount, c.amount) {
                assert(out@ =~= old(out)@ + Seq::<char>::empty());
                return;
            }
            let line = datev_line_exec(t, d, c);
            push_chars(out, &line);
            assert(out@ =~= old(out)@ + datev_line(*t, ps@[di as int], ps@[ci as int]));
        },
        _ => {
            assert(out@ =~= old(out)@ + Seq::<char>::empty());
        },
    }
}

/// DATEV Buchungsstapel CSV for the transactions dated within `[from, to]`.
pub fn render(snap: &LedgerSnapshot, from: Date, to: Date) -> (r: String)
    requires
        snapshot_wf(snap),
    ensures
        r@ == datev_text(snap, from, to),
{
    let mut out: Vec<char> = Vec::new();
    push_str(&mut out, HEADER);
    out.push('\n');
    push_str(&mut out, DATEV_COLUMNS);
    out.push('\n');
    let ghost head = out@;
    let ts = &snap.transactions;
    for i in 0..ts.len()
        invariant
            snapshot_wf(snap),
            ts == &snap.transactions,
            out@ == head + datev_body(ts@, snap.postings@, from, to, i as int),
    {
        let ghost before = out@;
        datev_entry_exec(&mut out, &ts[i], &snap.postings, from, to);
        assert(out@ =~= head + datev_body(ts@, snap.postings@, from, to, i + 1));
    }
    assert(head =~= HEADER@ + seq!['\n'] + DATEV_COLUMNS@ + seq!['\n']);
    chars_to_string(out.as_slice())
}

// ---------------------------------------------------------------------
// What a booking line says
// ---------------------------------------------------------------------

proof fn lemma_digit_not_semicolon(k: nat)
    ensures
        digit_char(k) != ';',
{
    let v = (k % 10) + 48;
    assert(48 <= v <= 57);
    assert(digit_char(k) == v as char);
    assert((v as char) as u32 == v);
    assert((';' as u32) == 59);
}

proof fn lemma_hex_not_semicolon(n: nat)
    requires
        n < 16,
    ensures
        hex_digit(n) != ';',
{
    if n < 10 {
        assert(((n + 48) as u32) as char != ';') by {
            assert((((n + 48) as u32) as char) as u32 == ((n + 48) as u32));
            assert((';' as u32) == 59);
        }
    } else {
        assert(((n - 10 + 97) as u32) as char != ';') by {
            assert((((n - 10 + 97) as u32) as char) as u32 == ((n - 10 + 97) as u32));
            assert((';' as u32) == 59);
        }
    }
}

proof fn lemma_digits_no_semicolon(n: nat)
    ensures
        !digits(n).contains(';'),
    decreases n,
{
    if n > 0 {
        lemma_digits_no_semicolon(n / 10);
        lemma_digit_not_semicolon(n % 10);
        let d = digits(n / 10).push(digit_char(n % 10));
        assert forall|i: int| 0 <= i < d.len() implies d[i] != ';' by {
            if i < d.len() - 1 {
                assert(d[i] == digits(n / 10)[i]);
                if digits(n / 10)[i] == ';' {
                    assert(digits(n / 10).contains(';'));
                }
            }
        }
    }
}

proof fn lemma_no_semicolon_concat(a: Seq<char>, b: Seq<char>)
    requires
        !a.contains(';'),
        !b.contains(';'),
    ensures
        !(a + b).contains(';'),
{
    assert forall|i: int| 0 <= i < (a + b).len() implies (a + b)[i] != ';' by {
        if i < a.len() {
            assert((a + b)[i] == a[i]);
            if a[i] == ';' {
                assert(a.contains(';'));
            }
        } else {
            assert((a + b)[i] == b[i - a.len()]);
            if b[i - a.len()] == ';' {
                assert(b.contains(';'));
            }
        }
    }
}

proof fn lemma_no_semicolon_sub(a: Seq<char>, i: int, j: int)
    requires
        !a.contains(';'),
        0 <= i <= j <= a.len(),
    ensures
        !a.subrange(i, j).contains(';'),
{
    assert forall|k: int| 0 <= k < j - i implies a.subrange(i, j)[k] != ';' by {
        assert(a.subrange(i, j)[k] == a[i + k]);
        if a[i + k] == ';' {
            assert(a.contains(';'));
        }
    }
}

proof fn lemma_decimal_no_semicolon(m: int, scale: nat)
    ensures
        !decimal_text(m, scale).contains(';'),
{
    let sign = if m < 0 {
        seq!['-']
    } else {
        Seq::<char>::empty()
    };
    assert(!sign.contains(';')) by {
        if sign.contains(';') {
            let k = choose|k: int| 0 <= k < sign.len() && sign[k] == ';';
            assert(sign[k] == '-');
        }
    }
    lemma_digits_no_semicolon(abs(m));
    assert(!seq!['0'].contains(';')) by {
        if seq!['0'].contains(';') {
            let k = choose|k: int| 0 <= k < 1 && seq!['0'][k] == ';';
        }
    }
    if scale == 0 {
        let body = if m == 0 {
            seq!['0']
        } else {
            digits(abs(m))
        };
        lemma_no_semicolon_concat(sign, body);
    } else {
        let dg = digits(abs(m));
        let d = padded_digits(abs(m), scale);
        let zeros = Seq::new((scale - dg.len()) as nat, |i: int| '0');
        if dg.len() < scale {
            assert(!zeros.contains(';')) by {
                if zeros.contains(';') {
                    let k = choose|k: int| 0 <= k < zeros.len() && zeros[k] == ';';
                }
            }
            lemma_no_semicolon_concat(zeros, dg);
        }
        assert(!d.contains(';'));
        let whole = d.subrange(0, d.len() - scale);
        lemma_no_semicolon_sub(d, 0, d.len() - scale);
        lemma_no_semicolon_sub(d, d.len() - scale, d.len() as int);
        let w = if whole.len() == 0 {
            seq!['0']
        } else {
            whole
        };
        assert(!seq!['.'].contains(';')) by {
            if seq!['.'].contains(';') {
                let k = choose|k: int| 0 <= k < 1 && seq!['.'][k] == ';';
            }
        }
        lemma_no_semicolon_concat(sign, w);
        lemma_no_semicolon_concat(sign + w, seq!['.']);
        lemma_no_semicolon_concat(sign + w + seq!['.'], d.subrange(d.len() - scale, d.len() as int));
    }
}

proof fn lemma_hex_range_no_semicolon(v: u128, lo: nat, hi: nat)
    ensures
        !hex_range(v, lo, hi).contains(';'),
    decreases hi - lo,
{
    if hi > lo {
        lemma_hex_range_no_semicolon(v, lo, (hi - 1) as nat);
        assert(nibble(v, (hi - 1) as nat) < 16);
        lemma_hex_not_semicolon(nibble(v, (hi - 1) as nat));
        let prev = hex_range(v, lo, (hi - 1) as nat);
        let d = prev.push(hex_digit(nibble(v, (hi - 1) as nat)));
        assert forall|i: int| 0 <= i < d.len() implies d[i] != ';' by {
            if i < prev.len() {
                assert(d[i] == prev[i]);
                if prev[i] == ';' {
                    assert(prev.contains(';'));
                }
            }
        }
    }
}

proof fn lemma_uuid_no_semicolon(v: u128)
    ensures
        !uuid_text(v).contains(';'),
{
    let dash = seq!['-'];
    assert(!dash.contains(';')) by {
        if dash.contains(';') {
            let k = choose|k: int| 0 <= k < 1 && dash[k] == ';';
        }
    }
    lemma_hex_range_no_semicolon(v, 0, 8);
    lemma_hex_range_no_semicolon(v, 8, 12);
    lemma_hex_range_no_semicolon(v, 12, 16);
    lemma_hex_range_no_semicolon(v, 16, 20);
    lemma_hex_range_no_semicolon(v, 20, 32);
    let a = hex_range(v, 0, 8) + dash;
    lemma_no_semicolon_concat(hex_range(v, 0, 8), dash);
    lemma_no_semicolon_concat(a, hex_range(v, 8, 12));
    lemma_no_semicolon_concat(a + hex_range(v, 8, 12), dash);
    let b = a + hex_range(v, 8, 12) + dash;
    lemma_no_semicolon_concat(b, hex_range(v, 12, 16));
    lemma_no_semicolon_concat(b + hex_range(v, 12, 16), dash);
    let c = b + hex_range(v, 12, 16) + dash;
    lemma_no_semicolon_concat(c, hex_range(v, 16, 20));
    lemma_no_semicolon_concat(c + hex_range(v, 16, 20), dash);
    let e = c + hex_range(v, 16, 20) + dash;
    lemma_no_semicolon_concat(e, hex_range(v, 20, 32));
}

/// A DATEV booking line, read as `;`-separated fields: the first two are
/// the debit and credit amounts, the currency is `USD`, and the Konto (7th
/// field) is the debit posting's account and the Gegenkonto (8th field)
/// the credit posting's account.
pub proof fn datev_line_fields(t: TransactionRow, d: PostingRow, c: PostingRow)
    ensures
        split_on(datev_line(t, d, c), ';').len() > 8,
        split_on(datev_line(t, d, c), ';')[0] == decimal_text(d.amount.mantissa as int, d.amount.scale as nat),
        split_on(datev_line(t, d, c), ';')[1] == decimal_text(c.amount.mantissa as int, c.amount.scale as nat),
        split_on(datev_line(t, d, c), ';')[2] == "USD"@,
        split_on(datev_line(t, d, c), ';')[6] == uuid_text(d.account_id),
        split_on(datev_line(t, d, c), ';')[7] == uuid_text(c.account_id),
{
    let da = decimal_text(d.amount.mantissa as int, d.amount.scale as nat);
    let ca = decimal_text(c.amount.mantissa as int, c.amount.scale as nat);
    let ud = uuid_text(d.account_id);
    let uc = uuid_text(c.account_id);
    let bd = dmy_compact_text(t.txn_date);
    let e = Seq::<char>::empty();
    let u = "USD"@;
    let sep = seq![';'];
    reveal_strlit(";USD;;");
    reveal_strlit("USD");
    reveal_strlit(";");
    reveal_strlit(";\"\";");
    assert(";"@ =~= sep);
    lemma_decimal_no_semicolon(d.amount.mantissa as int, d.amount.scale as nat);
    lemma_decimal_no_semicolon(c.amount.mantissa as int, c.amount.scale as nat);
    lemma_uuid_no_semicolon(d.account_id);
    lemma_uuid_no_semicolon(c.account_id);
    assert(!u.contains(';')) by {
        if u.contains(';') {
            let k = choose|k: int| 0 <= k < 3 && u[k] == ';';
        }
    }
    // The line read piece by piece, from its start.
    let z1 = da;
    lemma_split_scan_text(e, da, ';');
    assert(e + da =~= z1);
    let z2 = z1 + ";"@;
    lemma_split_scan_sep(z1, ';');
    let z3 = z2 + ca;
    lemma_split_scan_text(z2, ca, ';');
    let z4 = z3 + ";USD;;"@;
    assert(z4 =~= z3 + sep + u + sep + sep);
    lemma_split_scan_sep(z3, ';');
    lemma_split_scan_text(z3 + sep, u, ';');
    lemma_split_scan_sep(z3 + sep + u, ';');
    lemma_split_scan_sep(z3 + sep + u + sep, ';');
    let z5 = z4 + da;
    lemma_split_scan_text(z4, da, ';');
    let z6 = z5 + ";"@;
    lemma_split_scan_sep(z5, ';');
    let z7 = z6 + ca;
    lemma_split_scan_text(z6, ca, ';');
    let z8 = z7 + ";"@;
    lemma_split_scan_sep(z7, ';');
    let z9 = z8 + ud;
    lemma_split_scan_text(z8, ud, ';');
    let z10 = z9 + ";"@;
    lemma_split_scan_sep(z9, ';');
    let z11 = z10 + uc;
    lemma_split_scan_text(z10, uc, ';');
    let z12 = z11 + ";\"\";"@;
    assert(z12 =~= z11 + sep + seq!['"', '"', ';']);
    lemma_split_scan_sep(z11, ';');
    let fields = seq![da, ca, u, e, da, ca, ud, uc];
    assert(split_scan(z11 + sep, ';').0 =~= fields);
    lemma_split_scan_extends(z11 + sep, seq!['"', '"', ';'], ';');
    // Whatever follows leaves the first eight pieces as they are.
    let z13 = z12 + bd;
    lemma_split_scan_extends(z12, bd, ';');
    let z14 = z13 + ";"@;
    lemma_split_scan_extends(z13, ";"@, ';');
    let z15 = z14 + opt_text(t.reference);
    lemma_split_scan_extends(z14, opt_text(t.reference), ';');
    let z16 = z15 + ";"@;
    lemma_split_scan_extends(z15, ";"@, ';');
    let z17 = z16 + quotes_doubled(t.description@);
    lemma_split_scan_extends(z16, quotes_doubled(t.description@), ';');
    let z18 = z17 + ";"@;
    lemma_split_scan_extends(z17, ";"@, ';');
    let z19 = z18 + bd;
    lemma_split_scan_extends(z18, bd, ';');
    let z20 = z19 + ";;"@;
    lemma_split_scan_extends(z19, ";;"@, ';');
    let z21 = z20 + seq!['\n'];
    lemma_split_scan_extends(z20, seq!['\n'], ';');
    assert(datev_line(t, d, c) == z21);
    assert(forall|i: int| 0 <= i < 8 ==> #[trigger] split_scan(z21, ';').0[i] == fields[i]);
}

/// `ps[i]` is the first posting of transaction `txn` with direction `dir`.
pub open spec fn is_first_posting(ps: Seq<PostingRow>, txn: u128, dir: Seq<char>, i: int) -> bool {
    &&& 0 <= i < ps.len()
    &&& ps[i].transaction_id == txn
    &&& ps[i].direction@ == dir
    &&& forall|j: int| 0 <= j < i ==> !(ps[j].transaction_id == txn && #[trigger] ps[j].direction@ == dir)
}

proof fn lemma_first_posting_from(ps: Seq<PostingRow>, txn: u128, dir: Seq<char>, i: int)
    requires
        0 <= i,
        forall|j: int| 0 <= j < i ==> !(ps[j].transaction_id == txn && #[trigger] ps[j].direction@ == dir),
    ensures
        first_posting_from(ps, txn, dir, i) matches Some(k) ==> is_first_posting(ps, txn, dir, k),
    decreases ps.len() - i,
{
    if i < ps.len() && !(ps[i].transaction_id == txn && ps[i].direction@ == dir) {
        lemma_first_posting_from(ps, txn, dir, i + 1);
    }
}

/// The booking line of a transaction names, as Konto, the account of the
/// transaction's first DEBIT posting and, as Gegenkonto, the account of its
/// first CREDIT posting, each amount being that posting's.
pub proof fn datev_entry_books_debit_to_konto(t: TransactionRow, ps: Seq<PostingRow>, from: Date, to: Date)
    ensures
        datev_entry(t, ps, from, to).len() > 0 ==> exists|di: int, ci: int|
            #[trigger] is_first_posting(ps, t.id, "DEBIT"@, di) && #[trigger] is_first_posting(ps, t.id, "CREDIT"@, ci)
                && split_on(datev_entry(t, ps, from, to), ';')[6] == uuid_text(ps[di].account_id)
                && split_on(datev_entry(t, ps, from, to), ';')[7] == uuid_text(ps[ci].account_id)
                && split_on(datev_entry(t, ps, from, to), ';')[0] == decimal_text(
                ps[di].amount.mantissa as int,
                ps[di].amount.scale as nat,
            ),
{
    if datev_entry(t, ps, from, to).len() > 0 {
        lemma_first_posting_from(ps, t.id, "DEBIT"@, 0);
        lemma_first_posting_from(ps, t.id, "CREDIT"@, 0);
        let di = first_posting(ps, t.id, "DEBIT"@)->0;
        let ci = first_posting(ps, t.id, "CREDIT"@)->0;
        datev_line_fields(t, ps[di], ps[ci]);
        assert(is_first_posting(ps, t.id, "DEBIT"@, di) && is_first_posting(ps, t.id, "CREDIT"@, ci));
    }
}

} // verus!
