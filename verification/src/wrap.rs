//! Greedy word wrapping of free-text notes (used for the notes block of
//! archived PDF reports). Widths are measured in UTF-8 bytes, as
//! `str::len` measures them.
use vstd::prelude::*;
use crate::text::{str_to_chars, chars_to_string, is_ws, is_whitespace_char};

verus! {

/// Number of bytes in the UTF-8 encoding of `c`.
pub open spec fn utf8_width(c: char) -> nat {
    if (c as u32) <= 0x7F {
        1
    } else if (c as u32) <= 0x7FF {
        2
    } else if (c as u32) <= 0xFFFF {
        3
    } else {
        4
    }
}

/// Byte length of the UTF-8 encoding of `s` (`str::len`).
pub open spec fn byte_len(s: Seq<char>) -> nat
    decreases s.len(),
{
    if s.len() == 0 {
        0
    } else {
        byte_len(s.drop_last()) + utf8_width(s.last())
    }
}

/// Scan for `split(sep)`: completed pieces and the piece in progress.
pub open spec fn split_scan(s: Seq<char>, sep: char) -> (Seq<Seq<char>>, Seq<char>)
    decreases s.len(),
{
    if s.len() == 0 {
        (Seq::empty(), Seq::empty())
    } else {
        let (done, cur) = split_scan(s.drop_last(), sep);
        if s.last() == sep {
            (done.push(cur), Seq::empty())
        } else {
            (done, cur.push(s.last()))
        }
    }
}

/// `str::split(sep)`: always at least one piece.
pub open spec fn split_on(s: Seq<char>, sep: char) -> Seq<Seq<char>> {
    let (done, cur) = split_scan(s, sep);
    done.push(cur)
}

proof fn lemma_split_scan_plain(x: Seq<char>, q: Seq<char>, sep: char)
    requires
        !q.contains(sep),
    ensures
        split_scan(x + q, sep) == (split_scan(x, sep).0, split_scan(x, sep).1 + q),
    decreases q.len(),
{
    if q.len() == 0 {
        assert(x + q =~= x);
        assert(split_scan(x, sep).1 + q =~= split_scan(x, sep).1);
    } else {
        let r = q.drop_last();
        assert(!r.contains(sep)) by {
            if r.contains(sep) {
                let k = choose|k: int| 0 <= k < r.len() && r[k] == sep;
                assert(q[k] == sep);
            }
        }
        lemma_split_scan_plain(x, r, sep);
        assert((x + q).drop_last() =~= x + r);
        assert((x + q).last() == q[q.len() - 1]);
        assert(q.last() != sep) by {
            assert(q[q.len() - 1] == q.last());
        }
        assert(split_scan(x, sep).1 + r.push(q.last()) =~= split_scan(x, sep).1 + q);
    }
}

/// Reading more text never changes the pieces already completed.
pub proof fn lemma_split_scan_extends(y: Seq<char>, w: Seq<char>, sep: char)
    ensures
        split_scan(y, sep).0.len() <= split_scan(y + w, sep).0.len(),
        forall|i: int|
            0 <= i < split_scan(y, sep).0.len() ==> #[trigger] split_scan(y + w, sep).0[i] == split_scan(y, sep).0[i],
    decreases w.len(),
{
    if w.len() == 0 {
        assert(y + w =~= y);
    } else {
        lemma_split_scan_extends(y, w.drop_last(), sep);
        assert((y + w).drop_last() =~= y + w.drop_last());
    }
}

/// Reading a separator completes the piece in progress.
pub proof fn lemma_split_scan_sep(y: Seq<char>, sep: char)
    ensures
        split_scan(y + seq![sep], sep) == (split_scan(y, sep).0.push(split_scan(y, sep).1), Seq::<char>::empty()),
{
    assert((y + seq![sep]).drop_last() =~= y);
}

/// Reading text free of the separator extends the piece in progress.
pub proof fn lemma_split_scan_text(y: Seq<char>, q: Seq<char>, sep: char)
    requires
        !q.contains(sep),
    ensures
        split_scan(y + q, sep) == (split_scan(y, sep).0, split_scan(y, sep).1 + q),
{
    lemma_split_scan_plain(y, q, sep);
}

/// Scan for `split_whitespace`: completed words and the word in progress.
pub open spec fn word_scan(s: Seq<char>) -> (Seq<Seq<char>>, Seq<char>)
    decreases s.len(),
{
    if s.len() == 0 {
        (Seq::empty(), Seq::empty())
    } else {
        let (done, cur) = word_scan(s.drop_last());
        if is_ws(s.last()) {
            if cur.len() > 0 {
                (done.push(cur), Seq::empty())
            } else {
                (done, cur)
            }
        } else {
            (done, cur.push(s.last()))
        }
    }
}

/// `str::split_whitespace`: the maximal runs of non-whitespace characters.
pub open spec fn words_of(s: Seq<char>) -> Seq<Seq<char>> {
    let (done, cur) = word_scan(s);
    if cur.len() > 0 {
        done.push(cur)
    } else {
        done
    }
}

/// One greedy step: start a new line when the word would overflow the
/// current one, then append the word (space-separated).
pub open spec fn wrap_step(out: Seq<Seq<char>>, line: Seq<char>, word: Seq<char>, width: int) -> (
    Seq<Seq<char>>,
    Seq<char>,
) {
    let (out2, line2) = if byte_len(line) + byte_len(word) + 1 > width {
        (out.push(line), Seq::<char>::empty())
    } else {
        (out, line)
    };
    let line3 = if line2.len() > 0 {
        line2.push(' ')
    } else {
        line2
    };
    (out2, line3 + word)
}

pub open spec fn wrap_words(out: Seq<Seq<char>>, words: Seq<Seq<char>>, width: int) -> (
    Seq<Seq<char>>,
    Seq<char>,
)
    decreases words.len(),
{
    if words.len() == 0 {
        (out, Seq::empty())
    } else {
        let (o, l) = wrap_words(out, words.drop_last(), width);
        wrap_step(o, l, words.last(), width)
    }
}

pub open spec fn wrap_paragraph(out: Seq<Seq<char>>, para: Seq<char>, width: int) -> Seq<Seq<char>> {
    let (o, l) = wrap_words(out, words_of(para), width);
    if l.len() > 0 {
        o.push(l)
    } else {
        o
    }
}

pub open spec fn wrap_paragraphs(paras: Seq<Seq<char>>, width: int) -> Seq<Seq<char>>
    decreases paras.len(),
{
    if paras.len() == 0 {
        Seq::empty()
    } else {
        wrap_paragraph(wrap_paragraphs(paras.drop_last(), width), paras.last(), width)
    }
}

/// The wrapped lines of `text`: each `'\n'`-separated paragraph is wrapped
/// greedily; the result is never empty.
pub open spec fn wrapped(text: Seq<char>, width: int) -> Seq<Seq<char>> {
    let o = wrap_paragraphs(split_on(text, '\n'), width);
    if o.len() == 0 {
        seq![Seq::<char>::empty()]
    } else {
        o
    }
}

pub open spec fn char_views(v: Seq<Vec<char>>) -> Seq<Seq<char>> {
    v.map_values(|l: Vec<char>| l@)
}

pub(crate) fn split_chars_on(s: &Vec<char>, sep: char) -> (r: Vec<Vec<char>>)
    ensures
        char_views(r@) == split_on(s@, sep),
{
    let mut done: Vec<Vec<char>> = Vec::new();
    let mut cur: Vec<char> = Vec::new();
    for i in 0..s.len()
        invariant
            (char_views(done@), cur@) == split_scan(s@.subrange(0, i as int), sep),
    {
        assert(s@.subrange(0, i + 1).drop_last() =~= s@.subrange(0, i as int));
        if s[i] == sep {
            let ghost before = done@;
            let mut piece: Vec<char> = Vec::new();
            std::mem::swap(&mut piece, &mut cur);
            done.push(piece);
            assert(char_views(done@) =~= char_views(before).push(piece@));
        } else {
            cur.push(s[i]);
        }
    }
    assert(s@.subrange(0, s@.len() as int) =~= s@);
    let ghost before = done@;
    let ghost cv = cur@;
    done.push(cur);
    assert(char_views(done@) =~= char_views(before).push(cv));
    done
}

fn split_words(s: &Vec<char>) -> (r: Vec<Vec<char>>)
    ensures
        char_views(r@) == words_of(s@),
{
    let mut done: Vec<Vec<char>> = Vec::new();
    let mut cur: Vec<char> = Vec::new();
    for i in 0..s.len()
        invariant
            (char_views(done@), cur@) == word_scan(s@.subrange(0, i as int)),
    {
        assert(s@.subrange(0, i + 1).drop_last() =~= s@.subrange(0, i as int));
        if is_whitespace_char(s[i]) {
            if cur.len() > 0 {
                let ghost before = done@;
                let mut piece: Vec<char> = Vec::new();
                std::mem::swap(&mut piece, &mut cur);
                done.push(piece);
                assert(char_views(done@) =~= char_views(before).push(piece@));
            }
        } else {
            cur.push(s[i]);
        }
    }
    assert(s@.subrange(0, s@.len() as int) =~= s@);
    if cur.len() > 0 {
        let ghost before = done@;
        let ghost cv = cur@;
        done.push(cur);
        assert(char_views(done@) =~= char_views(before).push(cv));
    }
    done
}

fn char_width(c: char) -> (r: u128)
    ensures
        r == utf8_width(c),
{
    let u = c as u32;
    if u <= 0x7F {
        1
    } else if u <= 0x7FF {
        2
    } else if u <= 0xFFFF {
        3
    } else {
        4
    }
}

pub(crate) fn chars_byte_len(s: &Vec<char>) -> (r: u128)
    ensures
        r == byte_len(s@),
        r <= 4 * s@.len(),
{
    let mut n: u128 = 0;
    for i in 0..s.len()
        invariant
            n == byte_len(s@.subrange(0, i as int)),
            n <= 4 * i,
            i <= s@.len(),
            s@.len() <= usize::MAX,
    {
        assert(s@.subrange(0, i + 1).drop_last() =~= s@.subrange(0, i as int));
        n = n + char_width(s[i]);
    }
    assert(s@.subrange(0, s@.len() as int) =~= s@);
    n
}

proof fn lemma_byte_len_concat(a: Seq<char>, b: Seq<char>)
    ensures
        byte_len(a + b) == byte_len(a) + byte_len(b),
    decreases b.len(),
{
    if b.len() == 0 {
        assert(a + b =~= a);
    } else {
        lemma_byte_len_concat(a, b.drop_last());
        assert((a + b).drop_last() =~= a + b.drop_last());
    }
}

/// Greedy word wrap to `width` bytes per line.
pub fn wrap_text(text: &str, width: usize) -> (r: Vec<String>)
    ensures
        r@.map_values(|s: String| s@) == wrapped(text@, width as int),
{
    let chars = str_to_chars(text);
    let paras = split_chars_on(&chars, '\n');
    let mut out: Vec<Vec<char>> = Vec::new();
    let ghost ps = char_views(paras@);
    let bound: u128 = 4 * (usize::MAX as u128);
    for p in 0..paras.len()
        invariant
            ps == char_views(paras@),
            bound == 4 * usize::MAX,
            char_views(out@) == wrap_paragraphs(ps.subrange(0, p as int), width as int),
    {
        assert(ps.subrange(0, p + 1).drop_last() =~= ps.subrange(0, p as int));
        let words = split_words(&paras[p]);
        let ghost ws = char_views(words@);
        let ghost out0 = char_views(out@);
        let mut line: Vec<char> = Vec::new();
        let mut line_bytes: u128 = 0;
        for w in 0..words.len()
            invariant
                ws == char_views(words@),
                bound == 4 * usize::MAX,
                (char_views(out@), line@) == wrap_words(out0, ws.subrange(0, w as int), width as int),
                line_bytes == byte_len(line@),
                line_bytes <= if (width as u128) < bound { bound } else { width as u128 },
        {
            assert(ws.subrange(0, w + 1).drop_last() =~= ws.subrange(0, w as int));
            let word = &words[w];
            let word_bytes = chars_byte_len(word);
            if line_bytes + word_bytes + 1 > width as u128 {
                let ghost before = out@;
                let mut done: Vec<char> = Vec::new();
                std::mem::swap(&mut done, &mut line);
                out.push(done);
                assert(char_views(out@) =~= char_views(before).push(done@));
                line_bytes = 0;
            }
            let ghost mid = line@;
            if line.len() > 0 {
                line.push(' ');
                line_bytes = line_bytes + 1;
                assert(line@.drop_last() =~= mid);
            }
            let ghost mid2 = line@;
            for k in 0..word.len()
                invariant
                    line@ == mid2 + word@.subrange(0, k as int),
            {
                line.push(word[k]);
                assert(line@ =~= mid2 + word@.subrange(0, k + 1));
            }
            assert(word@.subrange(0, word@.len() as int) =~= word@);
            proof {
                lemma_byte_len_concat(mid2, word@);
            }
            line_bytes = line_bytes + word_bytes;
        }
        assert(ws.subrange(0, ws.len() as int) =~= ws);
        if line.len() > 0 {
            let ghost before = out@;
            let ghost lv = line@;
            out.push(line);
            assert(char_views(out@) =~= char_views(before).push(lv));
        }
    }
    assert(ps.subrange(0, ps.len() as int) =~= ps);
    if out.len() == 0 {
        out.push(Vec::new());
        assert(char_views(out@) =~= seq![Seq::<char>::empty()]);
    }
    let mut r: Vec<String> = Vec::new();
    for i in 0..out.len()
        invariant
            r@.map_values(|s: String| s@) == char_views(out@).subrange(0, i as int),
    {
        let ghost before = r@;
        r.push(chars_to_string(out[i].as_slice()));
        assert(char_views(out@)[i as int] == out@[i as int]@);
        assert(r@.map_values(|s: String| s@) =~= before.map_values(|s: String| s@).push(out@[i as int]@));
        assert(r@.map_values(|s: String| s@) =~= char_views(out@).subrange(0, i + 1));
    }
    assert(char_views(out@).subrange(0, out@.len() as int) =~= char_views(out@));
    r
}

// ---------------------------------------------------------------------
// What wrapping keeps
// ---------------------------------------------------------------------

/// No whitespace character in `s`.
pub open spec fn no_ws(s: Seq<char>) -> bool {
    forall|k: int| 0 <= k < s.len() ==> !is_ws(#[trigger] s[k])
}

/// A word: at least one character, none of them whitespace.
pub open spec fn is_word(w: Seq<char>) -> bool {
    w.len() > 0 && no_ws(w)
}

/// The words of the given lines, line after line.
pub open spec fn words_of_lines(ls: Seq<Seq<char>>) -> Seq<Seq<char>>
    decreases ls.len(),
{
    if ls.len() == 0 {
        Seq::empty()
    } else {
        words_of_lines(ls.drop_last()) + words_of(ls.last())
    }
}

/// A line within `width` bytes, or a single word (longer than the width).
pub open spec fn fits_or_one_word(l: Seq<char>, width: int) -> bool {
    byte_len(l) <= width || no_ws(l)
}

proof fn lemma_word_scan_words(s: Seq<char>)
    ensures
        forall|i: int| 0 <= i < word_scan(s).0.len() ==> is_word(#[trigger] word_scan(s).0[i]),
        no_ws(word_scan(s).1),
        s.len() > 0 && !is_ws(s.last()) ==> word_scan(s).1.len() > 0,
    decreases s.len(),
{
    if s.len() > 0 {
        lemma_word_scan_words(s.drop_last());
        let (done, cur) = word_scan(s.drop_last());
        if is_ws(s.last()) {
            if cur.len() > 0 {
                assert forall|i: int| 0 <= i < done.push(cur).len() implies is_word(
                    #[trigger] done.push(cur)[i],
                ) by {
                    if i < done.len() {
                        assert(done.push(cur)[i] == done[i]);
                    }
                }
            }
        } else {
            assert forall|k: int| 0 <= k < cur.push(s.last()).len() implies !is_ws(
                #[trigger] cur.push(s.last())[k],
            ) by {
                if k < cur.len() {
                    assert(cur.push(s.last())[k] == cur[k]);
                }
            }
        }
    }
}

/// Every word that `split_whitespace` yields is a word.
proof fn lemma_words_of_words(s: Seq<char>)
    ensures
        forall|i: int| 0 <= i < words_of(s).len() ==> is_word(#[trigger] words_of(s)[i]),
{
    lemma_word_scan_words(s);
    let (done, cur) = word_scan(s);
    if cur.len() > 0 {
        assert forall|i: int| 0 <= i < done.push(cur).len() implies is_word(
            #[trigger] done.push(cur)[i],
        ) by {
            if i < done.len() {
                assert(done.push(cur)[i] == done[i]);
            }
        }
    }
}

proof fn lemma_word_scan_append(p: Seq<char>, w: Seq<char>)
    requires
        no_ws(w),
    ensures
        word_scan(p + w) == (word_scan(p).0, word_scan(p).1 + w),
    decreases w.len(),
{
    if w.len() == 0 {
        assert(p + w =~= p);
        assert(word_scan(p).1 + w =~= word_scan(p).1);
    } else {
        let v = w.drop_last();
        assert(no_ws(v)) by {
            assert forall|k: int| 0 <= k < v.len() implies !is_ws(#[trigger] v[k]) by {
                assert(v[k] == w[k]);
            }
        }
        lemma_word_scan_append(p, v);
        assert((p + w).drop_last() =~= p + v);
        assert((p + w).last() == w[w.len() - 1]);
        assert(!is_ws(w[w.len() - 1]));
        assert(word_scan(p).1 + v.push(w.last()) =~= word_scan(p).1 + w);
    }
}

/// The line a word is appended to, as the greedy step appends it: after
/// a space when the line is not empty.
pub open spec fn appended(l: Seq<char>, w: Seq<char>) -> Seq<char> {
    (if l.len() > 0 {
        l.push(' ')
    } else {
        l
    }) + w
}

proof fn lemma_words_appended(l: Seq<char>, w: Seq<char>)
    requires
        is_word(w),
        l.len() == 0 || !is_ws(l.last()),
    ensures
        words_of(appended(l, w)) == words_of(l).push(w),
        !is_ws(appended(l, w).last()),
        appended(l, w).len() > 0,
        byte_len(appended(l, w)) == byte_len(l) + byte_len(w) + (if l.len() > 0 {
            1int
        } else {
            0int
        }),
{
    lemma_word_scan_words(l);
    let (d, c) = word_scan(l);
    let a = appended(l, w);
    assert(a.last() == w[w.len() - 1]);
    if l.len() > 0 {
        let p = l.push(' ');
        assert(p.drop_last() =~= l);
        assert(is_ws(' '));
        assert(word_scan(p) == (d.push(c), Seq::<char>::empty()));
        lemma_word_scan_append(p, w);
        assert(Seq::<char>::empty() + w =~= w);
        lemma_byte_len_concat(p, w);
        assert(byte_len(p) == byte_len(l) + 1);
    } else {
        assert(word_scan(l) == (Seq::<Seq<char>>::empty(), Seq::<char>::empty()));
        lemma_word_scan_append(l, w);
        assert(Seq::<char>::empty() + w =~= w);
        assert(l + w =~= w);
        assert(words_of(l) =~= Seq::<Seq<char>>::empty());
        lemma_byte_len_concat(l, w);
    }
}

proof fn lemma_wrap_words_keeps(out: Seq<Seq<char>>, words: Seq<Seq<char>>, width: int)
    requires
        forall|i: int| 0 <= i < words.len() ==> is_word(#[trigger] words[i]),
        forall|i: int| 0 <= i < out.len() ==> fits_or_one_word(#[trigger] out[i], width),
    ensures
        ({
            let (o, l) = wrap_words(out, words, width);
            &&& words_of_lines(o) + words_of(l) == words_of_lines(out) + words
            &&& l.len() == 0 || !is_ws(l.last())
            &&& fits_or_one_word(l, width)
            &&& forall|i: int| 0 <= i < o.len() ==> fits_or_one_word(#[trigger] o[i], width)
        }),
    decreases words.len(),
{
    if words.len() == 0 {
        assert(words_of(Seq::<char>::empty()) =~= Seq::<Seq<char>>::empty());
        assert(words_of_lines(out) + Seq::<Seq<char>>::empty() =~= words_of_lines(out));
        assert(words_of_lines(out) + words =~= words_of_lines(out));
        assert(byte_len(Seq::<char>::empty()) == 0);
    } else {
        let ws0 = words.drop_last();
        assert forall|i: int| 0 <= i < ws0.len() implies is_word(#[trigger] ws0[i]) by {
            assert(ws0[i] == words[i]);
        }
        lemma_wrap_words_keeps(out, ws0, width);
        let (o1, l1) = wrap_words(out, ws0, width);
        let w = words.last();
        assert(is_word(words[words.len() - 1]));
        let flush = byte_len(l1) + byte_len(w) + 1 > width;
        let e = Seq::<char>::empty();
        if flush {
            let o2 = o1.push(l1);
            assert(o2.drop_last() =~= o1);
            assert(words_of_lines(o2) == words_of_lines(o1) + words_of(l1));
            lemma_words_appended(e, w);
            assert(words_of(e) =~= Seq::<Seq<char>>::empty());
            assert(appended(e, w) =~= w);
            assert forall|i: int| 0 <= i < o2.len() implies fits_or_one_word(#[trigger] o2[i], width) by {
                if i < o1.len() {
                    assert(o2[i] == o1[i]);
                }
            }
            assert(words_of_lines(o2) + words_of(w) =~= words_of_lines(out) + words);
        } else {
            lemma_words_appended(l1, w);
            assert(words =~= ws0.push(w));
            assert(words_of_lines(o1) + words_of(l1).push(w) =~= (words_of_lines(o1) + words_of(
                l1,
            )).push(w));
            assert((words_of_lines(out) + ws0).push(w) =~= words_of_lines(out) + words);
            assert(words_of_lines(o1) + words_of(appended(l1, w)) =~= words_of_lines(out) + words);
        }
    }
}

proof fn lemma_wrap_paragraphs_keeps(paras: Seq<Seq<char>>, width: int)
    ensures
        words_of_lines(wrap_paragraphs(paras, width)) == words_of_lines(paras),
        forall|i: int|
            0 <= i < wrap_paragraphs(paras, width).len() ==> fits_or_one_word(
                #[trigger] wrap_paragraphs(paras, width)[i],
                width,
            ),
    decreases paras.len(),
{
    if paras.len() > 0 {
        lemma_wrap_paragraphs_keeps(paras.drop_last(), width);
        let out = wrap_paragraphs(paras.drop_last(), width);
        let para = paras.last();
        lemma_words_of_words(para);
        lemma_wrap_words_keeps(out, words_of(para), width);
        let (o, l) = wrap_words(out, words_of(para), width);
        if l.len() > 0 {
            let r = o.push(l);
            assert(r.drop_last() =~= o);
            assert forall|i: int| 0 <= i < r.len() implies fits_or_one_word(#[trigger] r[i], width) by {
                if i < o.len() {
                    assert(r[i] == o[i]);
                }
            }
        } else {
            assert(words_of(l) =~= Seq::<Seq<char>>::empty());
            assert(words_of_lines(o) + words_of(l) =~= words_of_lines(o));
        }
    }
}

/// What wrapping keeps: the words of the wrapped lines, in order, are the
/// words of the text's paragraphs, in order; and each line fits in `width`
/// bytes unless it is a single word that is longer on its own.
pub proof fn wrapping_keeps_words_and_width(text: Seq<char>, width: int)
    ensures
        words_of_lines(wrapped(text, width)) == words_of_lines(split_on(text, '\n')),
        forall|i: int|
            0 <= i < wrapped(text, width).len() ==> fits_or_one_word(
                #[trigger] wrapped(text, width)[i],
                width,
            ),
{
    let paras = split_on(text, '\n');
    lemma_wrap_paragraphs_keeps(paras, width);
    let o = wrap_paragraphs(paras, width);
    if o.len() == 0 {
        let e = Seq::<char>::empty();
        let one = seq![e];
        assert(one.drop_last() =~= Seq::<Seq<char>>::empty());
        assert(words_of(e) =~= Seq::<Seq<char>>::empty());
        assert(one.last() == e);
        assert(words_of_lines(Seq::<Seq<char>>::empty()) == Seq::<Seq<char>>::empty());
        assert(words_of_lines(one) =~= Seq::<Seq<char>>::empty());
        assert(no_ws(e));
        assert(one[0] == e);
    }
}

} // verus!
