//! Receivable and payable aging: the open amounts of each contact by how
//! many days past due they are, contacts with the most outstanding first.
use vstd::prelude::*;
use crate::amount::{
    Amount, checked_add, compare_amounts, exact_amount, representable_at, max_scale, lemma_exact_result,
    lemma_exact_amount,
};
use crate::date::{Date, day_number, days_between};

verus! {

broadcast use vstd::seq_lib::to_multiset_insert;

/// An open invoice: its contact, due date and what is still owed.
pub struct OpenItem {
    pub contact_id: u128,
    pub contact_name: String,
    pub due_date: Date,
    pub outstanding: Amount,
}

/// The open amounts of one contact by age, and their total.
pub struct AgingBucketData {
    pub contact_name: String,
    pub current: Amount,
    pub days_1_30: Amount,
    pub days_31_60: Amount,
    pub days_61_90: Amount,
    pub days_90_plus: Amount,
    pub total: Amount,
}

/// The bucket of an amount so many days past due: not yet due, up to
/// 30, 60, 90 days, or more.
pub open spec fn bucket_of(days: int) -> int {
    if days <= 0 {
        0
    } else if days <= 30 {
        1
    } else if days <= 60 {
        2
    } else if days <= 90 {
        3
    } else {
        4
    }
}

/// The figures of a row: the five buckets, then the total.
pub open spec fn figures_of(d: AgingBucketData) -> Seq<Amount> {
    seq![d.current, d.days_1_30, d.days_31_60, d.days_61_90, d.days_90_plus, d.total]
}

pub open spec fn row_view(d: AgingBucketData) -> (Seq<char>, Seq<Amount>) {
    (d.contact_name@, figures_of(d))
}

/// A contact's group while the open items are read.
pub struct AgingGroup {
    pub contact: u128,
    pub name: Seq<char>,
    pub figures: Seq<Amount>,
}

pub open spec fn group_view(g: AgingGroup) -> (Seq<char>, Seq<Amount>) {
    (g.name, g.figures)
}

pub open spec fn zero_figures() -> Seq<Amount> {
    Seq::new(6, |i: int| Amount { mantissa: 0, scale: 0 })
}

/// `a + b` where it is exact.
pub open spec fn add_exact(a: Amount, b: Amount) -> Option<Amount> {
    if representable_at(a.value() + b.value(), max_scale(a, b) as nat) {
        Some(exact_amount(a.value() + b.value(), max_scale(a, b)))
    } else {
        None
    }
}

/// An amount added to one bucket of a group and to its total.
pub open spec fn add_to_group(g: AgingGroup, b: int, x: Amount) -> Option<AgingGroup> {
    match add_exact(g.figures[b], x) {
        None => None,
        Some(nb) => match add_exact(g.figures[5], x) {
            None => None,
            Some(nt) => Some(AgingGroup { figures: g.figures.update(b, nb).update(5, nt), ..g }),
        },
    }
}

/// The position of a contact's group (`-1` when it has none).
pub open spec fn find_group(gs: Seq<AgingGroup>, c: u128) -> int
    decreases gs.len(),
{
    if gs.len() == 0 {
        -1
    } else if gs.last().contact == c {
        gs.len() - 1
    } else {
        find_group(gs.drop_last(), c)
    }
}

/// The groups after reading the open items in order: a contact's group is
/// made at its first item (named after it) and each item is added to its
/// bucket and to the total. `None` where a sum has no exact representation.
pub open spec fn aging_fold(items: Seq<OpenItem>, today: Date) -> Option<Seq<AgingGroup>>
    decreases items.len(),
{
    if items.len() == 0 {
        Some(Seq::empty())
    } else {
        match aging_fold(items.drop_last(), today) {
            None => None,
            Some(gs) => {
                let it = items.last();
                let b = bucket_of(day_number(today) - day_number(it.due_date));
                let k = find_group(gs, it.contact_id);
                if k < 0 {
                    match add_to_group(
                        AgingGroup { contact: it.contact_id, name: it.contact_name@, figures: zero_figures() },
                        b,
                        it.outstanding,
                    ) {
                        None => None,
                        Some(g) => Some(gs.push(g)),
                    }
                } else {
                    match add_to_group(gs[k], b, it.outstanding) {
                        None => None,
                        Some(g) => Some(gs.update(k, g)),
                    }
                }
            },
        }
    }
}

pub open spec fn distinct_contacts(gs: Seq<AgingGroup>) -> bool {
    forall|i: int, j: int| 0 <= i < j < gs.len() ==> gs[i].contact != gs[j].contact
}

proof fn lemma_find_group(gs: Seq<AgingGroup>, c: u128)
    requires
        distinct_contacts(gs),
    ensures
        -1 <= find_group(gs, c) < gs.len(),
        find_group(gs, c) >= 0 ==> gs[find_group(gs, c)].contact == c,
        find_group(gs, c) < 0 ==> forall|i: int| 0 <= i < gs.len() ==> gs[i].contact != c,
        forall|i: int| 0 <= i < gs.len() && gs[i].contact == c ==> find_group(gs, c) == i,
    decreases gs.len(),
{
    if gs.len() > 0 {
        let p = gs.drop_last();
        assert forall|i: int, j: int| 0 <= i < j < p.len() implies p[i].contact != p[j].contact by {
            assert(p[i] == gs[i] && p[j] == gs[j]);
        }
        lemma_find_group(p, c);
        assert forall|i: int| 0 <= i < gs.len() && gs[i].contact == c implies find_group(gs, c) == i by {
            if i < gs.len() - 1 {
                assert(p[i] == gs[i]);
                assert(gs[i].contact != gs[gs.len() - 1].contact);
            }
        }
        if find_group(gs, c) < 0 {
            assert forall|i: int| 0 <= i < gs.len() implies gs[i].contact != c by {
                if i < gs.len() - 1 {
                    assert(p[i] == gs[i]);
                }
            }
        }
    }
}

/// Rows sorted by total, largest first.
pub open spec fn sorted_by_total(v: Seq<AgingBucketData>) -> bool {
    forall|i: int, j: int| 0 <= i < j < v.len() ==> v[i].total.value() >= v[j].total.value()
}

pub open spec fn rows_of(v: Seq<AgingBucketData>) -> Seq<(Seq<char>, Seq<Amount>)> {
    v.map_values(|d: AgingBucketData| row_view(d))
}

pub open spec fn figures_wf(f: Seq<Amount>) -> bool {
    f.len() == 6 && forall|i: int| 0 <= i < 6 ==> (#[trigger] f[i]).wf()
}

fn add_to_row(d: &AgingBucketData, b: usize, x: Amount) -> (r: Option<AgingBucketData>)
    requires
        b < 5,
        figures_wf(figures_of(*d)),
        x.wf(),
    ensures
        match (r, add_to_group(AgingGroup { contact: 0, name: d.contact_name@, figures: figures_of(*d) }, b as int, x)) {
            (None, None) => true,
            (Some(n), Some(g)) => row_view(n) == (g.name, g.figures) && figures_wf(figures_of(n)),
            _ => false,
        },
{
    let ghost f = figures_of(*d);
    let cur = if b == 0 {
        d.current
    } else if b == 1 {
        d.days_1_30
    } else if b == 2 {
        d.days_31_60
    } else if b == 3 {
        d.days_61_90
    } else {
        d.days_90_plus
    };
    assert(cur == f[b as int]);
    let nb = match checked_add(cur, x) {
        Some(v) => v,
        None => {
            return None;
        },
    };
    proof {
        lemma_exact_result(nb, cur.value() + x.value(), max_scale(cur, x));
    }
    let nt = match checked_add(d.total, x) {
        Some(v) => v,
        None => {
            return None;
        },
    };
    proof {
        lemma_exact_result(nt, d.total.value() + x.value(), max_scale(d.total, x));
    }
    let n = AgingBucketData {
        contact_name: d.contact_name.clone(),
        current: if b == 0 { nb } else { d.current },
        days_1_30: if b == 1 { nb } else { d.days_1_30 },
        days_31_60: if b == 2 { nb } else { d.days_31_60 },
        days_61_90: if b == 3 { nb } else { d.days_61_90 },
        days_90_plus: if b == 4 { nb } else { d.days_90_plus },
        total: nt,
    };
    assert(figures_of(n) =~= f.update(b as int, nb).update(5, nt));
    Some(n)
}

fn bucket_index(days: i64) -> (r: usize)
    ensures
        r == bucket_of(days as int),
{
    if days <= 0 {
        0
    } else if days <= 30 {
        1
    } else if days <= 60 {
        2
    } else if days <= 90 {
        3
    } else {
        4
    }
}

proof fn lemma_fold_none_stays(items: Seq<OpenItem>, today: Date, k: int)
    requires
        0 <= k <= items.len(),
        aging_fold(items.subrange(0, k), today) is None,
    ensures
        aging_fold(items, today) is None,
    decreases items.len() - k,
{
    if k < items.len() {
        assert(items.subrange(0, k + 1).drop_last() =~= items.subrange(0, k));
        lemma_fold_none_stays(items, today, k + 1);
    } else {
        assert(items.subrange(0, k) =~= items);
    }
}

/// The groups of the open items in first-seen order (see `aging_fold`).
fn group_items(items: &Vec<OpenItem>, today: Date) -> (r: Option<Vec<AgingBucketData>>)
    requires
        today.wf(),
        forall|i: int| 0 <= i < items@.len() ==> (#[trigger] items@[i]).due_date.wf() && items@[i].outstanding.wf(),
    ensures
        match (r, aging_fold(items@, today)) {
            (None, None) => true,
            (Some(v), Some(gs)) => rows_of(v@) == gs.map_values(|g: AgingGroup| group_view(g)),
            _ => false,
        },
{
    let mut rows: Vec<AgingBucketData> = Vec::new();
    let mut ids: Vec<u128> = Vec::new();
    let ghost mut gs: Seq<AgingGroup> = Seq::empty();
    assert(items@.subrange(0, 0) =~= Seq::<OpenItem>::empty());
    for i in 0..items.len()
        invariant
            today.wf(),
            forall|j: int| 0 <= j < items@.len() ==> (#[trigger] items@[j]).due_date.wf() && items@[j].outstanding.wf(),
            aging_fold(items@.subrange(0, i as int), today) == Some(gs),
            distinct_contacts(gs),
            rows@.len() == gs.len() && ids@.len() == gs.len(),
            forall|j: int| 0 <= j < gs.len() ==> row_view(#[trigger] rows@[j]) == group_view(gs[j]),
            forall|j: int| 0 <= j < gs.len() ==> #[trigger] ids@[j] == gs[j].contact,
            forall|j: int| 0 <= j < gs.len() ==> figures_wf(#[trigger] gs[j].figures),
    {
        let ghost pre = items@.subrange(0, i + 1);
        assert(pre.drop_last() =~= items@.subrange(0, i as int));
        assert(pre.last() == items@[i as int]);
        let it = &items[i];
        let b = bucket_index(days_between(today, it.due_date));
        proof {
            lemma_find_group(gs, it.contact_id);
        }
        let mut k: usize = 0;
        while k < ids.len() && ids[k] != it.contact_id
            invariant
                k <= ids@.len(),
                ids@.len() == gs.len(),
                forall|j: int| 0 <= j < gs.len() ==> ids@[j] == gs[j].contact,
                forall|j: int| 0 <= j < k ==> gs[j].contact != it.contact_id,
            decreases ids@.len() - k,
        {
            k = k + 1;
        }
        if k == ids.len() {
            assert(find_group(gs, it.contact_id) < 0);
            let fresh = AgingBucketData {
                contact_name: it.contact_name.clone(),
                current: Amount::zero(),
                days_1_30: Amount::zero(),
                days_31_60: Amount::zero(),
                days_61_90: Amount::zero(),
                days_90_plus: Amount::zero(),
                total: Amount::zero(),
            };
            assert(figures_of(fresh) =~= zero_figures());
            let n = match add_to_row(&fresh, b, it.outstanding) {
                Some(n) => n,
                None => {
                    proof {
                        lemma_fold_none_stays(items@, today, i + 1);
                    }
                    return None;
                },
            };
            let ghost g = AgingGroup { contact: it.contact_id, name: it.contact_name@, figures: figures_of(n) };
            rows.push(n);
            ids.push(it.contact_id);
            proof {
                gs = gs.push(g);
            }
        } else {
            assert(find_group(gs, it.contact_id) == k);
            let n = match add_to_row(&rows[k], b, it.outstanding) {
                Some(n) => n,
                None => {
                    proof {
                        lemma_fold_none_stays(items@, today, i + 1);
                    }
                    return None;
                },
            };
            let ghost g = AgingGroup { figures: figures_of(n), ..gs[k as int] };
            rows.set(k, n);
            proof {
                gs = gs.update(k as int, g);
            }
        }
    }
    assert(items@.subrange(0, items@.len() as int) =~= items@);
    assert(rows_of(rows@) =~= gs.map_values(|g: AgingGroup| group_view(g)));
    Some(rows)
}

/// Rows sorted by total, largest first; rows with equal totals keep
/// their order.
fn sort_by_total(v: Vec<AgingBucketData>) -> (r: Vec<AgingBucketData>)
    requires
        forall|i: int| 0 <= i < v@.len() ==> (#[trigger] v@[i]).total.wf(),
    ensures
        sorted_by_total(r@),
        rows_of(r@).to_multiset() == rows_of(v@).to_multiset(),
{
    let mut out: Vec<AgingBucketData> = Vec::new();
    let mut src = v;
    let ghost orig = src@;
    let mut i: usize = 0;
    assert(rows_of(out@) =~= rows_of(orig.subrange(0, 0)));
    while i < src.len()
        invariant
            src@ == orig,
            i <= orig.len(),
            forall|j: int| 0 <= j < orig.len() ==> (#[trigger] orig[j]).total.wf(),
            forall|j: int| 0 <= j < out@.len() ==> (#[trigger] out@[j]).total.wf(),
            sorted_by_total(out@),
            rows_of(out@).to_multiset() == rows_of(orig.subrange(0, i as int)).to_multiset(),
        decreases orig.len() - i,
    {
        let d = src[i].clone_row();
        let mut j: usize = 0;
        while j < out.len() && compare_amounts(out[j].total, d.total) >= 0
            invariant
                j <= out@.len(),
                d.total.wf(),
                forall|k: int| 0 <= k < out@.len() ==> (#[trigger] out@[k]).total.wf(),
                forall|k: int| 0 <= k < j ==> (#[trigger] out@[k]).total.value() >= d.total.value(),
            decreases out@.len() - j,
        {
            j = j + 1;
        }
        let ghost before = out@;
        out.insert(j, d);
        proof {
            assert(rows_of(out@) =~= rows_of(before).insert(j as int, row_view(d)));
            assert(orig.subrange(0, i + 1) =~= orig.subrange(0, i as int).push(orig[i as int]));
            assert(rows_of(orig.subrange(0, i + 1)) =~= rows_of(orig.subrange(0, i as int)).push(row_view(d)));
            assert(rows_of(orig.subrange(0, i as int)).push(row_view(d)) =~= rows_of(
                orig.subrange(0, i as int),
            ).insert(rows_of(orig.subrange(0, i as int)).len() as int, row_view(d)));
            assert forall|a: int, c: int| 0 <= a < c < out@.len() implies out@[a].total.value()
                >= out@[c].total.value() by {
                if j < before.len() {
                    assert(before[j as int].total.value() < d.total.value());
                }
            }
        }
        i = i + 1;
    }
    assert(orig.subrange(0, orig.len() as int) =~= orig);
    out
}

impl AgingBucketData {
    /// A copy of the row.
    pub fn clone_row(&self) -> (r: AgingBucketData)
        ensures
            row_view(r) == row_view(*self),
            r.total == self.total,
    {
        AgingBucketData {
            contact_name: self.contact_name.clone(),
            current: self.current,
            days_1_30: self.days_1_30,
            days_31_60: self.days_31_60,
            days_61_90: self.days_61_90,
            days_90_plus: self.days_90_plus,
            total: self.total,
        }
    }
}

/// The aging report of the open items as of `today`: one row per
/// contact (see `aging_fold`), the largest total first. `None` where a sum
/// has no exact representation.
pub fn compute_aging(items: &Vec<OpenItem>, today: Date) -> (r: Option<Vec<AgingBucketData>>)
    requires
        today.wf(),
        forall|i: int| 0 <= i < items@.len() ==> (#[trigger] items@[i]).due_date.wf() && items@[i].outstanding.wf(),
    ensures
        match (r, aging_fold(items@, today)) {
            (None, None) => true,
            (Some(v), Some(gs)) => sorted_by_total(v@) && rows_of(v@).to_multiset() == gs.map_values(
                |g: AgingGroup| group_view(g),
            ).to_multiset(),
            _ => false,
        },
{
    let grouped = group_items(items, today);
    let rows = match grouped {
        Some(v) => v,
        None => {
            return None;
        },
    };
    assert(aging_fold(items@, today) is Some);
    let ghost gs = aging_fold(items@, today)->0;
    assert(rows_of(rows@) == gs.map_values(|g: AgingGroup| group_view(g)));
    proof {
        lemma_fold_figures_wf(items@, today);
        assert forall|i: int| 0 <= i < rows@.len() implies (#[trigger] rows@[i]).total.wf() by {
            assert(rows_of(rows@).len() == gs.len());
            assert(rows_of(rows@)[i] == row_view(rows@[i]));
            assert(rows_of(rows@)[i] == group_view(gs[i]));
            assert(figures_wf(gs[i].figures));
            assert(figures_of(rows@[i])[5] == rows@[i].total);
        }
    }
    Some(sort_by_total(rows))
}

proof fn lemma_fold_figures_wf(items: Seq<OpenItem>, today: Date)
    requires
        forall|i: int| 0 <= i < items.len() ==> (#[trigger] items[i]).outstanding.wf(),
    ensures
        aging_fold(items, today) matches Some(gs) ==> distinct_contacts(gs) && forall|i: int|
            0 <= i < gs.len() ==> figures_wf(#[trigger] gs[i].figures),
    decreases items.len(),
{
    if items.len() > 0 {
        let p = items.drop_last();
        assert forall|i: int| 0 <= i < p.len() implies (#[trigger] p[i]).outstanding.wf() by {
            assert(p[i] == items[i]);
        }
        lemma_fold_figures_wf(p, today);
        if let Some(gs) = aging_fold(p, today) {
            let it = items.last();
            assert(it == items[items.len() - 1]);
            lemma_find_group(gs, it.contact_id);
            let b = bucket_of(day_number(today) - day_number(it.due_date));
            let k = find_group(gs, it.contact_id);
            let g0 = if k < 0 {
                AgingGroup { contact: it.contact_id, name: it.contact_name@, figures: zero_figures() }
            } else {
                gs[k]
            };
            if let Some(g) = add_to_group(g0, b, it.outstanding) {
                lemma_exact_amount(g0.figures[b].value() + it.outstanding.value(), max_scale(g0.figures[b], it.outstanding));
                lemma_exact_amount(g0.figures[5].value() + it.outstanding.value(), max_scale(g0.figures[5], it.outstanding));
                assert(figures_wf(g.figures));
            }
        }
    }
}

/// What a contact has open in bucket `b` (`5`: in all buckets), summed
/// over the open items.
pub open spec fn contact_sum(items: Seq<OpenItem>, today: Date, c: u128, b: int) -> int
    decreases items.len(),
{
    if items.len() == 0 {
        0
    } else {
        contact_sum(items.drop_last(), today, c, b) + if items.last().contact_id == c && (b == 5 || bucket_of(
            day_number(today) - day_number(items.last().due_date),
        ) == b) {
            items.last().outstanding.value()
        } else {
            0
        }
    }
}

/// Each figure of a contact's row is what the contact has open in that
/// bucket (the total: in all of them), and a contact without a row has
/// nothing open.
pub proof fn lemma_aging_sums(items: Seq<OpenItem>, today: Date)
    requires
        forall|i: int| 0 <= i < items.len() ==> (#[trigger] items[i]).outstanding.wf(),
    ensures
        aging_fold(items, today) matches Some(gs) ==> {
            &&& forall|k: int, b: int|
                0 <= k < gs.len() && 0 <= b < 6 ==> (#[trigger] gs[k].figures[b]).value() == contact_sum(
                    items,
                    today,
                    gs[k].contact,
                    b,
                )
            &&& forall|c: u128, b: int| find_group(gs, c) < 0 ==> #[trigger] contact_sum(items, today, c, b) == 0
        },
    decreases items.len(),
{
    if items.len() > 0 {
        let p = items.drop_last();
        assert forall|i: int| 0 <= i < p.len() implies (#[trigger] p[i]).outstanding.wf() by {
            assert(p[i] == items[i]);
        }
        lemma_aging_sums(p, today);
        lemma_fold_figures_wf(p, today);
        crate::amount::lemma_zero_value();
        if let Some(gs) = aging_fold(p, today) {
            let it = items.last();
            assert(it == items[items.len() - 1]);
            lemma_find_group(gs, it.contact_id);
            let bi = bucket_of(day_number(today) - day_number(it.due_date));
            let k = find_group(gs, it.contact_id);
            let g0 = if k < 0 {
                AgingGroup { contact: it.contact_id, name: it.contact_name@, figures: zero_figures() }
            } else {
                gs[k]
            };
            if let Some(g) = add_to_group(g0, bi, it.outstanding) {
                lemma_exact_amount(g0.figures[bi].value() + it.outstanding.value(), max_scale(g0.figures[bi], it.outstanding));
                lemma_exact_amount(g0.figures[5].value() + it.outstanding.value(), max_scale(g0.figures[5], it.outstanding));
                let ngs = aging_fold(items, today)->0;
                if k < 0 {
                    assert(ngs == gs.push(g));
                    assert forall|j: int, b: int| 0 <= j < ngs.len() && 0 <= b < 6 implies (
                    #[trigger] ngs[j].figures[b]).value() == contact_sum(items, today, ngs[j].contact, b) by {
                        if j < gs.len() {
                            assert(ngs[j] == gs[j]);
                            assert(gs[j].figures[b] == gs[j].figures[b]);
                            assert(gs[j].contact != it.contact_id);
                        } else {
                            assert(contact_sum(p, today, it.contact_id, b) == 0);
                        }
                    }
                    assert forall|c: u128, b: int| find_group(ngs, c) < 0 implies #[trigger] contact_sum(
                        items,
                        today,
                        c,
                        b,
                    ) == 0 by {
                        assert(ngs.drop_last() =~= gs);
                        assert(ngs.last().contact == it.contact_id);
                        assert(c != it.contact_id);
                        assert(find_group(gs, c) < 0);
                        assert(contact_sum(p, today, c, b) == 0);
                    }
                } else {
                    assert(ngs == gs.update(k, g));
                    assert forall|j: int, b: int| 0 <= j < ngs.len() && 0 <= b < 6 implies (
                    #[trigger] ngs[j].figures[b]).value() == contact_sum(items, today, ngs[j].contact, b) by {
                        if j != k {
                            assert(ngs[j] == gs[j]);
                            assert(gs[j].figures[b] == gs[j].figures[b]);
                            assert(gs[j].contact != gs[k].contact);
                        } else {
                            assert(gs[k].figures[b] == gs[k].figures[b]);
                        }
                    }
                    assert forall|c: u128, b: int| find_group(ngs, c) < 0 implies #[trigger] contact_sum(
                        items,
                        today,
                        c,
                        b,
                    ) == 0 by {
                        lemma_find_group_update(gs, k, g, c);
                        assert(find_group(gs, c) < 0);
                        assert(c != it.contact_id);
                        assert(contact_sum(p, today, c, b) == 0);
                    }
                }
            }
        }
    }
}

proof fn lemma_find_group_update(gs: Seq<AgingGroup>, k: int, g: AgingGroup, c: u128)
    requires
        0 <= k < gs.len(),
        g.contact == gs[k].contact,
    ensures
        find_group(gs.update(k, g), c) == find_group(gs, c),
    decreases gs.len(),
{
    if k < gs.len() - 1 {
        assert(gs.update(k, g).drop_last() =~= gs.drop_last().update(k, g));
        lemma_find_group_update(gs.drop_last(), k, g, c);
    } else {
        assert(gs.update(k, g).drop_last() =~= gs.drop_last());
    }
}

proof fn lemma_contact_total(items: Seq<OpenItem>, today: Date, c: u128)
    ensures
        contact_sum(items, today, c, 5) == contact_sum(items, today, c, 0) + contact_sum(items, today, c, 1)
            + contact_sum(items, today, c, 2) + contact_sum(items, today, c, 3) + contact_sum(items, today, c, 4),
    decreases items.len(),
{
    if items.len() > 0 {
        lemma_contact_total(items.drop_last(), today, c);
    }
}

/// `d` days past due lies after `lo` (when given) and at or before `hi`
/// (when given).
pub open spec fn in_days(d: int, lo: Option<int>, hi: Option<int>) -> bool {
    (lo matches Some(l) ==> l < d) && (hi matches Some(h) ==> d <= h)
}

/// What a contact has open on items that are between `lo` (exclusive)
/// and `hi` (inclusive) days past due on `today`, unbounded where `None`.
pub open spec fn open_between(items: Seq<OpenItem>, today: Date, c: u128, lo: Option<int>, hi: Option<int>) -> int
    decreases items.len(),
{
    if items.len() == 0 {
        0
    } else {
        open_between(items.drop_last(), today, c, lo, hi) + if items.last().contact_id == c && in_days(
            day_number(today) - day_number(items.last().due_date),
            lo,
            hi,
        ) {
            items.last().outstanding.value()
        } else {
            0
        }
    }
}

proof fn lemma_bucket_range(items: Seq<OpenItem>, today: Date, c: u128, b: int, lo: Option<int>, hi: Option<int>)
    requires
        0 <= b < 5,
        forall|d: int| (#[trigger] bucket_of(d) == b) == in_days(d, lo, hi),
    ensures
        contact_sum(items, today, c, b) == open_between(items, today, c, lo, hi),
    decreases items.len(),
{
    if items.len() > 0 {
        lemma_bucket_range(items.drop_last(), today, c, b, lo, hi);
        let d = day_number(today) - day_number(items.last().due_date);
        assert((bucket_of(d) == b) == in_days(d, lo, hi));
    }
}

/// Each open item lands in the bucket of its days past due: a contact's
/// row holds, as `current`, what is not yet past due; as `1-30`, `31-60`
/// and `61-90`, what is 1 to 30, 31 to 60 and 61 to 90 days past due; and
/// as `90+`, what is more than 90 days past due.
pub proof fn aging_buckets_by_days_past_due(items: Seq<OpenItem>, today: Date)
    requires
        forall|i: int| 0 <= i < items.len() ==> (#[trigger] items[i]).outstanding.wf(),
    ensures
        aging_fold(items, today) matches Some(gs) ==> forall|k: int|
            0 <= k < gs.len() ==> {
                let c = (#[trigger] gs[k]).contact;
                &&& gs[k].figures[0].value() == open_between(items, today, c, None, Some(0))
                &&& gs[k].figures[1].value() == open_between(items, today, c, Some(0), Some(30))
                &&& gs[k].figures[2].value() == open_between(items, today, c, Some(30), Some(60))
                &&& gs[k].figures[3].value() == open_between(items, today, c, Some(60), Some(90))
                &&& gs[k].figures[4].value() == open_between(items, today, c, Some(90), None)
            },
{
    lemma_aging_sums(items, today);
    if let Some(gs) = aging_fold(items, today) {
        assert forall|k: int| 0 <= k < gs.len() implies {
            let c = (#[trigger] gs[k]).contact;
            &&& gs[k].figures[0].value() == open_between(items, today, c, None, Some(0))
            &&& gs[k].figures[1].value() == open_between(items, today, c, Some(0), Some(30))
            &&& gs[k].figures[2].value() == open_between(items, today, c, Some(30), Some(60))
            &&& gs[k].figures[3].value() == open_between(items, today, c, Some(60), Some(90))
            &&& gs[k].figures[4].value() == open_between(items, today, c, Some(90), None)
        } by {
            let c = gs[k].contact;
            assert(gs[k].figures[0].value() == contact_sum(items, today, c, 0));
            assert(gs[k].figures[1].value() == contact_sum(items, today, c, 1));
            assert(gs[k].figures[2].value() == contact_sum(items, today, c, 2));
            assert(gs[k].figures[3].value() == contact_sum(items, today, c, 3));
            assert(gs[k].figures[4].value() == contact_sum(items, today, c, 4));
            lemma_bucket_range(items, today, c, 0, None, Some(0));
            lemma_bucket_range(items, today, c, 1, Some(0), Some(30));
            lemma_bucket_range(items, today, c, 2, Some(30), Some(60));
            lemma_bucket_range(items, today, c, 3, Some(60), Some(90));
            lemma_bucket_range(items, today, c, 4, Some(90), None);
        }
    }
}

/// A contact's total is the sum of its five buckets.
pub proof fn lemma_aging_total(items: Seq<OpenItem>, today: Date)
    requires
        forall|i: int| 0 <= i < items.len() ==> (#[trigger] items[i]).outstanding.wf(),
    ensures
        aging_fold(items, today) matches Some(gs) ==> forall|k: int|
            0 <= k < gs.len() ==> (#[trigger] gs[k].figures)[5].value() == gs[k].figures[0].value()
                + gs[k].figures[1].value() + gs[k].figures[2].value() + gs[k].figures[3].value()
                + gs[k].figures[4].value(),
{
    lemma_aging_sums(items, today);
    if let Some(gs) = aging_fold(items, today) {
        assert forall|k: int| 0 <= k < gs.len() implies (#[trigger] gs[k].figures)[5].value()
            == gs[k].figures[0].value() + gs[k].figures[1].value() + gs[k].figures[2].value()
            + gs[k].figures[3].value() + gs[k].figures[4].value() by {
            lemma_contact_total(items, today, gs[k].contact);
            assert(gs[k].figures[5].value() == contact_sum(items, today, gs[k].contact, 5));
            assert(gs[k].figures[0].value() == contact_sum(items, today, gs[k].contact, 0));
            assert(gs[k].figures[1].value() == contact_sum(items, today, gs[k].contact, 1));
            assert(gs[k].figures[2].value() == contact_sum(items, today, gs[k].contact, 2));
            assert(gs[k].figures[3].value() == contact_sum(items, today, gs[k].contact, 3));
            assert(gs[k].figures[4].value() == contact_sum(items, today, gs[k].contact, 4));
        }
    }
}

} // verus!
