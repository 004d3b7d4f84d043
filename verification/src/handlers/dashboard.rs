//! The ledger dashboard: the periods its figures cover, the money format
//! of its tiles, and where the home page sends a signed-in user.
use vstd::prelude::*;
use crate::amount::{Amount, fixed2_parts, fixed2_whole, fixed2_frac};
use crate::date::{Date, day_number, day_in_range, shift_days, from_ymd_opt, previous_month, previous_month_spec, next_month, next_month_spec};
use crate::text::{cat, chars_to_string};
use crate::uuid_text::{uuid_chars, uuid_text};

verus! {

/// Digits grouped in threes from the right, separated by commas.
pub open spec fn grouped(d: Seq<char>) -> Seq<char>
    decreases d.len(),
{
    if d.len() <= 3 {
        d
    } else {
        grouped(d.subrange(0, d.len() - 3)) + seq![','] + d.subrange(d.len() - 3, d.len() as int)
    }
}

fn grouped_prefix(d: &Vec<char>, n: usize) -> (r: Vec<char>)
    requires
        n <= d@.len(),
    ensures
        r@ == grouped(d@.subrange(0, n as int)),
    decreases n,
{
    if n <= 3 {
        let mut r: Vec<char> = Vec::new();
        for i in 0..n
            invariant
                n <= d@.len(),
                r@ == d@.subrange(0, i as int),
        {
            r.push(d[i]);
            assert(r@ =~= d@.subrange(0, i + 1));
        }
        r
    } else {
        let mut r = grouped_prefix(d, n - 3);
        let ghost s = d@.subrange(0, n as int);
        assert(s.subrange(0, s.len() - 3) =~= d@.subrange(0, n - 3));
        r.push(',');
        r.push(d[n - 3]);
        r.push(d[n - 2]);
        r.push(d[n - 1]);
        assert(s.subrange(s.len() - 3, s.len() as int) =~= seq![d@[n - 3], d@[n - 2], d@[n - 1]]);
        assert(r@ =~= grouped(s));
        r
    }
}

/// A dashboard money figure: a minus sign for negative amounts, the
/// currency, then the magnitude to two places with its whole digits
/// grouped by commas (`-USD 1,234.50`).
pub open spec fn money_text(a: Amount, currency: Seq<char>) -> Seq<char> {
    (if a.mantissa < 0 {
        "-"@
    } else {
        ""@
    }) + currency + " "@ + grouped(fixed2_whole(a.mantissa as int, a.scale as nat)) + "."@
        + fixed2_frac(a.mantissa as int, a.scale as nat)
}

pub fn format_money(a: Amount, currency: &str) -> (r: String)
    ensures
        r@ == money_text(a, currency@),
{
    let sign = if a.mantissa < 0 {
        "-"
    } else {
        ""
    };
    let (whole, frac) = fixed2_parts(a);
    let g = grouped_prefix(&whole, whole.len());
    assert(whole@.subrange(0, whole@.len() as int) =~= whole@);
    let s1 = cat(sign, currency);
    let s2 = cat(s1.as_str(), " ");
    let s3 = cat(s2.as_str(), chars_to_string(g.as_slice()).as_str());
    let s4 = cat(s3.as_str(), ".");
    cat(s4.as_str(), chars_to_string(frac.as_slice()).as_str())
}

/// The dates the dashboard's figures are computed over.
pub struct DashboardPeriods {
    pub first_of_month: Date,
    pub prev_month_first: Date,
    pub prev_month_end: Date,
    pub thirty_days_ago: Date,
    pub ninety_days_ago: Date,
}

/// The first of `today`'s month.
pub open spec fn month_start(today: Date) -> Date {
    Date { year: today.year, month: today.month, day: 1 }
}

/// The periods of the dashboard for `today`: the month to date, the
/// previous month (from its first to the day before this month, or its
/// first when that day is out of range), and the windows of the last 30
/// and 90 days.
pub fn dashboard_periods(today: Date) -> (r: DashboardPeriods)
    requires
        today.wf(),
        day_in_range(day_number(today) - 30),
        day_in_range(day_number(today) - 90),
    ensures
        r.first_of_month == month_start(today),
        r.prev_month_first == previous_month_spec(month_start(today)),
        day_in_range(day_number(month_start(today)) - 1) ==> r.prev_month_end.wf() && day_number(
            r.prev_month_end,
        ) == day_number(month_start(today)) - 1,
        !day_in_range(day_number(month_start(today)) - 1) ==> r.prev_month_end
            == previous_month_spec(month_start(today)),
        r.thirty_days_ago.wf() && day_number(r.thirty_days_ago) == day_number(today) - 30,
        r.ninety_days_ago.wf() && day_number(r.ninety_days_ago) == day_number(today) - 90,
{
    let first = match from_ymd_opt(today.year, today.month, 1) {
        Some(d) => d,
        None => today,
    };
    assert(first == month_start(today));
    let prev_first = previous_month(first);
    let prev_end = match shift_days(first, -1) {
        Some(d) => d,
        None => prev_first,
    };
    let thirty = match shift_days(today, -30) {
        Some(d) => d,
        None => today,
    };
    let ninety = match shift_days(today, -90) {
        Some(d) => d,
        None => today,
    };
    DashboardPeriods {
        first_of_month: first,
        prev_month_first: prev_first,
        prev_month_end: prev_end,
        thirty_days_ago: thirty,
        ninety_days_ago: ninety,
    }
}

/// The last day of the month that starts on `month_first`: the day
/// before the next month's first (`month_first` itself when that day is
/// out of range).
pub fn month_end(month_first: Date) -> (r: Date)
    requires
        month_first.wf(),
    ensures
        day_in_range(day_number(next_month_spec(month_first)) - 1) ==> r.wf() && day_number(r)
            == day_number(next_month_spec(month_first)) - 1,
        !day_in_range(day_number(next_month_spec(month_first)) - 1) ==> r == month_first,
{
    let next = next_month(month_first);
    match shift_days(next, -1) {
        Some(d) => d,
        None => month_first,
    }
}

/// Where the home page sends a signed-in user: the dashboard of their
/// first ledger, or the ledger list when they have none.
pub fn home_destination(first_ledger: Option<u128>) -> (r: String)
    ensures
        r@ == (match first_ledger {
            Some(id) => "/ledgers/"@ + uuid_text(id) + "/dashboard"@,
            None => "/ledgers"@,
        }),
{
    match first_ledger {
        Some(id) => {
            let a = cat("/ledgers/", chars_to_string(uuid_chars(id).as_slice()).as_str());
            cat(a.as_str(), "/dashboard")
        },
        None => "/ledgers".to_string(),
    }
}

} // verus!
