//! Calendar dates (proleptic Gregorian, the range of `chrono::NaiveDate`)
//! and the period arithmetic of the recurring-journal, amortization,
//! fixed-asset and dashboard features.
use vstd::prelude::*;
use chrono::Datelike;
use crate::amount::{padded_digits, digits_of, abs};
use crate::escape::push_chars;

verus! {

/// Smallest year `chrono::NaiveDate` accepts.
pub const MIN_YEAR: i32 = -262143;

/// Largest year `chrono::NaiveDate` accepts.
pub const MAX_YEAR: i32 = 262142;

/// A calendar date.
#[derive(Debug, Clone, Copy, PartialEq, Eq)]
pub struct Date {
    pub year: i32,
    pub month: u32,
    pub day: u32,
}

pub open spec fn is_leap(y: int) -> bool {
    (y % 4 == 0 && y % 100 != 0) || y % 400 == 0
}

pub open spec fn days_in_month(y: int, m: int) -> int {
    if m == 2 {
        if is_leap(y) {
            29
        } else {
            28
        }
    } else if m == 4 || m == 6 || m == 9 || m == 11 {
        30
    } else {
        31
    }
}

pub open spec fn valid_ymd(y: int, m: int, d: int) -> bool {
    MIN_YEAR <= y <= MAX_YEAR && 1 <= m <= 12 && 1 <= d <= days_in_month(y, m)
}

impl Date {
    pub open spec fn wf(self) -> bool {
        valid_ymd(self.year as int, self.month as int, self.day as int)
    }

    /// Chronological order.
    pub open spec fn before(self, other: Date) -> bool {
        self.year < other.year || (self.year == other.year && (self.month < other.month || (
        self.month == other.month && self.day < other.day)))
    }
}

/// Whether `a` comes before `b`.
pub fn date_before(a: Date, b: Date) -> (r: bool)
    ensures
        r == a.before(b),
{
    a.year < b.year || (a.year == b.year && (a.month < b.month || (a.month == b.month && a.day
        < b.day)))
}

pub fn is_leap_year(y: i32) -> (r: bool)
    ensures
        r == is_leap(y as int),
{
    (y % 4 == 0 && y % 100 != 0) || y % 400 == 0
}

/// Number of days in `month` of `year` (the last day of that month).
pub fn last_day_of_month(year: i32, month: u32) -> (r: u32)
    requires
        1 <= month <= 12,
    ensures
        r == days_in_month(year as int, month as int),
        28 <= r <= 31,
{
    if month == 2 {
        if is_leap_year(year) {
            29
        } else {
            28
        }
    } else if month == 4 || month == 6 || month == 9 || month == 11 {
        30
    } else {
        31
    }
}

/// `NaiveDate::from_ymd_opt`: the date when it exists in the supported range.
pub fn from_ymd_opt(year: i32, month: u32, day: u32) -> (r: Option<Date>)
    ensures
        r == (if valid_ymd(year as int, month as int, day as int) {
            Some(Date { year, month, day })
        } else {
            None
        }),
{
    if year < MIN_YEAR || year > MAX_YEAR || month < 1 || month > 12 || day < 1 {
        return None;
    }
    if day > last_day_of_month(year, month) {
        return None;
    }
    Some(Date { year, month, day })
}

/// The date `n` months after `d`, clamping the day to the target month's
/// length (the year moves with the month).
pub open spec fn months_later(d: Date, n: int) -> Date {
    let total = (d.month - 1) + n;
    let year = d.year + total / 12;
    let month = total % 12 + 1;
    let dim = days_in_month(year, month);
    Date {
        year: year as i32,
        month: month as u32,
        day: (if (d.day as int) < dim {
            d.day as int
        } else {
            dim
        }) as u32,
    }
}

/// `add_months` of the recurring-journal scheduler: `n` months later, day
/// clamped; `d` itself when the target year is out of range.
pub open spec fn add_months_spec(d: Date, n: int) -> Date {
    if months_later(d, n).wf() {
        months_later(d, n)
    } else {
        d
    }
}

pub fn add_months(d: Date, n: u32) -> (r: Date)
    requires
        d.wf(),
        n <= 1200,
    ensures
        r == add_months_spec(d, n as int),
        r.wf(),
{
    let total: u32 = d.month - 1 + n;
    let year_i: i64 = d.year as i64 + (total / 12) as i64;
    let month: u32 = total % 12 + 1;
    if year_i > MAX_YEAR as i64 {
        return d;
    }
    let year = year_i as i32;
    let dim = last_day_of_month(year, month);
    let day = if d.day < dim {
        d.day
    } else {
        dim
    };
    match from_ymd_opt(year, month, day) {
        Some(x) => x,
        None => d,
    }
}

/// The date seven days after `d`.
pub open spec fn week_later(d: Date) -> Date {
    let dim = days_in_month(d.year as int, d.month as int);
    if d.day + 7 <= dim {
        Date { year: d.year, month: d.month, day: (d.day + 7) as u32 }
    } else if d.month < 12 {
        Date { year: d.year, month: (d.month + 1) as u32, day: (d.day + 7 - dim) as u32 }
    } else {
        Date { year: (d.year + 1) as i32, month: 1, day: (d.day + 7 - dim) as u32 }
    }
}

/// `d + Duration::days(7)`.
pub fn add_week(d: Date) -> (r: Date)
    requires
        d.wf(),
        !(d.year == MAX_YEAR && d.month == 12 && d.day > 24),
    ensures
        r == week_later(d),
        r.wf(),
        d.before(r),
{
    let dim = last_day_of_month(d.year, d.month);
    if d.day + 7 <= dim {
        Date { year: d.year, month: d.month, day: d.day + 7 }
    } else if d.month < 12 {
        Date { year: d.year, month: d.month + 1, day: d.day + 7 - dim }
    } else {
        Date { year: d.year + 1, month: 1, day: d.day + 7 - dim }
    }
}

/// Recurrence frequencies of recurring journals.
pub open spec fn advance_period_spec(d: Date, frequency: Seq<char>) -> Date {
    if frequency == "weekly"@ {
        week_later(d)
    } else if frequency == "quarterly"@ {
        add_months_spec(d, 3)
    } else if frequency == "yearly"@ {
        add_months_spec(d, 12)
    } else {
        add_months_spec(d, 1)
    }
}

/// First date of the period after `d` for `frequency` (monthly by default).
pub fn advance_period(d: Date, frequency: &str) -> (r: Date)
    requires
        d.wf(),
        d.year < MAX_YEAR,
    ensures
        r == advance_period_spec(d, frequency@),
        r.wf(),
{
    if crate::text::str_equal(frequency, "weekly") {
        add_week(d)
    } else if crate::text::str_equal(frequency, "quarterly") {
        add_months(d, 3)
    } else if crate::text::str_equal(frequency, "yearly") {
        add_months(d, 12)
    } else {
        add_months(d, 1)
    }
}

/// First day of the month before `d`'s month (`d` itself when out of range).
pub open spec fn previous_month_spec(d: Date) -> Date {
    let (y, m) = if d.month <= 1 {
        (d.year - 1, 12int)
    } else {
        (d.year as int, d.month - 1)
    };
    if valid_ymd(y, m, 1) {
        Date { year: y as i32, month: m as u32, day: 1 }
    } else {
        d
    }
}

pub fn previous_month(d: Date) -> (r: Date)
    requires
        d.wf(),
    ensures
        r == previous_month_spec(d),
{
    let mut y: i32 = d.year;
    let mut m: i32 = d.month as i32 - 1;
    if m <= 0 {
        m = m + 12;
        y = y - 1;
    }
    match from_ymd_opt(y, m as u32, 1) {
        Some(x) => x,
        None => d,
    }
}

/// First day of the month after `d`'s month (`d` itself when out of range).
pub open spec fn next_month_spec(d: Date) -> Date {
    let (y, m) = if d.month >= 12 {
        (d.year + 1, 1int)
    } else {
        (d.year as int, d.month + 1)
    };
    if valid_ymd(y, m, 1) {
        Date { year: y as i32, month: m as u32, day: 1 }
    } else {
        d
    }
}

pub fn next_month(d: Date) -> (r: Date)
    requires
        d.wf(),
    ensures
        r == next_month_spec(d),
{
    let mut y: i32 = d.year;
    let mut m: i32 = d.month as i32 + 1;
    if m > 12 {
        m = 1;
        y = y + 1;
    }
    match from_ymd_opt(y, m as u32, 1) {
        Some(x) => x,
        None => d,
    }
}

/// `next_year_month` of the fixed-asset schedule: the same as `next_month`.
pub fn next_year_month(d: Date) -> (r: Date)
    requires
        d.wf(),
    ensures
        r == next_month_spec(d),
{
    next_month(d)
}

/// Month index (year * 12 + month - 1), used to count months.
pub open spec fn month_index(y: int, m: int) -> int {
    y * 12 + (m - 1)
}

/// The first days of the `n` months before `today`'s month, oldest first,
/// leaving out those before the supported range.
pub open spec fn months_back(today: Date, n: nat) -> Seq<Date>
    decreases n,
{
    if n == 0 {
        Seq::empty()
    } else {
        let idx = month_index(today.year as int, today.month as int) - n;
        let y = idx / 12;
        let m = idx % 12 + 1;
        let rest = months_back(today, (n - 1) as nat);
        if valid_ymd(y, m, 1) {
            seq![Date { year: y as i32, month: m as u32, day: 1 }] + rest
        } else {
            rest
        }
    }
}

/// `last_n_months`: the first days of the previous `n` months, ascending.
pub fn last_n_months(today: Date, n: usize) -> (r: Vec<Date>)
    requires
        today.wf(),
    ensures
        r@ == months_back(today, n as nat),
{
    let mut out: Vec<Date> = Vec::new();
    let mut y: i64 = today.year as i64;
    let mut m: i64 = today.month as i64;
    let mut k: usize = 0;
    while k < n
        invariant
            k <= n,
            today.wf(),
            month_index(y as int, m as int) == month_index(today.year as int, today.month as int)
                - k,
            1 <= m <= 12,
            MIN_YEAR as int - n as int <= y <= MAX_YEAR,
            out@.reverse() == months_back(today, k as nat),
        decreases n - k,
    {
        m = m - 1;
        if m <= 0 {
            m = m + 12;
            y = y - 1;
        }
        let ghost idx = month_index(today.year as int, today.month as int) - (k + 1);
        assert(idx / 12 == y && idx % 12 + 1 == m) by {
            assert(idx == y * 12 + (m - 1));
            vstd::arithmetic::div_mod::lemma_fundamental_div_mod_converse(idx, 12, y as int, m - 1);
        }
        let ghost before = out@;
        if y >= MIN_YEAR as i64 && y <= MAX_YEAR as i64 {
            match from_ymd_opt(y as i32, m as u32, 1) {
                Some(d) => {
                    out.push(d);
                    assert(out@.reverse() =~= seq![d] + before.reverse());
                },
                None => {},
            }
        }
        k = k + 1;
    }
    let ghost rev = out@;
    let r = reverse_dates(out);
    assert(r@ =~= rev.reverse());
    r
}

fn reverse_dates(v: Vec<Date>) -> (r: Vec<Date>)
    ensures
        r@ == v@.reverse(),
{
    let mut r: Vec<Date> = Vec::new();
    let mut i: usize = v.len();
    while i > 0
        invariant
            i <= v@.len(),
            r@ == v@.reverse().subrange(0, v@.len() - i),
        decreases i,
    {
        i = i - 1;
        r.push(v[i]);
        assert(r@ =~= v@.reverse().subrange(0, v@.len() - i));
    }
    assert(r@ =~= v@.reverse());
    r
}

/// The date `k` calendar months after `d` keeping the day of month, or `d`
/// when that day does not exist in the target month or year.
pub open spec fn shift_months_keep_day(d: Date, k: int) -> Date {
    let idx = month_index(d.year as int, d.month as int) + k;
    let y = idx / 12;
    let m = idx % 12 + 1;
    if valid_ymd(y, m, d.day as int) {
        Date { year: y as i32, month: m as u32, day: d.day }
    } else {
        d
    }
}

/// Amortization schedule step: `n` periods of `unit` after `date`.
pub open spec fn amortization_advance_spec(date: Date, unit: Seq<char>, n: int) -> Date {
    if unit == "monthly"@ {
        shift_months_keep_day(date, n)
    } else if unit == "quarterly"@ {
        shift_months_keep_day(date, 3 * n)
    } else if unit == "yearly"@ {
        shift_months_keep_day(date, 12 * n)
    } else {
        date
    }
}

fn shift_months(date: Date, k: i64) -> (r: Date)
    requires
        date.wf(),
        -100000000000 <= k <= 100000000000,
    ensures
        r == shift_months_keep_day(date, k as int),
{
    let mut y: i64 = date.year as i64;
    let mut m: i64 = date.month as i64 + k;
    let ym = y * 12 + (m - 1);
    let ny = if ym >= 0 {
        ym / 12
    } else {
        -((-ym + 11) / 12)
    };
    let nm0 = ym - ny * 12;
    proof {
        let idx = month_index(date.year as int, date.month as int) + k;
        assert(ym == idx);
        assert(0 <= nm0 < 12);
        vstd::arithmetic::div_mod::lemma_fundamental_div_mod_converse(idx, 12, ny as int, nm0 as int);
    }
    y = ny;
    m = nm0 + 1;
    if y < MIN_YEAR as i64 || y > MAX_YEAR as i64 {
        return date;
    }
    match from_ymd_opt(y as i32, m as u32, date.day) {
        Some(x) => x,
        None => date,
    }
}

/// `advance` of the amortization schedule (unknown units leave the date).
pub fn amortization_advance(date: Date, unit: &str, n: i32) -> (r: Date)
    requires
        date.wf(),
        unit@ == "yearly"@ ==> i32::MIN <= date.year + n <= i32::MAX,
    ensures
        r == amortization_advance_spec(date, unit@, n as int),
{
    if crate::text::str_equal(unit, "monthly") {
        shift_months(date, n as i64)
    } else if crate::text::str_equal(unit, "quarterly") {
        shift_months(date, 3 * (n as i64))
    } else if crate::text::str_equal(unit, "yearly") {
        shift_months(date, 12 * (n as i64))
    } else {
        date
    }
}

// ---------------------------------------------------------------------
// Text forms and parsing
// ---------------------------------------------------------------------

/// `%Y`: four zero-padded digits for years 0..=9999, otherwise an explicit
/// sign followed by at least four digits.
pub open spec fn year_text(y: int) -> Seq<char> {
    if 0 <= y <= 9999 {
        padded_digits(y as nat, 4)
    } else {
        (if y > 0 {
            seq!['+']
        } else {
            seq!['-']
        }) + padded_digits(abs(y), 4)
    }
}

/// `%m` / `%d`: two zero-padded digits.
pub open spec fn two_digit_text(v: int) -> Seq<char> {
    padded_digits(v as nat, 2)
}

/// `YYYY-MM-DD`, the `Display` form of a date (and `%Y-%m-%d`).
pub open spec fn iso_date_text(d: Date) -> Seq<char> {
    year_text(d.year as int) + seq!['-'] + two_digit_text(d.month as int) + seq!['-']
        + two_digit_text(d.day as int)
}

/// `DDMMYYYY` (`%d%m%Y`), the DATEV document-date form.
pub open spec fn dmy_compact_text(d: Date) -> Seq<char> {
    two_digit_text(d.day as int) + two_digit_text(d.month as int) + year_text(d.year as int)
}

fn padded(n: u128, width: usize) -> (r: Vec<char>)
    ensures
        r@ == padded_digits(n as nat, width as nat),
{
    let d = digits_of(n);
    let mut r: Vec<char> = Vec::new();
    if d.len() < width {
        let pad = width - d.len();
        for i in 0..pad
            invariant
                r@ == Seq::new(i as nat, |j: int| '0'),
        {
            r.push('0');
            assert(r@ =~= Seq::new((i + 1) as nat, |j: int| '0'));
        }
    }
    push_chars(&mut r, &d);
    assert(r@ =~= padded_digits(n as nat, width as nat));
    r
}

fn year_chars(y: i32) -> (r: Vec<char>)
    ensures
        r@ == year_text(y as int),
{
    if 0 <= y && y <= 9999 {
        padded(y as u128, 4)
    } else {
        let mut r: Vec<char> = Vec::new();
        if y > 0 {
            r.push('+');
        } else {
            r.push('-');
        }
        let a: u128 = if y < 0 {
            (-(y as i64)) as u128
        } else {
            y as u128
        };
        let d = padded(a, 4);
        push_chars(&mut r, &d);
        assert(r@ =~= year_text(y as int));
        r
    }
}

/// The `Display` text of a date: `YYYY-MM-DD`.
pub fn date_iso(d: Date) -> (r: Vec<char>)
    ensures
        r@ == iso_date_text(d),
{
    let mut r = year_chars(d.year);
    r.push('-');
    let m = padded(d.month as u128, 2);
    push_chars(&mut r, &m);
    r.push('-');
    let dd = padded(d.day as u128, 2);
    push_chars(&mut r, &dd);
    assert(r@ =~= iso_date_text(d));
    r
}

/// `DDMMYYYY`.
pub fn date_dmy_compact(d: Date) -> (r: Vec<char>)
    ensures
        r@ == dmy_compact_text(d),
{
    let mut r = padded(d.day as u128, 2);
    let m = padded(d.month as u128, 2);
    push_chars(&mut r, &m);
    let y = year_chars(d.year);
    push_chars(&mut r, &y);
    assert(r@ =~= dmy_compact_text(d));
    r
}

/// Idempotency key of a recurring run: the period's date as `YYYY-MM-DD`.
pub fn period_key(d: Date) -> (r: String)
    ensures
        r@ == iso_date_text(d),
{
    let v = date_iso(d);
    crate::text::chars_to_string(v.as_slice())
}

/// What `NaiveDate::parse_from_str(s, fmt)` yields: (year, month, day) of
/// the date, or the text of the parse error.
pub uninterp spec fn chrono_parse_date(s: Seq<char>, fmt: Seq<char>) -> Result<(i32, u32, u32), Seq<char>>;

pub open spec fn parsed_date(s: Seq<char>, fmt: Seq<char>) -> Option<Date> {
    match chrono_parse_date(s, fmt) {
        Ok((y, m, d)) => Some(Date { year: y, month: m, day: d }),
        Err(_) => None,
    }
}

/// Calls `chrono::NaiveDate::parse_from_str`. Its result depends on the text
/// and the strftime-style format alone and is named `chrono_parse_date`; the
/// date is read back with `year`, `month` and `day`, and the error as its
/// `Display` text. Every date chrono yields is a valid date of its supported
/// range (years -262143 to 262142); the grammar is not stated here.
#[verifier::external_body]
pub(crate) fn parse_date_with_format(s: &str, fmt: &str) -> (r: Result<Date, String>)
    ensures
        match (r, chrono_parse_date(s@, fmt@)) {
            (Ok(d), Ok((y, m, dd))) => d == Date { year: y, month: m, day: dd },
            (Err(e), Err(t)) => e@ == t,
            _ => false,
        },
        r matches Ok(d) ==> d.wf(),
{
    match chrono::NaiveDate::parse_from_str(s, fmt) {
        Ok(d) => Ok(Date { year: d.year(), month: d.month(), day: d.day() }),
        Err(e) => Err(e.to_string()),
    }
}

// ---------------------------------------------------------------------
// Day counting
// ---------------------------------------------------------------------

/// Days in the years before `y` (relative to year 0).
pub open spec fn days_before_year(y: int) -> int {
    let p = y - 1;
    365 * y + (if p >= 0 { p / 4 - p / 100 + p / 400 + 1 } else { -((-p - 1) / 4) + (-p - 1) / 100 - (-p - 1) / 400 })
}

pub open spec fn days_before_month(y: int, m: int) -> int
    decreases m,
{
    if m <= 1 {
        0
    } else {
        days_before_month(y, m - 1) + days_in_month(y, m - 1)
    }
}

/// Serial day number of a date (consecutive dates differ by one).
pub open spec fn day_number(d: Date) -> int {
    days_before_year(d.year as int) + days_before_month(d.year as int, d.month as int) + d.day
}

fn leap_days_before(y: i64) -> (r: i64)
    requires
        -300000 <= y <= 300000,
    ensures
        r == (if y - 1 >= 0 { (y - 1) / 4 - (y - 1) / 100 + (y - 1) / 400 + 1 } else { -((-(y - 1) - 1) / 4) + (-(y - 1) - 1) / 100 - (-(y - 1) - 1) / 400 }),
        -100000 <= r <= 100000,
{
    let p = y - 1;
    if p >= 0 {
        p / 4 - p / 100 + p / 400 + 1
    } else {
        let q = -p - 1;
        -(q / 4) + q / 100 - q / 400
    }
}

fn days_before_month_exec(y: i32, m: u32) -> (r: i64)
    requires
        1 <= m <= 12,
    ensures
        r == days_before_month(y as int, m as int),
        0 <= r <= 366,
{
    let mut r: i64 = 0;
    let mut k: u32 = 1;
    while k < m
        invariant
            1 <= k <= m <= 12,
            r == days_before_month(y as int, k as int),
            0 <= r <= 31 * (k - 1),
        decreases m - k,
    {
        r = r + last_day_of_month(y, k) as i64;
        k = k + 1;
    }
    r
}

/// Serial day number of a valid date.
pub fn day_number_of(d: Date) -> (r: i64)
    requires
        d.wf(),
    ensures
        r == day_number(d),
        -100000000 <= r <= 100000000,
{
    let y = d.year as i64;
    let ly = leap_days_before(y);
    assert(-95697195 <= 365 * y <= 95681830) by (nonlinear_arith)
        requires
            -262143 <= y <= 262142,
    ;
    365 * y + ly + days_before_month_exec(d.year, d.month) + d.day as i64
}

/// `(a - b).num_days()`: signed number of days from `b` to `a`.
pub fn days_between(a: Date, b: Date) -> (r: i64)
    requires
        a.wf(),
        b.wf(),
    ensures
        r == day_number(a) - day_number(b),
        -200000000 <= r <= 200000000,
{
    day_number_of(a) - day_number_of(b)
}

/// The first and last dates of the supported range.
pub open spec fn first_date() -> Date {
    Date { year: MIN_YEAR, month: 1, day: 1 }
}

pub open spec fn last_date() -> Date {
    Date { year: MAX_YEAR, month: 12, day: 31 }
}

/// Day `n` (a serial day number) lies in the supported range.
pub open spec fn day_in_range(n: int) -> bool {
    day_number(first_date()) <= n <= day_number(last_date())
}

/// Calls `chrono::NaiveDate::checked_add_signed` with a whole number of
/// days, which yields the date `n` days later (earlier for negative `n`),
/// or `None` when that date is out of chrono's range. `TimeDelta::days`
/// panics beyond about 10^14 days, which `requires` rules out.
#[verifier::external_body]
pub(crate) fn shift_days(d: Date, n: i64) -> (r: Option<Date>)
    requires
        d.wf(),
        -1000000000 <= n <= 1000000000,
    ensures
        r is Some <==> day_in_range(day_number(d) + n),
        r matches Some(x) ==> x.wf() && day_number(x) == day_number(d) + n,
{
    let nd = chrono::NaiveDate::from_ymd_opt(d.year, d.month, d.day)?;
    let x = nd.checked_add_signed(chrono::TimeDelta::days(n))?;
    Some(Date { year: x.year(), month: x.month(), day: x.day() })
}

/// What `str::parse::<chrono::NaiveDate>` yields: (year, month, day), or
/// `None` on an error.
pub uninterp spec fn naive_date_from_str(s: Seq<char>) -> Option<(i32, u32, u32)>;

pub open spec fn date_from_str(s: Seq<char>) -> Option<Date> {
    match naive_date_from_str(s) {
        Some((y, m, d)) => Some(Date { year: y, month: m, day: d }),
        None => None,
    }
}

/// Calls `<chrono::NaiveDate as FromStr>::from_str` (an ISO-style
/// `year-month-day`). Its result depends on the text alone and is named
/// `naive_date_from_str`; every date it yields is valid.
#[verifier::external_body]
pub(crate) fn parse_iso_date(s: &str) -> (r: Option<Date>)
    ensures
        r == (match naive_date_from_str(s@) {
            Some((y, m, d)) => Some(Date { year: y, month: m, day: d }),
            None => None,
        }),
        r matches Some(d) ==> d.wf(),
{
    match s.parse::<chrono::NaiveDate>() {
        Ok(d) => Some(Date { year: d.year(), month: d.month(), day: d.day() }),
        Err(_) => None,
    }
}

proof fn lemma_months_later_after(d: Date, n: int)
    requires
        d.wf(),
        d.year < MAX_YEAR,
        1 <= n <= 12,
    ensures
        months_later(d, n).wf(),
        d.before(months_later(d, n)),
{
    let total = (d.month - 1) + n;
    assert(0 <= total < 24);
    let year = d.year + total / 12;
    let month = total % 12 + 1;
    if total < 12 {
        assert(total / 12 == 0 && total % 12 == total);
    } else {
        assert(total / 12 == 1 && total % 12 == total - 12);
    }
    assert(days_in_month(year, month) >= 28);
}

/// A template's next period always lies after the current one: advancing
/// a date by any frequency gives a later date.
pub proof fn lemma_advance_period_later(d: Date, frequency: Seq<char>)
    requires
        d.wf(),
        d.year < MAX_YEAR,
    ensures
        d.before(advance_period_spec(d, frequency)),
        advance_period_spec(d, frequency).wf(),
{
    if frequency == "weekly"@ {
        let dim = days_in_month(d.year as int, d.month as int);
        assert(dim >= 28 && dim <= 31);
        assert(days_in_month(d.year + 1, 1) == 31);
        if d.month < 12 {
            assert(days_in_month(d.year as int, d.month + 1) >= 28);
        }
    } else if frequency == "quarterly"@ {
        lemma_months_later_after(d, 3);
    } else if frequency == "yearly"@ {
        lemma_months_later_after(d, 12);
    } else {
        lemma_months_later_after(d, 1);
    }
}

} // verus!
