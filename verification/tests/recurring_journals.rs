use openaccounting::date::{advance_period, Date};

fn ymd(year: i32, month: u32, day: u32) -> Date {
    Date { year, month, day }
}

#[test]
fn advance_period_steps_each_frequency() {
    let d = ymd(2026, 1, 31);
    assert_eq!(advance_period(d, "monthly"), ymd(2026, 2, 28));
    assert_eq!(advance_period(d, "quarterly"), ymd(2026, 4, 30));
    assert_eq!(advance_period(d, "yearly"), ymd(2027, 1, 31));
    assert_eq!(advance_period(d, "weekly"), ymd(2026, 2, 7));
}
