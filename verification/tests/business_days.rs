use made_activity_tracker::metrics::business_days::{business_days_between, count_business_days,
    is_business_day, parse_date};

#[test]
fn test_weekday_only() {
    // Monday to Friday = 4 business days
    let days = business_days_between("2024-02-19", "2024-02-23");
    assert_eq!(days, 4);
}

#[test]
fn test_includes_weekend() {
    // Friday to Monday = 1 business day
    let days = business_days_between("2024-02-23", "2024-02-26");
    assert_eq!(days, 1);
}

#[test]
fn test_full_week() {
    // Monday to next Monday = 5 business days
    let days = business_days_between("2024-02-19", "2024-02-26");
    assert_eq!(days, 5);
}

#[test]
fn test_same_day() {
    let days = business_days_between("2024-02-19", "2024-02-19");
    assert_eq!(days, 0);
}

#[test]
fn test_weekend_start() {
    // Saturday to Tuesday = 2 business days (Mon, Tue)
    let days = business_days_between("2024-02-24", "2024-02-27");
    assert_eq!(days, 2);
}

#[test]
fn test_iso8601_format() {
    let days = business_days_between("2024-02-19T10:00:00Z", "2024-02-23T18:00:00Z");
    assert_eq!(days, 4);
}

#[test]
fn test_year_boundary() {
    let days = business_days_between("2023-12-29", "2024-01-02");
    assert_eq!(days, 2);
}

#[test]
fn unparseable_dates_count_nothing() {
    assert_eq!(business_days_between("not a date", "2024-02-23"), 0);
    assert_eq!(business_days_between("2024-02-19", "2024/02/23"), 0);
    assert_eq!(business_days_between("", ""), 0);
}

#[test]
fn reversed_range_counts_nothing() {
    assert_eq!(business_days_between("2024-02-26", "2024-02-19"), 0);
}

#[test]
fn ranges_add_up() {
    let a = business_days_between("2024-02-01", "2024-02-14");
    let b = business_days_between("2024-02-14", "2024-03-05");
    let whole = business_days_between("2024-02-01", "2024-03-05");
    assert_eq!(a + b, whole);
}

#[test]
fn any_seven_days_hold_five_business_days() {
    for start in 0..7 {
        let s = 738900 + start;
        assert_eq!(count_business_days(s, s + 7), 5);
    }
}

#[test]
fn shifting_by_a_week_keeps_the_count() {
    assert_eq!(count_business_days(738900, 738911), count_business_days(738907, 738918));
}

#[test]
fn rfc3339_uses_the_local_calendar_date() {
    // 23:30 at UTC-05:00 is still February 19 in the text's own offset.
    let a = parse_date("2024-02-19T23:30:00-05:00");
    let b = parse_date("2024-02-19");
    assert_eq!(a, b);
    assert!(a.is_some());
}

#[test]
fn weekday_rule() {
    // Day 1 (January 1 of year 1) is a Monday.
    assert!(is_business_day(1));
    assert!(is_business_day(5));
    assert!(!is_business_day(6));
    assert!(!is_business_day(7));
    assert!(is_business_day(8));
    assert!(!is_business_day(0));
    assert!(!is_business_day(-1));
}
