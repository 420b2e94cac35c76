//! Tests for the date and integer syntax.

use rbudget::date::Date;
use rbudget::errors::Error;
use rbudget::syntax::{parse_date, parse_i32};

fn fixed_today() -> Date {
    Date::new(2022, 6, 15).unwrap()
}

#[test]
fn test_parse_date() {
    let today = fixed_today();
    let date = parse_date("01/01/2018", &today).unwrap();
    assert_eq!("2018-01-01", date.to_text());
    let date = parse_date("01/12", &today).unwrap();
    assert_eq!("2022-12-01", date.to_text());
    let date = parse_date("01", &today).unwrap();
    assert_eq!("2022-06-01", date.to_text());
}

#[test]
fn test_parse_date_iso() {
    let today = fixed_today();
    let date = parse_date("2018-01-01", &today).unwrap();
    assert_eq!("2018-01-01", date.to_text());
    assert_eq!(date, Date::new(2018, 1, 1).unwrap());
}

#[test]
fn test_parse_date_rejects_free_text() {
    let today = fixed_today();
    assert!(matches!(parse_date("not-a-date", &today), Err(Error::DateError)));
    assert!(matches!(parse_date("", &today), Err(Error::DateError)));
    assert!(matches!(parse_date("1/2/3", &today), Err(Error::DateError)));
    assert!(matches!(parse_date("123", &today), Err(Error::DateError)));
    assert!(matches!(parse_date("01//2018", &today), Err(Error::DateError)));
}

#[test]
fn test_parse_date_day_month_short_forms() {
    let today = fixed_today();
    assert_eq!(parse_date("5/3", &today).unwrap(), Date::new(2022, 3, 5).unwrap());
    assert_eq!(parse_date("5", &today).unwrap(), Date::new(2022, 6, 5).unwrap());
    assert_eq!(parse_date("15/06", &today).unwrap(), Date::new(2022, 6, 15).unwrap());
}

#[test]
fn test_parse_date_calendar_validity() {
    let today = fixed_today();
    assert_eq!(parse_date("29/02/2020", &today).unwrap(), Date::new(2020, 2, 29).unwrap());
    assert!(matches!(parse_date("29/02/2021", &today), Err(Error::DateError)));
    assert!(matches!(parse_date("31/04/2021", &today), Err(Error::DateError)));
    assert!(matches!(parse_date("00/01/2021", &today), Err(Error::DateError)));
    assert!(matches!(parse_date("01/13/2021", &today), Err(Error::DateError)));
    assert_eq!(parse_date("31/12/9999", &today).unwrap(), Date::new(9999, 12, 31).unwrap());
}

#[test]
fn test_parse_date_day_only_respects_month_length() {
    // thirty-one days in July, thirty in June
    let end_of_june = Date::new(2022, 6, 30).unwrap();
    assert!(matches!(parse_date("31", &end_of_june), Err(Error::DateError)));
    let july = Date::new(2022, 7, 1).unwrap();
    assert_eq!(parse_date("31", &july).unwrap(), Date::new(2022, 7, 31).unwrap());
}

#[test]
fn test_date_text_is_zero_padded() {
    assert_eq!(Date::new(33, 1, 2).unwrap().to_text(), "0033-01-02");
    assert_eq!(Date::new(2022, 12, 31).unwrap().to_text(), "2022-12-31");
}

#[test]
fn test_date_new_rejects_invalid_fields() {
    assert!(Date::new(2022, 0, 1).is_none());
    assert!(Date::new(2022, 13, 1).is_none());
    assert!(Date::new(2022, 2, 29).is_none());
    assert!(Date::new(10000, 1, 1).is_none());
    assert!(Date::new(2024, 2, 29).is_some());
}

#[test]
fn test_parse_date_now_full_dates_ignore_the_clock() {
    // the full forms never consult the clock, so their result is fixed
    let date = rbudget::syntax::parse_date_now("2018-01-01").unwrap();
    assert_eq!(date, Date::new(2018, 1, 1).unwrap());
    let date = rbudget::syntax::parse_date_now("02/03/2019").unwrap();
    assert_eq!(date, Date::new(2019, 3, 2).unwrap());
    assert!(matches!(rbudget::syntax::parse_date_now("nope"), Err(Error::DateError)));
}

#[test]
fn test_today_is_a_real_calendar_date() {
    let t = Date::today();
    assert!((1..=12).contains(&t.month));
    assert!((1..=31).contains(&t.day));
    assert!(t.year <= 9999);
    // rebuilding it from its own fields succeeds only for a valid date
    assert_eq!(Date::new(t.year, t.month, t.day).unwrap(), t);
}

#[test]
fn test_parse_i32_values() {
    assert_eq!(parse_i32("0").unwrap(), 0);
    assert_eq!(parse_i32("5").unwrap(), 5);
    assert_eq!(parse_i32("007").unwrap(), 7);
    assert_eq!(parse_i32("-42").unwrap(), -42);
    assert_eq!(parse_i32("+42").unwrap(), 42);
    assert_eq!(parse_i32("2147483647").unwrap(), 2147483647);
    assert_eq!(parse_i32("-2147483648").unwrap(), -2147483648);
    assert_eq!(parse_i32("-0").unwrap(), 0);
    assert_eq!(parse_i32("0000000000000000001").unwrap(), 1);
}

#[test]
fn test_parse_i32_rejections() {
    assert!(matches!(parse_i32(""), Err(Error::ParseError)));
    assert!(matches!(parse_i32("+"), Err(Error::ParseError)));
    assert!(matches!(parse_i32("-"), Err(Error::ParseError)));
    assert!(matches!(parse_i32("12a"), Err(Error::ParseError)));
    assert!(matches!(parse_i32(" 1"), Err(Error::ParseError)));
    assert!(matches!(parse_i32("1.5"), Err(Error::ParseError)));
    assert!(matches!(parse_i32("2147483648"), Err(Error::ParseError)));
    assert!(matches!(parse_i32("-2147483649"), Err(Error::ParseError)));
    assert!(matches!(parse_i32("99999999999999999999"), Err(Error::ParseError)));
}
