use mioplays::tag::{parse_date, parse_number, Timestamp};

#[test]
fn number_is_read_from_decimal_digits() {
    assert_eq!(parse_number("0"), Some(0));
    assert_eq!(parse_number("7"), Some(7));
    assert_eq!(parse_number("012"), Some(12));
    assert_eq!(parse_number("4294967295"), Some(4294967295));
}

#[test]
fn number_is_refused_where_it_is_none() {
    assert_eq!(parse_number(""), None);
    assert_eq!(parse_number("4294967296"), None);
    assert_eq!(parse_number("99999999999999999999999"), None);
    assert_eq!(parse_number("3/12"), None);
    assert_eq!(parse_number("-1"), None);
    assert_eq!(parse_number(" 1"), None);
    assert_eq!(parse_number("１"), None);
}

#[test]
fn date_is_read_in_its_three_forms() {
    assert_eq!(parse_date("1999"), Some(Timestamp { year: 1999, month: None, day: None }));
    assert_eq!(parse_date("2004-02"), Some(Timestamp { year: 2004, month: Some(2), day: None }));
    assert_eq!(
        parse_date("0000-12-31"),
        Some(Timestamp { year: 0, month: Some(12), day: Some(31) })
    );
}

#[test]
fn date_is_refused_where_it_is_none() {
    assert_eq!(parse_date(""), None);
    assert_eq!(parse_date("99"), None);
    assert_eq!(parse_date("1999-"), None);
    assert_eq!(parse_date("1999-13"), None);
    assert_eq!(parse_date("1999-00"), None);
    assert_eq!(parse_date("1999-01-32"), None);
    assert_eq!(parse_date("1999-01-00"), None);
    assert_eq!(parse_date("1999/01/01"), None);
    assert_eq!(parse_date("19990101"), None);
    assert_eq!(parse_date("1999-01-01T10"), None);
}
