use pessoas::date::format_date;
use pessoas::date::parse_date;
use pessoas::date::Date;

#[test]
fn parses_a_plain_date() {
    let d = parse_date("1815-12-10").unwrap();
    assert_eq!(d, Date { year: 1815, month: 12, day: 10 });
}

#[test]
fn writes_the_wire_form() {
    let d = Date::new(1815, 12, 10).unwrap();
    assert_eq!(format_date(&d), "1815-12-10");
    let d = Date::new(7, 1, 2).unwrap();
    assert_eq!(format_date(&d), "0007-01-02");
}

#[test]
fn leap_years_are_honoured() {
    assert!(parse_date("2000-02-29").is_ok());
    assert!(parse_date("2024-02-29").is_ok());
    assert_eq!(parse_date("1900-02-29").unwrap_err(), "birthdate is not a valid date");
    assert_eq!(parse_date("2023-02-29").unwrap_err(), "birthdate is not a valid date");
}

#[test]
fn month_lengths_are_honoured() {
    assert!(parse_date("2021-01-31").is_ok());
    assert!(parse_date("2021-04-30").is_ok());
    assert_eq!(parse_date("2021-04-31").unwrap_err(), "birthdate is not a valid date");
    assert_eq!(parse_date("2021-13-01").unwrap_err(), "birthdate is not a valid date");
    assert_eq!(parse_date("2021-00-10").unwrap_err(), "birthdate is not a valid date");
    assert_eq!(parse_date("2021-12-00").unwrap_err(), "birthdate is not a valid date");
    assert_eq!(parse_date("2021-12-32").unwrap_err(), "birthdate is not a valid date");
}

#[test]
fn malformed_texts_are_rejected() {
    for bad in [
        "",
        "1815",
        "18151210",
        "1815/12/10",
        "1815-12-1",
        "1815-12-100",
        "abcd-ef-gh",
        "1815-12-1x",
        " 815-12-10",
        "1815-12- 1",
    ] {
        assert_eq!(parse_date(bad).unwrap_err(), "birthdate is not a valid date");
    }
}

#[test]
fn wire_form_round_trips() {
    for text in ["1815-12-10", "0001-01-01", "9999-12-31", "2000-02-29", "1970-06-15"] {
        let d = parse_date(text).unwrap();
        let written = format_date(&d);
        assert_eq!(written, text);
        assert_eq!(parse_date(&written).unwrap(), d);
    }
}

#[test]
fn date_parts_are_checked_on_construction() {
    assert!(Date::new(2021, 2, 28).is_some());
    assert!(Date::new(2021, 2, 29).is_none());
    assert!(Date::new(2021, 0, 1).is_none());
    assert!(Date::new(2021, 1, 0).is_none());
}
