use birthday_bot::date::{parse_date, BirthDate, InvalidDateError};

fn parsed(s: &str) -> Option<(u32, u32)> {
    parse_date(s).ok().map(|d| (d.day, d.month))
}

#[test]
fn parses_two_digit_fields() {
    assert_eq!(parsed("05.07"), Some((5, 7)));
    assert_eq!(parsed("31.12"), Some((31, 12)));
    assert_eq!(parsed("28.02"), Some((28, 2)));
    assert_eq!(parsed("01.01"), Some((1, 1)));
}

#[test]
fn parses_one_digit_fields() {
    assert_eq!(parsed("5.7"), Some((5, 7)));
    assert_eq!(parsed("5.07"), Some((5, 7)));
    assert_eq!(parsed("05.7"), Some((5, 7)));
}

#[test]
fn every_existing_day_parses_back() {
    let days = [31u32, 28, 31, 30, 31, 30, 31, 31, 30, 31, 30, 31];
    for month in 1..=12u32 {
        for day in 1..=days[(month - 1) as usize] {
            let text = format!("{:02}.{:02}", day, month);
            assert_eq!(parsed(&text), Some((day, month)), "{}", text);
        }
        let past = format!("{:02}.{:02}", days[(month - 1) as usize] + 1, month);
        assert_eq!(parsed(&past), None, "{}", past);
    }
}

#[test]
fn rejects_dates_that_do_not_exist() {
    assert_eq!(parse_date("29.02"), Err(InvalidDateError));
    assert_eq!(parse_date("30.02"), Err(InvalidDateError));
    assert_eq!(parse_date("31.04"), Err(InvalidDateError));
    assert_eq!(parse_date("00.05"), Err(InvalidDateError));
    assert_eq!(parse_date("01.13"), Err(InvalidDateError));
    assert_eq!(parse_date("01.00"), Err(InvalidDateError));
}

#[test]
fn rejects_malformed_text() {
    for s in ["", "ab.cd", "0507", "05-07", "05.07.2020", "5.", ".7", "005.07", "05.007", "5..7", " 5.7", "5.7 "] {
        assert_eq!(parse_date(s), Err(InvalidDateError), "{:?}", s);
    }
}

#[test]
fn shows_month_name_and_padded_day() {
    assert_eq!(BirthDate { day: 5, month: 7 }.to_text(), "July 05");
    assert_eq!(BirthDate { day: 20, month: 12 }.to_text(), "December 20");
    assert_eq!(BirthDate { day: 28, month: 2 }.to_text(), "February 28");
}
