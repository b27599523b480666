use datespan::{ordinal, parse_date, print_ordinal, span, span_with_year, CalendarDate, SpanError};

#[test]
fn uses_correct_ordinal() {
    let mut value: usize = 1;
    assert_eq!("1st", print_ordinal(value).unwrap());
    value = 2;
    assert_eq!("2nd", print_ordinal(value).unwrap());
    value = 3;
    assert_eq!("3rd", print_ordinal(value).unwrap());
    value = 4;
    assert_eq!("4th", print_ordinal(value).unwrap());
    value = 11;
    assert_eq!("11th", print_ordinal(value).unwrap());
    value = 21;
    assert_eq!("21st", print_ordinal(value).unwrap());
    value = 23;
    assert_eq!("23rd", print_ordinal(value).unwrap());
    value = 24;
    assert_eq!("24th", print_ordinal(value).unwrap());
    value = 30;
    assert_eq!("30th", print_ordinal(value).unwrap());
    value = 31;
    assert_eq!("31st", print_ordinal(value).unwrap());
}

#[test]
#[should_panic]
fn ordinal_out_of_bounds() {
    let value: usize = 32;
    assert_eq!("32nd", print_ordinal(value).unwrap());
}

#[test]
fn within_same_month_current_year() {
    let yr: u64 = 2015;
    let start_dt = format!("{}-07-01", yr);
    let end_dt = format!("{}-07-04", yr);
    assert_eq!("July 1st - 4th", span_with_year(&start_dt, &end_dt, 2015).unwrap());
}

#[test]
fn within_twelve_months_starting_current_year() {
    let yr: u64 = 2015;
    let start_dt = format!("{}-12-01", yr);
    let end_dt = "2016-02-03";
    assert_eq!(
        "December 1st - February 3rd",
        span_with_year(&start_dt, end_dt, 2015).unwrap()
    );
}

#[test]
fn exactly_twelve_months_starting_current_year() {
    let yr: u64 = 2015;
    let start_dt = format!("{}-12-01", yr);
    let end_dt = format!("{}-12-01", yr + 1);
    assert_eq!(
        "December 1st, 2015 - December 1st, 2016",
        span_with_year(&start_dt, &end_dt, 2015).unwrap()
    );
}

#[test]
fn over_twelve_months_starting_current_year() {
    let yr: u64 = 2015;
    let start_dt = format!("{}-12-01", yr);
    let end_dt = "2017-02-03";
    assert_eq!(
        "December 1st, 2015 - February 3rd, 2017",
        span_with_year(&start_dt, end_dt, 2015).unwrap()
    );
}

#[test]
fn same_day_cur_year() {
    let yr: u64 = 2015;
    let start_dt = format!("{}-12-01", yr);
    let end_dt = format!("{}-12-01", yr);
    assert_eq!("December 1st", span_with_year(&start_dt, &end_dt, 2015).unwrap());
}

#[test]
fn same_day_future() {
    let start_dt = "2017-01-01";
    let end_dt = "2017-01-01";
    assert_eq!("January 1st, 2017", span(start_dt, end_dt).unwrap());
}

#[test]
fn within_month_future() {
    let start_dt = "2017-01-01";
    let end_dt = "2017-01-31";
    assert_eq!("January 1st - 31st, 2017", span(start_dt, end_dt).unwrap());
}

#[test]
fn within_year_future() {
    let start_dt = "2017-01-01";
    let end_dt = "2017-04-30";
    assert_eq!("January 1st - April 30th, 2017", span(start_dt, end_dt).unwrap());
}

#[test]
fn over_year_future() {
    let start_dt = "2017-01-01";
    let end_dt = "2018-04-30";
    assert_eq!("January 1st, 2017 - April 30th, 2018", span(start_dt, end_dt).unwrap());
}

#[test]
fn ordinal_rule_all_days() {
    let mut v: usize = 1;
    while v <= 31 {
        let suffix = if v >= 11 && v <= 13 {
            "th"
        } else if v % 10 == 1 {
            "st"
        } else if v % 10 == 2 {
            "nd"
        } else if v % 10 == 3 {
            "rd"
        } else {
            "th"
        };
        assert_eq!(format!("{}{}", v, suffix), print_ordinal(v).unwrap());
        v += 1;
    }
}

#[test]
fn ordinal_rejects_out_of_range() {
    assert!(ordinal(31).is_some());
    assert!(ordinal(32).is_none());
    assert_eq!(Err(SpanError::OutOfRange), print_ordinal(32));
    assert_eq!(Err(SpanError::OutOfRange), print_ordinal(100));
    assert_eq!("0th", print_ordinal(0).unwrap());
}

#[test]
fn malformed_literals_rejected_independently() {
    assert_eq!(
        Err(SpanError::InvalidFormat),
        span_with_year("2017-01", "2017-02-03", 2015)
    );
    assert_eq!(
        Err(SpanError::InvalidFormat),
        span_with_year("2017-02-03", "2017-01", 2015)
    );
    assert_eq!(
        Err(SpanError::InvalidFormat),
        span_with_year("2017-ab-01", "2017-02-03", 2015)
    );
    assert_eq!(
        Err(SpanError::InvalidFormat),
        span_with_year("2017-02-03", "2017-xx-01", 2015)
    );
    assert_eq!(Err(SpanError::InvalidFormat), span_with_year("", "2017-02-03", 2015));
    assert_eq!(
        Err(SpanError::InvalidFormat),
        span_with_year("2015--01", "2017-02-03", 2015)
    );
    assert_eq!(
        Err(SpanError::InvalidFormat),
        span_with_year("2015-07-01-02", "2017-02-03", 2015)
    );
    assert_eq!(
        Err(SpanError::InvalidFormat),
        span_with_year("2015-+7-01", "2017-02-03", 2015)
    );
    assert_eq!(Err(SpanError::InvalidFormat), span("2017-01", "2017-02-03"));
}

#[test]
fn out_of_range_month_or_day_rejected() {
    assert_eq!(
        Err(SpanError::OutOfRange),
        span_with_year("2015-13-01", "2015-12-02", 2015)
    );
    assert_eq!(
        Err(SpanError::OutOfRange),
        span_with_year("2015-00-01", "2015-12-02", 2015)
    );
    assert_eq!(
        Err(SpanError::OutOfRange),
        span_with_year("2015-12-32", "2015-12-02", 2015)
    );
    assert_eq!(
        Err(SpanError::OutOfRange),
        span_with_year("2015-12-01", "2015-12-32", 2015)
    );
}

#[test]
fn parse_date_yields_components() {
    assert_eq!(
        Ok(CalendarDate { year: 2015, month: 7, day: 1 }),
        parse_date("2015-07-01")
    );
    assert_eq!(
        Ok(CalendarDate { year: 0, month: 1, day: 31 }),
        parse_date("0000-1-31")
    );
    assert_eq!(Err(SpanError::InvalidFormat), parse_date("2015-07-"));
    assert_eq!(Err(SpanError::InvalidFormat), parse_date("2015-07"));
}

#[test]
fn word_sized_years_render() {
    assert_eq!(
        "January 1st, 18446744073709551615",
        span_with_year(
            "18446744073709551615-01-01",
            "18446744073709551615-01-01",
            2015
        )
        .unwrap()
    );
    assert_eq!(
        Err(SpanError::InvalidFormat),
        span_with_year(
            "18446744073709551616-01-01",
            "18446744073709551616-01-01",
            2015
        )
    );
}

#[test]
fn adjacent_year_asymmetry() {
    // Seen from the start year itself, a span reaching into the next year can
    // hide the year labels; seen from any other year it always shows both.
    assert_eq!(
        "December 1st - February 3rd",
        span_with_year("2015-12-01", "2016-02-03", 2015).unwrap()
    );
    assert_eq!(
        "December 1st, 2015 - February 3rd, 2016",
        span_with_year("2015-12-01", "2016-02-03", 2014).unwrap()
    );
}

#[test]
fn one_year_later_boundary() {
    assert_eq!(
        "December 1st - November 30th",
        span_with_year("2015-12-01", "2016-11-30", 2015).unwrap()
    );
    assert_eq!(
        "December 2nd - December 1st",
        span_with_year("2015-12-02", "2016-12-01", 2015).unwrap()
    );
    assert_eq!(
        "December 1st, 2015 - December 25th, 2016",
        span_with_year("2015-12-01", "2016-12-25", 2015).unwrap()
    );
}

#[test]
fn error_messages() {
    let e = span_with_year("2017-01", "2017-02-03", 2015).unwrap_err();
    assert_eq!(
        "Input values incorrectly formatted. Requires \"YYYY-MM-DD\" format.",
        e.message()
    );
    let e2 = span_with_year("2015-13-01", "2015-12-02", 2015).unwrap_err();
    assert_eq!("Invalid input number", e2.message());
}

#[test]
fn day_zero_renders_with_th() {
    assert_eq!("July 0th", span_with_year("2015-07-00", "2015-07-00", 2015).unwrap());
}
