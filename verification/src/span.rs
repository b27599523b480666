//! The date-span formatter: classifies a pair of dates and composes the
//! matching phrase.

use vstd::prelude::*;

use crate::error::SpanError;
use crate::ordinal::{dec_str, decimal_string, ordinal_text, print_ordinal};
use crate::parse::{literal_date, parse_date, valid_literal, CalendarDate};

verus! {

/// The English name of month `m`, January through December; empty outside
/// the table.
pub open spec fn month_name(m: int) -> Seq<char>
    recommends
        1 <= m <= 12,
{
    if m == 1 {
        "January"@
    } else if m == 2 {
        "February"@
    } else if m == 3 {
        "March"@
    } else if m == 4 {
        "April"@
    } else if m == 5 {
        "May"@
    } else if m == 6 {
        "June"@
    } else if m == 7 {
        "July"@
    } else if m == 8 {
        "August"@
    } else if m == 9 {
        "September"@
    } else if m == 10 {
        "October"@
    } else if m == 11 {
        "November"@
    } else if m == 12 {
        "December"@
    } else {
        Seq::empty()
    }
}

/// Whether the month and day of `d` are inside the domains of the month-name
/// table and the ordinal formatter.
pub open spec fn date_in_range(d: CalendarDate) -> bool {
    1 <= d.month <= 12 && d.day <= 31
}

/// The phrase for the span from `s` to `e`, as seen from the current year
/// `cy`.
///
/// When the span starts in the current year, year labels appear only once the
/// span leaves the year; a span ending exactly one calendar year later still
/// omits them while the end month (or, for equal months, the end day) lies
/// numerically before the start. When the span starts in any other year, the
/// start year is always shown, and the end year exactly when it differs.
pub open spec fn span_text(s: CalendarDate, e: CalendarDate, cy: int) -> Seq<char>
    recommends
        date_in_range(s),
        date_in_range(e),
{
    let head = month_name(s.month as int) + " "@ + ordinal_text(s.day as int);
    let end_md = month_name(e.month as int) + " "@ + ordinal_text(e.day as int);
    let full = head + ", "@ + dec_str(s.year as int) + " - "@ + end_md + ", "@ + dec_str(
        e.year as int,
    );
    if s.year == cy {
        if e.year == s.year && e.month == s.month && e.day == s.day {
            head
        } else if e.year == s.year && e.month == s.month {
            head + " - "@ + ordinal_text(e.day as int)
        } else if e.year == s.year {
            head + " - "@ + end_md
        } else if e.year == s.year + 1 && (e.month < s.month || (e.month == s.month && e.day
            < s.day)) {
            head + " - "@ + end_md
        } else {
            full
        }
    } else {
        if e.year == s.year && e.month == s.month && e.day == s.day {
            head + ", "@ + dec_str(s.year as int)
        } else if e.year == s.year && e.month == s.month {
            head + " - "@ + ordinal_text(e.day as int) + ", "@ + dec_str(s.year as int)
        } else if e.year == s.year {
            head + " - "@ + end_md + ", "@ + dec_str(s.year as int)
        } else {
            full
        }
    }
}

/// The month name as a fresh `String`; empty outside the table.
fn month_str(m: u64) -> (r: String)
    ensures
        r@ == month_name(m as int),
{
    match m {
        1 => String::from_str("January"),
        2 => String::from_str("February"),
        3 => String::from_str("March"),
        4 => String::from_str("April"),
        5 => String::from_str("May"),
        6 => String::from_str("June"),
        7 => String::from_str("July"),
        8 => String::from_str("August"),
        9 => String::from_str("September"),
        10 => String::from_str("October"),
        11 => String::from_str("November"),
        12 => String::from_str("December"),
        _ => String::new(),
    }
}

/// The ordinal text of a day that the formatter has already range-checked.
fn ordinal_day(day: u64) -> (r: String)
    requires
        day <= 31,
    ensures
        r@ == ordinal_text(day as int),
{
    match print_ordinal(day as usize) {
        Ok(t) => t,
        Err(_) => String::new(),
    }
}

/// Formats the span between two "YYYY-MM-DD" literals, with the current year
/// supplied by the caller so that the result is a pure function of its
/// arguments.
///
/// Fails with `InvalidFormat` when either literal is malformed, and with
/// `OutOfRange` when both parse but a month leaves 1-12 or a day leaves 0-31;
/// succeeds on every other input, with exactly the phrase `span_text` gives.
pub fn span_with_year(start_dt: &str, end_dt: &str, current_year: i64) -> (r: Result<
    String,
    SpanError,
>)
    ensures
        r is Ok <==> (valid_literal(start_dt@) && valid_literal(end_dt@) && date_in_range(
            literal_date(start_dt@),
        ) && date_in_range(literal_date(end_dt@))),
        r matches Ok(t) ==> t@ == span_text(
            literal_date(start_dt@),
            literal_date(end_dt@),
            current_year as int,
        ),
        (!valid_literal(start_dt@) || !valid_literal(end_dt@)) ==> r == Err::<String, SpanError>(
            SpanError::InvalidFormat,
        ),
        (valid_literal(start_dt@) && valid_literal(end_dt@) && !(date_in_range(
            literal_date(start_dt@),
        ) && date_in_range(literal_date(end_dt@)))) ==> r == Err::<String, SpanError>(
            SpanError::OutOfRange,
        ),
{
    let sd = match parse_date(start_dt) {
        Ok(d) => d,
        Err(e) => {
            return Err(e);
        },
    };
    let ed = match parse_date(end_dt) {
        Ok(d) => d,
        Err(e) => {
            return Err(e);
        },
    };
    if !(1 <= sd.month && sd.month <= 12 && sd.day <= 31 && 1 <= ed.month && ed.month <= 12
        && ed.day <= 31) {
        return Err(SpanError::OutOfRange);
    }
    let start_is_cur = current_year >= 0 && sd.year == current_year as u64;
    let same_year = ed.year == sd.year;
    let same_month = same_year && ed.month == sd.month;
    let same_day = same_month && ed.day == sd.day;
    let next_year = ed.year > sd.year && ed.year - sd.year == 1;
    let end_md_earlier = ed.month < sd.month || (ed.month == sd.month && ed.day < sd.day);
    let mut out = month_str(sd.month);
    out.append(" ");
    let so = ordinal_day(sd.day);
    out.append(so.as_str());
    if start_is_cur {
        if same_day {
            // the head alone
        } else if same_month {
            out.append(" - ");
            let eo = ordinal_day(ed.day);
            out.append(eo.as_str());
        } else if same_year || (next_year && end_md_earlier) {
            out.append(" - ");
            let em = month_str(ed.month);
            out.append(em.as_str());
            out.append(" ");
            let eo = ordinal_day(ed.day);
            out.append(eo.as_str());
        } else {
            out.append(", ");
            let sy = decimal_string(sd.year);
            out.append(sy.as_str());
            out.append(" - ");
            let em = month_str(ed.month);
            out.append(em.as_str());
            out.append(" ");
            let eo = ordinal_day(ed.day);
            out.append(eo.as_str());
            out.append(", ");
            let ey = decimal_string(ed.year);
            out.append(ey.as_str());
        }
    } else {
        if same_day {
            out.append(", ");
            let sy = decimal_string(sd.year);
            out.append(sy.as_str());
        } else if same_month {
            out.append(" - ");
            let eo = ordinal_day(ed.day);
            out.append(eo.as_str());
            out.append(", ");
            let sy = decimal_string(sd.year);
            out.append(sy.as_str());
        } else if same_year {
            out.append(" - ");
            let em = month_str(ed.month);
            out.append(em.as_str());
            out.append(" ");
            let eo = ordinal_day(ed.day);
            out.append(eo.as_str());
            out.append(", ");
            let sy = decimal_string(sd.year);
            out.append(sy.as_str());
        } else {
            out.append(", ");
            let sy = decimal_string(sd.year);
            out.append(sy.as_str());
            out.append(" - ");
            let em = month_str(ed.month);
            out.append(em.as_str());
            out.append(" ");
            let eo = ordinal_day(ed.day);
            out.append(eo.as_str());
            out.append(", ");
            let ey = decimal_string(ed.year);
            out.append(ey.as_str());
        }
    }
    proof {
        assert(out@ =~= span_text(sd, ed, current_year as int));
    }
    Ok(out)
}

/// Relies on `time::OffsetDateTime::now_utc` and its `year` method for the
/// calendar year at the moment of the call; nothing is promised of the value.
#[verifier::external_body]
fn clock_year() -> i64 {
    time::OffsetDateTime::now_utc().year() as i64
}

/// Formats the span between two "YYYY-MM-DD" literals, taking the current
/// year from the system clock.
///
/// Success and both failure kinds depend only on the two literals; the phrase
/// itself is `span_text` seen from whatever year the clock gave.
pub fn span(start_dt: &str, end_dt: &str) -> (r: Result<String, SpanError>)
    ensures
        r is Ok <==> (valid_literal(start_dt@) && valid_literal(end_dt@) && date_in_range(
            literal_date(start_dt@),
        ) && date_in_range(literal_date(end_dt@))),
        (!valid_literal(start_dt@) || !valid_literal(end_dt@)) ==> r == Err::<String, SpanError>(
            SpanError::InvalidFormat,
        ),
        (valid_literal(start_dt@) && valid_literal(end_dt@) && !(date_in_range(
            literal_date(start_dt@),
        ) && date_in_range(literal_date(end_dt@)))) ==> r == Err::<String, SpanError>(
            SpanError::OutOfRange,
        ),
        r matches Ok(t) ==> exists|cy: int|
            t@ == span_text(literal_date(start_dt@), literal_date(end_dt@), cy),
{
    let cy = clock_year();
    let r = span_with_year(start_dt, end_dt, cy);
    proof {
        if r is Ok {
            assert(r->Ok_0@ == span_text(literal_date(start_dt@), literal_date(end_dt@), cy as int));
        }
    }
    r
}

} // verus!
