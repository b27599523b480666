//! Renders a pair of calendar dates as a single human-readable phrase, such as
//! "July 1st - 4th" or "January 1st, 2017 - April 30th, 2018", and renders the
//! English ordinal suffix of a day-of-month number ("1st", "22nd").

pub mod error;
pub mod ordinal;
pub mod parse;
pub mod span;

pub use error::SpanError;
pub use ordinal::{ordinal, print_ordinal};
pub use parse::{parse_date, CalendarDate};
pub use span::{span, span_with_year};
