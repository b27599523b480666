//! English ordinal suffixes for day-of-month numbers, and decimal rendering
//! of the numbers themselves.

use vstd::prelude::*;

use crate::error::SpanError;

verus! {

/// The ordinal suffix of `v`, for `v` in the supported range 0-31:
/// 0 takes "th", 1/2/3 take "st"/"nd"/"rd", 4-20 take "th", and 21-31 go by
/// their last decimal digit.
pub open spec fn ordinal_suffix(v: int) -> Seq<char>
    recommends
        0 <= v <= 31,
    decreases v,
{
    if v == 0 {
        "th"@
    } else if v == 1 {
        "st"@
    } else if v == 2 {
        "nd"@
    } else if v == 3 {
        "rd"@
    } else if 4 <= v <= 20 {
        "th"@
    } else if 21 <= v <= 31 {
        ordinal_suffix(v % 10)
    } else {
        Seq::empty()
    }
}

/// The decimal digit character for `d` in 0-9.
pub open spec fn digit_char(d: int) -> char {
    if d == 0 {
        '0'
    } else if d == 1 {
        '1'
    } else if d == 2 {
        '2'
    } else if d == 3 {
        '3'
    } else if d == 4 {
        '4'
    } else if d == 5 {
        '5'
    } else if d == 6 {
        '6'
    } else if d == 7 {
        '7'
    } else if d == 8 {
        '8'
    } else {
        '9'
    }
}

/// The decimal text of a non-negative integer, without a sign and without
/// leading zeros (a lone "0" for zero).
pub open spec fn dec_str(n: int) -> Seq<char>
    recommends
        n >= 0,
    decreases n,
{
    if n < 10 {
        seq![digit_char(n)]
    } else {
        dec_str(n / 10).push(digit_char(n % 10))
    }
}

/// The full ordinal text of `v`: its decimal digits followed by its suffix.
pub open spec fn ordinal_text(v: int) -> Seq<char>
    recommends
        0 <= v <= 31,
{
    dec_str(v) + ordinal_suffix(v)
}

/// The one-character string for a decimal digit.
fn digit_str(d: u64) -> (r: &'static str)
    requires
        d < 10,
    ensures
        r@ == seq![digit_char(d as int)],
{
    let r: &'static str = match d {
        0 => "0",
        1 => "1",
        2 => "2",
        3 => "3",
        4 => "4",
        5 => "5",
        6 => "6",
        7 => "7",
        8 => "8",
        _ => "9",
    };
    proof {
        reveal_strlit("0");
        reveal_strlit("1");
        reveal_strlit("2");
        reveal_strlit("3");
        reveal_strlit("4");
        reveal_strlit("5");
        reveal_strlit("6");
        reveal_strlit("7");
        reveal_strlit("8");
        reveal_strlit("9");
        assert(r@ =~= seq![digit_char(d as int)]);
    }
    r
}

/// The decimal text of `n`, as a fresh `String`.
pub fn decimal_string(n: u64) -> (r: String)
    ensures
        r@ == dec_str(n as int),
    decreases n,
{
    if n < 10 {
        let s = String::from_str(digit_str(n));
        proof {
            assert(s@ =~= dec_str(n as int));
        }
        s
    } else {
        let mut s = decimal_string(n / 10);
        s.append(digit_str(n % 10));
        proof {
            assert(s@ =~= dec_str(n as int));
        }
        s
    }
}

/// The ordinal suffix of `value`: `Some` exactly on the supported range 0-31,
/// `None` outside it.
pub fn ordinal(value: usize) -> (r: Option<String>)
    ensures
        r is Some <==> value <= 31,
        r matches Some(s) ==> s@ == ordinal_suffix(value as int),
    decreases value,
{
    if value == 0 {
        Some(String::from_str("th"))
    } else if value == 1 {
        Some(String::from_str("st"))
    } else if value == 2 {
        Some(String::from_str("nd"))
    } else if value == 3 {
        Some(String::from_str("rd"))
    } else if value <= 20 {
        Some(String::from_str("th"))
    } else if value <= 31 {
        ordinal(value % 10)
    } else {
        None
    }
}

/// The day number with its ordinal suffix appended ("1st", "22nd"): `Ok`
/// exactly on the supported range 0-31, `Err(OutOfRange)` outside it.
pub fn print_ordinal(value: usize) -> (r: Result<String, SpanError>)
    ensures
        value <= 31 ==> (r matches Ok(s) && s@ == ordinal_text(value as int)),
        value > 31 ==> r == Err::<String, SpanError>(SpanError::OutOfRange),
{
    match ordinal(value) {
        Some(suffix) => {
            let mut s = decimal_string(value as u64);
            s.append(suffix.as_str());
            Ok(s)
        },
        None => Err(SpanError::OutOfRange),
    }
}

/// For every day value from 1 to 31 the suffix follows the standard English
/// rule: "st", "nd" or "rd" by the last decimal digit, except the teens
/// 11, 12 and 13, which take "th".
pub proof fn lemma_ordinal_standard_rule(v: int)
    requires
        1 <= v <= 31,
    ensures
        ordinal_suffix(v) == (if 11 <= v <= 13 {
            "th"@
        } else if v % 10 == 1 {
            "st"@
        } else if v % 10 == 2 {
            "nd"@
        } else if v % 10 == 3 {
            "rd"@
        } else {
            "th"@
        }),
{
    if 21 <= v <= 31 {
        assert(ordinal_suffix(v) == ordinal_suffix(v % 10));
        assert(0 <= v % 10 <= 9);
        assert(ordinal_suffix(v % 10) == (if v % 10 == 1 {
            "st"@
        } else if v % 10 == 2 {
            "nd"@
        } else if v % 10 == 3 {
            "rd"@
        } else {
            "th"@
        }));
    }
}

} // verus!
