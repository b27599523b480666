//! Parsing of "YYYY-MM-DD" date literals into plain integer triples.

use vstd::prelude::*;

use crate::error::SpanError;

verus! {

/// A calendar date as three plain integer fields. The parser checks only the
/// structure of the literal; a month or day outside its calendar range is
/// caught later, when a lookup needs it.
#[derive(Clone, Copy, Debug, PartialEq, Eq, Structural)]
pub struct CalendarDate {
    pub year: u64,
    pub month: u64,
    pub day: u64,
}

/// Whether `c` is an ASCII decimal digit.
pub open spec fn is_digit(c: char) -> bool {
    c == '0' || c == '1' || c == '2' || c == '3' || c == '4' || c == '5' || c == '6' || c == '7'
        || c == '8' || c == '9'
}

/// The value of the decimal digit `c`, zero for any other character.
pub open spec fn digit_val(c: char) -> int {
    if c == '1' {
        1
    } else if c == '2' {
        2
    } else if c == '3' {
        3
    } else if c == '4' {
        4
    } else if c == '5' {
        5
    } else if c == '6' {
        6
    } else if c == '7' {
        7
    } else if c == '8' {
        8
    } else if c == '9' {
        9
    } else {
        0
    }
}

/// The number a digit sequence denotes, read left to right in base ten.
pub open spec fn digits_val(s: Seq<char>) -> int
    decreases s.len(),
{
    if s.len() == 0 {
        0
    } else {
        digits_val(s.drop_last()) * 10 + digit_val(s.last())
    }
}

pub open spec fn all_digits(s: Seq<char>) -> bool {
    forall|k: int| 0 <= k < s.len() ==> is_digit(#[trigger] s[k])
}

/// A usable date component: a non-empty run of ASCII digits whose value fits
/// a machine word, as the reference integer parser demands.
pub open spec fn valid_component(s: Seq<char>) -> bool {
    s.len() > 0 && all_digits(s) && digits_val(s) <= u64::MAX
}

/// `i` and `j` are the positions of the two hyphens of a well-formed
/// "YYYY-MM-DD" literal: they split `s` into exactly three valid components.
pub open spec fn literal_shape(s: Seq<char>, i: int, j: int) -> bool {
    &&& 0 < i
    &&& i + 1 < j
    &&& j + 1 < s.len()
    &&& s[i] == '-'
    &&& s[j] == '-'
    &&& valid_component(s.subrange(0, i))
    &&& valid_component(s.subrange(i + 1, j))
    &&& valid_component(s.subrange(j + 1, s.len() as int))
}

/// Whether `s` is a well-formed "YYYY-MM-DD" literal.
pub open spec fn valid_literal(s: Seq<char>) -> bool {
    exists|i: int, j: int| literal_shape(s, i, j)
}

/// `d` holds the three component values of the literal `s`.
pub open spec fn date_of_literal(s: Seq<char>, d: CalendarDate) -> bool {
    exists|i: int, j: int|
        {
            &&& literal_shape(s, i, j)
            &&& d.year == digits_val(s.subrange(0, i))
            &&& d.month == digits_val(s.subrange(i + 1, j))
            &&& d.day == digits_val(s.subrange(j + 1, s.len() as int))
        }
}

/// The date a well-formed literal denotes.
pub open spec fn literal_date(s: Seq<char>) -> CalendarDate {
    choose|d: CalendarDate| date_of_literal(s, d)
}

/// Away from its two hyphens, a well-formed literal holds only digits.
proof fn lemma_shape_digit_at(s: Seq<char>, i: int, j: int, k: int)
    requires
        literal_shape(s, i, j),
        0 <= k < s.len(),
        k != i,
        k != j,
    ensures
        is_digit(s[k]),
{
    if k < i {
        assert(s.subrange(0, i)[k] == s[k]);
    } else if k < j {
        assert(s.subrange(i + 1, j)[k - (i + 1)] == s[k]);
    } else {
        assert(s.subrange(j + 1, s.len() as int)[k - (j + 1)] == s[k]);
    }
}

/// A literal has only one pair of hyphen positions that shape it.
proof fn lemma_shape_unique(s: Seq<char>, i1: int, j1: int, i2: int, j2: int)
    requires
        literal_shape(s, i1, j1),
        literal_shape(s, i2, j2),
    ensures
        i1 == i2,
        j1 == j2,
{
    if i1 < i2 {
        lemma_shape_digit_at(s, i2, j2, i1);
    } else if i2 < i1 {
        lemma_shape_digit_at(s, i1, j1, i2);
    }
    if j1 < j2 {
        lemma_shape_digit_at(s, i2, j2, j1);
    } else if j2 < j1 {
        lemma_shape_digit_at(s, i1, j1, j2);
    }
}

/// A literal denotes at most one date: whatever triple satisfies
/// `date_of_literal` is the one `literal_date` picks.
pub proof fn lemma_literal_date(s: Seq<char>, d: CalendarDate)
    requires
        date_of_literal(s, d),
    ensures
        literal_date(s) == d,
{
    let d2 = literal_date(s);
    assert(date_of_literal(s, d2));
    let (i1, j1): (int, int) = choose|i: int, j: int|
        {
            &&& literal_shape(s, i, j)
            &&& d.year == digits_val(s.subrange(0, i))
            &&& d.month == digits_val(s.subrange(i + 1, j))
            &&& d.day == digits_val(s.subrange(j + 1, s.len() as int))
        };
    let (i2, j2): (int, int) = choose|i: int, j: int|
        {
            &&& literal_shape(s, i, j)
            &&& d2.year == digits_val(s.subrange(0, i))
            &&& d2.month == digits_val(s.subrange(i + 1, j))
            &&& d2.day == digits_val(s.subrange(j + 1, s.len() as int))
        };
    lemma_shape_unique(s, i1, j1, i2, j2);
}

proof fn lemma_digits_val_nonneg(s: Seq<char>)
    ensures
        digits_val(s) >= 0,
    decreases s.len(),
{
    if s.len() > 0 {
        lemma_digits_val_nonneg(s.drop_last());
    }
}

/// Extending a digit run to the right can only grow its value.
proof fn lemma_digits_val_prefix(s: Seq<char>, m: int)
    requires
        0 <= m <= s.len(),
    ensures
        digits_val(s.subrange(0, m)) <= digits_val(s),
    decreases s.len() - m,
{
    if m == s.len() {
        assert(s.subrange(0, m) =~= s);
    } else {
        lemma_digits_val_prefix(s, m + 1);
        assert(s.subrange(0, m + 1).drop_last() =~= s.subrange(0, m));
        assert(s.subrange(0, m + 1).last() == s[m]);
        lemma_digits_val_nonneg(s.subrange(0, m));
    }
}

/// The value of the decimal digit `c`, or `None` for any other character.
fn digit_of_char(c: char) -> (r: Option<u64>)
    ensures
        r is Some <==> is_digit(c),
        r matches Some(d) ==> d < 10 && d == digit_val(c),
{
    match c {
        '0' => Some(0),
        '1' => Some(1),
        '2' => Some(2),
        '3' => Some(3),
        '4' => Some(4),
        '5' => Some(5),
        '6' => Some(6),
        '7' => Some(7),
        '8' => Some(8),
        '9' => Some(9),
        _ => None,
    }
}

/// The position of the first hyphen at or after `start`, if any.
fn find_hyphen(s: &str, start: usize) -> (r: Option<usize>)
    requires
        start <= s@.len(),
    ensures
        r matches Some(p) ==> start <= p < s@.len() && s@[p as int] == '-' && (forall|k: int|
            start <= k < p ==> s@[k] != '-'),
        r is None ==> forall|k: int| start <= k < s@.len() ==> s@[k] != '-',
{
    let n = s.unicode_len();
    let mut i: usize = start;
    while i < n
        invariant
            start <= i <= n,
            n == s@.len(),
            forall|k: int| start <= k < i ==> s@[k] != '-',
        decreases n - i,
    {
        if s.get_char(i) == '-' {
            return Some(i);
        }
        i = i + 1;
    }
    None
}

/// The value of the digit run `s[from..to]`, or `None` where that range is
/// empty, holds a non-digit, or exceeds a machine word.
fn parse_component(s: &str, from: usize, to: usize) -> (r: Option<u64>)
    requires
        from <= to <= s@.len(),
    ensures
        r is Some <==> valid_component(s@.subrange(from as int, to as int)),
        r matches Some(v) ==> v == digits_val(s@.subrange(from as int, to as int)),
{
    let ghost part = s@.subrange(from as int, to as int);
    if from == to {
        return None;
    }
    let mut val: u64 = 0;
    let mut k: usize = from;
    while k < to
        invariant
            from <= k <= to <= s@.len(),
            part == s@.subrange(from as int, to as int),
            all_digits(s@.subrange(from as int, k as int)),
            val == digits_val(s@.subrange(from as int, k as int)),
        decreases to - k,
    {
        let c = s.get_char(k);
        let d = match digit_of_char(c) {
            Some(d) => d,
            None => {
                proof {
                    assert(part[k - from] == s@[k as int]);
                }
                return None;
            },
        };
        if val > (u64::MAX - d) / 10 {
            proof {
                assert(s@.subrange(from as int, k as int + 1).drop_last() =~= s@.subrange(
                    from as int,
                    k as int,
                ));
                assert(s@.subrange(from as int, k as int + 1).last() == s@[k as int]);
                assert(digits_val(s@.subrange(from as int, k as int + 1)) > u64::MAX);
                assert(s@.subrange(from as int, k as int + 1) =~= part.subrange(
                    0,
                    k as int + 1 - from,
                ));
                lemma_digits_val_prefix(part, k as int + 1 - from);
            }
            return None;
        }
        proof {
            assert(s@.subrange(from as int, k as int + 1).drop_last() =~= s@.subrange(
                from as int,
                k as int,
            ));
            assert(s@.subrange(from as int, k as int + 1).last() == s@[k as int]);
            assert forall|q: int| 0 <= q < k as int + 1 - from implies is_digit(
                #[trigger] s@.subrange(from as int, k as int + 1)[q],
            ) by {
                if q < k as int - from {
                    assert(s@.subrange(from as int, k as int + 1)[q] == s@.subrange(
                        from as int,
                        k as int,
                    )[q]);
                }
            }
        }
        val = val * 10 + d;
        k = k + 1;
    }
    proof {
        assert(part =~= s@.subrange(from as int, k as int));
    }
    Some(val)
}

/// Splits a "YYYY-MM-DD" literal into its three integer components: `Ok`
/// exactly on well-formed literals, `Err(InvalidFormat)` on all others.
pub fn parse_date(s: &str) -> (r: Result<CalendarDate, SpanError>)
    ensures
        r is Ok <==> valid_literal(s@),
        r matches Ok(d) ==> d == literal_date(s@) && date_of_literal(s@, d),
        r is Err ==> r == Err::<CalendarDate, SpanError>(SpanError::InvalidFormat),
{
    let n = s.unicode_len();
    let h1 = match find_hyphen(s, 0) {
        Some(p) => p,
        None => {
            proof {
                if valid_literal(s@) {
                    let (i, j): (int, int) = choose|i: int, j: int| literal_shape(s@, i, j);
                    assert(s@[i] == '-');
                }
            }
            return Err(SpanError::InvalidFormat);
        },
    };
    let h2 = match find_hyphen(s, h1 + 1) {
        Some(p) => p,
        None => {
            proof {
                if valid_literal(s@) {
                    let (i, j): (int, int) = choose|i: int, j: int| literal_shape(s@, i, j);
                    assert(s@[i] == '-' && s@[j] == '-');
                }
            }
            return Err(SpanError::InvalidFormat);
        },
    };
    if let Some(p) = find_hyphen(s, h2 + 1) {
        proof {
            if valid_literal(s@) {
                let (i, j): (int, int) = choose|i: int, j: int| literal_shape(s@, i, j);
                if h1 as int != i && h1 as int != j {
                    lemma_shape_digit_at(s@, i, j, h1 as int);
                } else if h2 as int != i && h2 as int != j {
                    lemma_shape_digit_at(s@, i, j, h2 as int);
                } else {
                    lemma_shape_digit_at(s@, i, j, p as int);
                }
            }
        }
        return Err(SpanError::InvalidFormat);
    }
    proof {
        if valid_literal(s@) {
            let (i, j): (int, int) = choose|i: int, j: int| literal_shape(s@, i, j);
            assert(s@[i] == '-' && s@[j] == '-');
            assert(i == h1 as int && j == h2 as int);
            assert(literal_shape(s@, h1 as int, h2 as int));
        }
    }
    if h1 == 0 || h2 == h1 + 1 || h2 + 1 >= n {
        return Err(SpanError::InvalidFormat);
    }
    let year = match parse_component(s, 0, h1) {
        Some(v) => v,
        None => {
            return Err(SpanError::InvalidFormat);
        },
    };
    let month = match parse_component(s, h1 + 1, h2) {
        Some(v) => v,
        None => {
            return Err(SpanError::InvalidFormat);
        },
    };
    let day = match parse_component(s, h2 + 1, n) {
        Some(v) => v,
        None => {
            return Err(SpanError::InvalidFormat);
        },
    };
    let d = CalendarDate { year, month, day };
    proof {
        assert(literal_shape(s@, h1 as int, h2 as int));
        assert(date_of_literal(s@, d));
        lemma_literal_date(s@, d);
    }
    Ok(d)
}

} // verus!
