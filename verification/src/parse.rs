//! Parsers for the small textual input formats: durations such as `8h30`,
//! and weekday names.

use vstd::prelude::*;
use crate::date::Weekday;

verus! {

/// Failure of the duration parser.
#[derive(Debug, Clone, Copy, PartialEq, Eq, Structural)]
pub enum DurationError {
    /// A unit suffix appeared with no number before it.
    NumberExpectedBeforeUnit,
    /// A character that is neither a digit nor a unit.
    UnexpectedCharacter(char),
    /// A trailing number after the minutes unit was already consumed,
    /// carrying that number.
    UnknownUnit(i64),
    /// The input held no number at all.
    NumberExpected,
}

/// Failure of the weekday parser: the input names no weekday.
#[derive(Debug, Clone, Copy, PartialEq, Eq, Structural)]
pub enum WeekdayError {
    InvalidWeekday,
}

/// The value of a decimal digit character, `None` for any other character.
pub open spec fn spec_digit(c: char) -> Option<int> {
    if c == '0' {
        Some(0)
    } else if c == '1' {
        Some(1)
    } else if c == '2' {
        Some(2)
    } else if c == '3' {
        Some(3)
    } else if c == '4' {
        Some(4)
    } else if c == '5' {
        Some(5)
    } else if c == '6' {
        Some(6)
    } else if c == '7' {
        Some(7)
    } else if c == '8' {
        Some(8)
    } else if c == '9' {
        Some(9)
    } else {
        None
    }
}

fn digit_val(c: char) -> (r: Option<u8>)
    ensures
        spec_digit(c) matches Some(d) ==> r == Some(d as u8),
        spec_digit(c) is None ==> r is None,
{
    match c {
        '0' => Some(0),
        '1' => Some(1),
        '2' => Some(2),
        '3' => Some(3),
        '4' => Some(4),
        '5' => Some(5),
        '6' => Some(6),
        '7' => Some(7),
        '8' => Some(8),
        '9' => Some(9),
        _ => None,
    }
}

/// One step of the duration parser. The state is `(unit, result, number)`:
/// the value of a trailing bare number in minutes, the minutes gathered from
/// finished `h`/`m` groups, and the number being read.
pub open spec fn duration_step(st: (int, Option<int>, Option<int>), c: char) -> Result<
    (int, Option<int>, Option<int>),
    DurationError,
> {
    match spec_digit(c) {
        Some(d) => Ok(
            (
                st.0,
                st.1,
                Some(
                    (match st.2 {
                        Some(x) => x,
                        None => 0,
                    }) * 10 + d,
                ),
            ),
        ),
        None => {
            if c == 'h' {
                match st.2 {
                    Some(acc) => Ok(
                        (
                            1,
                            Some(
                                (match st.1 {
                                    Some(x) => x,
                                    None => 0,
                                }) + acc * 60,
                            ),
                            None,
                        ),
                    ),
                    None => Err(DurationError::NumberExpectedBeforeUnit),
                }
            } else if c == 'm' {
                match st.2 {
                    Some(acc) => Ok(
                        (
                            0,
                            Some(
                                acc + (match st.1 {
                                    Some(x) => x,
                                    None => 0,
                                }),
                            ),
                            None,
                        ),
                    ),
                    None => Err(DurationError::NumberExpectedBeforeUnit),
                }
            } else {
                Err(DurationError::UnexpectedCharacter(c))
            }
        },
    }
}

/// The duration parser's state after consuming `s`, or its first failure.
pub open spec fn duration_fold(s: Seq<char>, st: (int, Option<int>, Option<int>)) -> Result<
    (int, Option<int>, Option<int>),
    DurationError,
>
    decreases s.len(),
{
    if s.len() == 0 {
        Ok(st)
    } else {
        match duration_step(st, s[0]) {
            Ok(st2) => duration_fold(s.drop_first(), st2),
            Err(e) => Err(e),
        }
    }
}

/// What a duration string denotes, in minutes. A bare number counts hours
/// until an `h` group was read, minutes after an `m` group; a number after
/// the minutes unit has no unit left to take.
pub open spec fn spec_parse_duration(s: Seq<char>) -> Result<int, DurationError> {
    match duration_fold(s, (60, None, None)) {
        Err(e) => Err(e),
        Ok(st) => {
            if st.0 == 0 && st.2 is Some {
                Err(DurationError::UnknownUnit(st.2->0 as i64))
            } else {
                match (st.1, st.2) {
                    (Some(r), Some(n)) => Ok(r + n * st.0),
                    (Some(r), None) => Ok(r),
                    (None, Some(n)) => Ok(n * st.0),
                    (None, None) => Err(DurationError::NumberExpected),
                }
            }
        },
    }
}

/// Ten to the power `n`.
pub open spec fn pow10(n: int) -> int
    decreases n,
{
    if n <= 0 {
        1
    } else {
        10 * pow10(n - 1)
    }
}

proof fn lemma_pow10_pos(i: int)
    ensures
        1 <= pow10(i),
    decreases i,
{
    if i > 0 {
        lemma_pow10_pos(i - 1);
    }
}

proof fn lemma_pow10_le(i: int, j: int)
    requires
        i <= j,
    ensures
        pow10(i) <= pow10(j),
        1 <= pow10(i),
    decreases j - i,
{
    lemma_pow10_pos(i);
    if i < j {
        lemma_pow10_le(i, j - 1);
    }
}

proof fn lemma_pow10_15()
    ensures
        pow10(15) == 1_000_000_000_000_000,
{
    reveal_with_fuel(pow10, 17);
}

/// The view of an optional machine integer as an optional mathematical one.
spec fn opt_int(o: Option<i64>) -> Option<int> {
    match o {
        Some(x) => Some(x as int),
        None => None,
    }
}

/// Parse a duration such as `"1"`, `"10h"`, `"8h30"`, `"6h21m"` or `"90m"`
/// into whole minutes. A bare number is hours; after an `h` group a bare
/// number is minutes. The length bound keeps every intermediate count inside
/// machine range.
pub fn duration_value_parser(v: &str) -> (r: Result<i64, DurationError>)
    requires
        v@.len() <= 15,
    ensures
        r matches Ok(m) ==> spec_parse_duration(v@) == Ok::<int, DurationError>(m as int) && m
            >= 0,
        r matches Err(e) ==> spec_parse_duration(v@) == Err::<int, DurationError>(e),
{
    let n = v.unicode_len();
    let mut unit: i64 = 60;
    let mut result: Option<i64> = None;
    let mut number: Option<i64> = None;
    let mut i: usize = 0;
    proof {
        assert(v@.skip(0) =~= v@);
    }
    while i < n
        invariant
            i <= n,
            n == v@.len(),
            n <= 15,
            unit == 60 || unit == 1 || unit == 0,
            duration_fold(v@, (60, None, None)) == duration_fold(
                v@.skip(i as int),
                (unit as int, opt_int(result), opt_int(number)),
            ),
            number matches Some(x) ==> 0 <= x < pow10(i as int),
            result matches Some(x) ==> 0 <= x <= i * 60_000_000_000_000_000,
        decreases n - i,
    {
        let c = v.get_char(i);
        proof {
            lemma_pow10_le(i as int, 14);
            lemma_pow10_le(14, 15);
            lemma_pow10_15();
            assert(v@.skip(i as int).len() > 0);
            assert(v@.skip(i as int)[0] == v@[i as int]);
            assert(v@.skip(i as int).drop_first() =~= v@.skip(i as int + 1));
        }
        match digit_val(c) {
            Some(d) => {
                let cur = match number {
                    Some(x) => x,
                    None => 0,
                };
                number = Some(cur * 10 + d as i64);
            },
            None => {
                if c == 'h' {
                    match number {
                        Some(acc) => {
                            let res = match result {
                                Some(x) => x,
                                None => 0,
                            };
                            result = Some(res + acc * 60);
                            number = None;
                            unit = 1;
                        },
                        None => {
                            return Err(DurationError::NumberExpectedBeforeUnit);
                        },
                    }
                } else if c == 'm' {
                    match number {
                        Some(acc) => {
                            let res = match result {
                                Some(x) => x,
                                None => 0,
                            };
                            result = Some(acc + res);
                            number = None;
                            unit = 0;
                        },
                        None => {
                            return Err(DurationError::NumberExpectedBeforeUnit);
                        },
                    }
                } else {
                    return Err(DurationError::UnexpectedCharacter(c));
                }
            },
        }
        i = i + 1;
    }
    proof {
        assert(v@.skip(n as int) =~= Seq::<char>::empty());
        lemma_pow10_le(n as int, 15);
        lemma_pow10_15();
    }
    if unit == 0 {
        if let Some(x) = number {
            return Err(DurationError::UnknownUnit(x));
        }
    }
    match (result, number) {
        (Some(r0), Some(n0)) => Ok(r0 + n0 * unit),
        (Some(r0), None) => Ok(r0),
        (None, Some(n0)) => Ok(n0 * unit),
        (None, None) => Err(DurationError::NumberExpected),
    }
}

/// ASCII lowercasing of one character; characters outside `A`..`Z` pass
/// through unchanged.
pub open spec fn spec_ascii_lower(c: char) -> char {
    if c == 'A' {
        'a'
    } else if c == 'B' {
        'b'
    } else if c == 'C' {
        'c'
    } else if c == 'D' {
        'd'
    } else if c == 'E' {
        'e'
    } else if c == 'F' {
        'f'
    } else if c == 'G' {
        'g'
    } else if c == 'H' {
        'h'
    } else if c == 'I' {
        'i'
    } else if c == 'J' {
        'j'
    } else if c == 'K' {
        'k'
    } else if c == 'L' {
        'l'
    } else if c == 'M' {
        'm'
    } else if c == 'N' {
        'n'
    } else if c == 'O' {
        'o'
    } else if c == 'P' {
        'p'
    } else if c == 'Q' {
        'q'
    } else if c == 'R' {
        'r'
    } else if c == 'S' {
        's'
    } else if c == 'T' {
        't'
    } else if c == 'U' {
        'u'
    } else if c == 'V' {
        'v'
    } else if c == 'W' {
        'w'
    } else if c == 'X' {
        'x'
    } else if c == 'Y' {
        'y'
    } else if c == 'Z' {
        'z'
    } else {
        c
    }
}

/// ASCII lowercasing of a whole character sequence.
pub open spec fn spec_ascii_lowercase(s: Seq<char>) -> Seq<char> {
    s.map_values(|c: char| spec_ascii_lower(c))
}

fn ascii_lower(c: char) -> (r: char)
    ensures
        r == spec_ascii_lower(c),
{
    match c {
        'A' => 'a',
        'B' => 'b',
        'C' => 'c',
        'D' => 'd',
        'E' => 'e',
        'F' => 'f',
        'G' => 'g',
        'H' => 'h',
        'I' => 'i',
        'J' => 'j',
        'K' => 'k',
        'L' => 'l',
        'M' => 'm',
        'N' => 'n',
        'O' => 'o',
        'P' => 'p',
        'Q' => 'q',
        'R' => 'r',
        'S' => 's',
        'T' => 't',
        'U' => 'u',
        'V' => 'v',
        'W' => 'w',
        'X' => 'x',
        'Y' => 'y',
        'Z' => 'z',
        _ => c,
    }
}

/// The characters of `v`, ASCII-lowercased.
pub(crate) fn ascii_lowercase_chars(v: &str) -> (r: Vec<char>)
    ensures
        r@ == spec_ascii_lowercase(v@),
{
    let n = v.unicode_len();
    let mut r: Vec<char> = Vec::new();
    let mut i: usize = 0;
    while i < n
        invariant
            i <= n,
            n == v@.len(),
            r@.len() == i,
            forall|j: int| 0 <= j < i ==> r@[j] == spec_ascii_lower(v@[j]),
        decreases n - i,
    {
        r.push(ascii_lower(v.get_char(i)));
        i = i + 1;
    }
    proof {
        assert(r@ =~= spec_ascii_lowercase(v@));
    }
    r
}

/// Whether the characters `cs` spell exactly the literal `lit`.
pub(crate) fn chars_eq_str(cs: &Vec<char>, lit: &str) -> (r: bool)
    ensures
        r == (cs@ == lit@),
{
    let n = lit.unicode_len();
    if cs.len() != n {
        proof {
            assert(cs@.len() != lit@.len());
        }
        return false;
    }
    let mut i: usize = 0;
    while i < n
        invariant
            i <= n,
            n == lit@.len(),
            cs@.len() == n,
            forall|j: int| 0 <= j < i ==> cs@[j] == lit@[j],
        decreases n - i,
    {
        if cs[i] != lit.get_char(i) {
            return false;
        }
        i = i + 1;
    }
    proof {
        assert(cs@ =~= lit@);
    }
    true
}

/// Which weekday a name denotes, after ASCII lowercasing: the full English
/// name or its three-letter abbreviation.
pub open spec fn spec_parse_weekday(s: Seq<char>) -> Option<Weekday> {
    let l = spec_ascii_lowercase(s);
    if l == "mon"@ || l == "monday"@ {
        Some(Weekday::Monday)
    } else if l == "tue"@ || l == "tuesday"@ {
        Some(Weekday::Tuesday)
    } else if l == "wed"@ || l == "wednesday"@ {
        Some(Weekday::Wednesday)
    } else if l == "thu"@ || l == "thursday"@ {
        Some(Weekday::Thursday)
    } else if l == "fri"@ || l == "friday"@ {
        Some(Weekday::Friday)
    } else if l == "sat"@ || l == "saturday"@ {
        Some(Weekday::Saturday)
    } else if l == "sun"@ || l == "sunday"@ {
        Some(Weekday::Sunday)
    } else {
        None
    }
}

/// Parse a weekday name, full or abbreviated, in any letter case.
pub fn weekday_value_parser(v: &str) -> (r: Result<Weekday, WeekdayError>)
    ensures
        spec_parse_weekday(v@) matches Some(w) ==> r == Ok::<Weekday, WeekdayError>(w),
        spec_parse_weekday(v@) is None ==> r == Err::<Weekday, WeekdayError>(
            WeekdayError::InvalidWeekday,
        ),
{
    let l = ascii_lowercase_chars(v);
    if chars_eq_str(&l, "mon") || chars_eq_str(&l, "monday") {
        Ok(Weekday::Monday)
    } else if chars_eq_str(&l, "tue") || chars_eq_str(&l, "tuesday") {
        Ok(Weekday::Tuesday)
    } else if chars_eq_str(&l, "wed") || chars_eq_str(&l, "wednesday") {
        Ok(Weekday::Wednesday)
    } else if chars_eq_str(&l, "thu") || chars_eq_str(&l, "thursday") {
        Ok(Weekday::Thursday)
    } else if chars_eq_str(&l, "fri") || chars_eq_str(&l, "friday") {
        Ok(Weekday::Friday)
    } else if chars_eq_str(&l, "sat") || chars_eq_str(&l, "saturday") {
        Ok(Weekday::Saturday)
    } else if chars_eq_str(&l, "sun") || chars_eq_str(&l, "sunday") {
        Ok(Weekday::Sunday)
    } else {
        Err(WeekdayError::InvalidWeekday)
    }
}

} // verus!
