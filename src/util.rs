//! Reading durations and dates from text, and small text helpers.

use vstd::prelude::*;
use vstd::string::*;

use chrono::format::ParseErrorKind;

use crate::text::spaces;
use crate::time::{whole_hours, DateTime, Duration, valid_span};

verus! {

/// Saturation bound for reading a digit run: one past the largest magnitude an `i64` can take.
const DIGITS_CAP: u128 = 9223372036854775809;

pub open spec fn is_digit(c: char) -> bool {
    '0' <= c && c <= '9'
}

pub open spec fn all_digits(ds: Seq<char>) -> bool {
    forall|i: int| 0 <= i < ds.len() ==> is_digit(#[trigger] ds[i])
}

pub open spec fn digit_value(c: char) -> int {
    (c as int) - ('0' as int)
}

/// The number that a run of decimal digits denotes.
pub open spec fn digits_value(ds: Seq<char>) -> int
    decreases ds.len(),
{
    if ds.len() == 0 {
        0
    } else {
        digits_value(ds.drop_last()) * 10 + digit_value(ds.last())
    }
}

/// How `str::parse::<i64>` reads `s`: an optional `+` or `-`, then one or more ASCII digits,
/// with a value that an `i64` can hold.
pub open spec fn parse_i64_text(s: Seq<char>) -> Option<int> {
    let signed = s.len() > 0 && (s[0] == '-' || s[0] == '+');
    let ds = if signed {
        s.skip(1)
    } else {
        s
    };
    let v = if signed && s[0] == '-' {
        -digits_value(ds)
    } else {
        digits_value(ds)
    };
    if ds.len() > 0 && all_digits(ds) && i64::MIN <= v <= i64::MAX {
        Some(v)
    } else {
        None
    }
}

/// The characters of `s`, in order.
pub fn chars_of(s: &str) -> (r: Vec<char>)
    ensures
        r@ == s@,
{
    let n = s.unicode_len();
    let mut r: Vec<char> = Vec::new();
    let mut i: usize = 0;
    while i < n
        invariant
            n == s@.len(),
            i <= n,
            r@ == s@.subrange(0, i as int),
        decreases n - i,
    {
        r.push(s.get_char(i));
        i = i + 1;
    }
    assert(r@ =~= s@);
    r
}

/// Reads the first `len` characters of `cs` as `str::parse::<i64>` does.
pub fn parse_i64_prefix(cs: &Vec<char>, len: usize) -> (r: Option<i64>)
    requires
        len <= cs@.len(),
    ensures
        match parse_i64_text(cs@.subrange(0, len as int)) {
            Some(v) => r == Some(v as i64),
            None => r is None,
        },
{
    let ghost s = cs@.subrange(0, len as int);
    assert(len > 0 ==> s[0] == cs@[0]);
    let signed = len > 0 && (cs[0] == '-' || cs[0] == '+');
    let negative = len > 0 && cs[0] == '-';
    let start: usize = if signed {
        1
    } else {
        0
    };
    let ghost ds = if signed {
        s.skip(1)
    } else {
        s
    };
    assert(ds =~= cs@.subrange(start as int, len as int));
    if start == len {
        return None;
    }
    let mut mag: u128 = 0;
    let mut i: usize = start;
    while i < len
        invariant
            start <= i <= len <= cs@.len(),
            ds == cs@.subrange(start as int, len as int),
            s == cs@.subrange(0, len as int),
            signed == (s.len() > 0 && (s[0] == '-' || s[0] == '+')),
            negative == (s.len() > 0 && s[0] == '-'),
            ds == (if signed {
                s.skip(1)
            } else {
                s
            }),
            all_digits(cs@.subrange(start as int, i as int)),
            mag <= DIGITS_CAP,
            digits_value(cs@.subrange(start as int, i as int)) >= 0,
            mag == (if digits_value(cs@.subrange(start as int, i as int)) < DIGITS_CAP {
                digits_value(cs@.subrange(start as int, i as int))
            } else {
                DIGITS_CAP as int
            }),
        decreases len - i,
    {
        let c = cs[i];
        let ghost prev = cs@.subrange(start as int, i as int);
        let ghost next = cs@.subrange(start as int, i + 1);
        assert(next.drop_last() =~= prev);
        if !('0' <= c && c <= '9') {
            assert(ds[i - start] == c);
            assert(!is_digit(ds[i - start]));
            assert(!all_digits(ds));
            return None;
        }
        let d = (c as u32 - '0' as u32) as u128;
        if mag >= DIGITS_CAP {
            mag = DIGITS_CAP;
        } else {
            let t = mag * 10 + d;
            mag = if t >= DIGITS_CAP {
                DIGITS_CAP
            } else {
                t
            };
        }
        assert(all_digits(next)) by {
            assert forall|k: int| 0 <= k < next.len() implies is_digit(#[trigger] next[k]) by {
                if k < prev.len() {
                    assert(next[k] == prev[k]);
                }
            }
        }
        i = i + 1;
    }
    assert(cs@.subrange(start as int, i as int) =~= ds);
    if negative {
        if mag <= 9223372036854775808 {
            Some((0 - (mag as i128)) as i64)
        } else {
            None
        }
    } else {
        if mag <= 9223372036854775807 {
            Some(mag as i64)
        } else {
            None
        }
    }
}

/// The unit letter of a non-empty duration text: its last character, or `d` where that is a digit.
pub open spec fn duration_unit(s: Seq<char>) -> char {
    if is_digit(s.last()) {
        'd'
    } else {
        s.last()
    }
}

/// The amount part of a non-empty duration text: all of it where it ends in a digit, else all but
/// the unit letter.
pub open spec fn duration_amount(s: Seq<char>) -> Seq<char> {
    if is_digit(s.last()) {
        s
    } else {
        s.drop_last()
    }
}

/// Seconds in one of each unit: a 30-day month, a week, a day and an hour.
pub open spec fn unit_seconds(u: char) -> int {
    if u == 'm' {
        2592000
    } else if u == 'w' {
        604800
    } else if u == 'd' {
        86400
    } else if u == 'h' {
        3600
    } else {
        0
    }
}

pub open spec fn is_duration_unit(u: char) -> bool {
    u == 'm' || u == 'w' || u == 'd' || u == 'h'
}

/// A duration text is sound unless its amount is not an integer, or the span it names is too long
/// for a `Duration`. Reading an unsound text is a caller error, unlike an unknown unit.
pub open spec fn duration_text_sound(s: Seq<char>) -> bool {
    s.len() == 0 || match parse_i64_text(duration_amount(s)) {
        Some(n) => is_duration_unit(duration_unit(s)) ==> valid_span(
            n * unit_seconds(duration_unit(s)),
        ),
        None => false,
    }
}

/// The span in seconds that a sound duration text names, or `None` for an empty text or an
/// unknown unit.
pub open spec fn duration_of_text(s: Seq<char>) -> Option<int> {
    if s.len() == 0 || !is_duration_unit(duration_unit(s)) {
        None
    } else {
        match parse_i64_text(duration_amount(s)) {
            Some(n) => Some(n * unit_seconds(duration_unit(s))),
            None => None,
        }
    }
}

/// The ways reading a duration text can fail hard.
#[derive(Clone, Copy, Debug, PartialEq, Eq, Structural)]
pub enum DurationError {
    /// The amount is not an integer.
    BadAmount,
    /// The span is too long for a `Duration`.
    OutOfRange,
}

/// Reads a duration text: `Err` where it is unsound, else what `duration_of_text` gives.
pub fn read_duration(duration_string: &str) -> (r: Result<Option<Duration>, DurationError>)
    ensures
        r is Err <==> !duration_text_sound(duration_string@),
        r matches Ok(o) ==> match duration_of_text(duration_string@) {
            Some(d) => o == Some(Duration { secs: d as i64 }),
            None => o is None,
        },
{
    let mut characters = chars_of(duration_string);
    let ghost s = characters@;
    if characters.len() == 0 {
        return Ok(None);
    }
    let last_character = characters[characters.len() - 1];
    let mut identifier = 'd';
    if !('0' <= last_character && last_character <= '9') {
        identifier = last_character;
        characters.pop();
    }
    assert(identifier == duration_unit(s));
    assert(characters@ =~= duration_amount(s));
    let len = characters.len();
    assert(characters@.subrange(0, len as int) =~= characters@);
    let digits = match parse_i64_prefix(&characters, len) {
        Some(n) => n,
        None => {
            return Err(DurationError::BadAmount);
        },
    };
    let per_unit: i64 = if identifier == 'm' {
        2592000
    } else if identifier == 'w' {
        604800
    } else if identifier == 'd' {
        86400
    } else if identifier == 'h' {
        3600
    } else {
        return Ok(None);
    };
    assert(per_unit == unit_seconds(identifier));
    let bound: i64 = 9223372036854775;
    if digits > bound / per_unit || digits < -(bound / per_unit) {
        assert(!valid_span(digits * per_unit)) by (nonlinear_arith)
            requires
                digits > bound / per_unit || digits < -(bound / per_unit),
                bound == 9223372036854775,
                per_unit > 0,
        ;
        return Err(DurationError::OutOfRange);
    }
    assert(valid_span(digits * per_unit) && i64::MIN <= digits * per_unit <= i64::MAX)
        by (nonlinear_arith)
        requires
            digits <= bound / per_unit && digits >= -(bound / per_unit),
            bound == 9223372036854775,
            per_unit > 0,
    ;
    Ok(Some(Duration { secs: digits * per_unit }))
}

/// Reads a duration text: a run of digits followed by an optional unit letter, `m` (30 days),
/// `w`, `d` or `h`, with days where the letter is left out. An empty text or an unknown letter
/// gives `None`.
pub fn convert_string_to_duration(duration_string: &str) -> (r: Option<Duration>)
    requires
        duration_text_sound(duration_string@),
    ensures
        match duration_of_text(duration_string@) {
            Some(d) => r == Some(Duration { secs: d as i64 }),
            None => r is None,
        },
{
    match read_duration(duration_string) {
        Ok(o) => o,
        Err(_) => None,
    }
}

/// Whether reading `duration_string` as a duration would not fail hard.
pub fn is_duration_string_sound(duration_string: &str) -> (r: bool)
    ensures
        r == duration_text_sound(duration_string@),
{
    read_duration(duration_string).is_ok()
}

/// Why a date or date-time text could not be read.
#[derive(Clone, Copy, Debug, PartialEq, Eq, Structural)]
pub enum DateParseError {
    /// A field is out of its permitted range.
    OutOfRange,
    /// No date and time matches the fields given.
    Impossible,
    /// The fields given are not enough for a unique date and time.
    NotEnough,
    /// The text holds characters that the pattern does not allow.
    Invalid,
    /// The text ended before the pattern did.
    TooShort,
    /// The text goes on after the pattern has ended.
    TooLong,
    /// The pattern itself is at fault.
    BadFormat,
    /// A failure of a kind not listed above.
    Unknown,
}

/// How chrono reads `s` as `%Y-%m-%d %H:%M:%S`: the instant in seconds, or why not.
pub uninterp spec fn date_time_text_reading(s: Seq<char>) -> Result<int, DateParseError>;

/// How chrono reads `s` as `%Y-%m-%d`: that day's midnight in seconds, or why not.
pub uninterp spec fn date_text_reading(s: Seq<char>) -> Result<int, DateParseError>;

/// The instant that a reading holds, in seconds, or the error it holds.
pub open spec fn reading_of(r: Result<DateTime, DateParseError>) -> Result<int, DateParseError> {
    match r {
        Ok(t) => Ok(t.secs as int),
        Err(e) => Err(e),
    }
}

/// Relies on chrono's `NaiveDateTime::parse_from_str` with the pattern `%Y-%m-%d %H:%M:%S`: its
/// result depends on the text alone, and a date-time it gives lies in the calendar's range.
#[verifier::external_body]
fn read_full_date_time(s: &str) -> (r: Result<DateTime, DateParseError>)
    ensures
        reading_of(r) == date_time_text_reading(s@),
        r matches Ok(t) ==> t.is_representable(),
{
    match chrono::NaiveDateTime::parse_from_str(s, "%Y-%m-%d %H:%M:%S") {
        Ok(t) => Ok(DateTime { secs: t.and_utc().timestamp() }),
        Err(e) => Err(match e.kind() {
            ParseErrorKind::OutOfRange => DateParseError::OutOfRange,
            ParseErrorKind::Impossible => DateParseError::Impossible,
            ParseErrorKind::NotEnough => DateParseError::NotEnough,
            ParseErrorKind::Invalid => DateParseError::Invalid,
            ParseErrorKind::TooShort => DateParseError::TooShort,
            ParseErrorKind::TooLong => DateParseError::TooLong,
            ParseErrorKind::BadFormat => DateParseError::BadFormat,
            _ => DateParseError::Unknown,
        }),
    }
}

/// Relies on chrono's `NaiveDate::parse_from_str` with the pattern `%Y-%m-%d`, taken at midnight:
/// its result depends on the text alone, and a date it gives lies in the calendar's range.
#[verifier::external_body]
fn read_date(s: &str) -> (r: Result<DateTime, DateParseError>)
    ensures
        reading_of(r) == date_text_reading(s@),
        r matches Ok(t) ==> t.is_representable(),
{
    match chrono::NaiveDate::parse_from_str(s, "%Y-%m-%d") {
        Ok(d) => Ok(DateTime { secs: d.and_time(chrono::NaiveTime::MIN).and_utc().timestamp() }),
        Err(e) => Err(match e.kind() {
            ParseErrorKind::OutOfRange => DateParseError::OutOfRange,
            ParseErrorKind::Impossible => DateParseError::Impossible,
            ParseErrorKind::NotEnough => DateParseError::NotEnough,
            ParseErrorKind::Invalid => DateParseError::Invalid,
            ParseErrorKind::TooShort => DateParseError::TooShort,
            ParseErrorKind::TooLong => DateParseError::TooLong,
            ParseErrorKind::BadFormat => DateParseError::BadFormat,
            _ => DateParseError::Unknown,
        }),
    }
}

/// How a date or date-time text is read: as `YYYY-MM-DD HH:MM:SS`, or, where the text ends
/// before the time of day, as a bare `YYYY-MM-DD` at midnight.
pub open spec fn date_time_of_text(s: Seq<char>) -> Result<int, DateParseError> {
    settled_reading(date_time_text_reading(s), date_text_reading(s))
}

pub open spec fn settled_reading(
    full: Result<int, DateParseError>,
    date_only: Result<int, DateParseError>,
) -> Result<int, DateParseError> {
    match full {
        Err(DateParseError::TooShort) => date_only,
        _ => full,
    }
}

/// Settles between reading a text as a full date-time (`full`) and as a bare date (`date_only`):
/// the bare date counts only where the text ended too soon for the full form.
pub fn settle_date_time_reading(
    full: Result<DateTime, DateParseError>,
    date_only: Result<DateTime, DateParseError>,
) -> (r: Result<DateTime, DateParseError>)
    ensures
        r == (match full {
            Err(DateParseError::TooShort) => date_only,
            _ => full,
        }),
        reading_of(r) == settled_reading(reading_of(full), reading_of(date_only)),
{
    match full {
        Err(DateParseError::TooShort) => date_only,
        _ => full,
    }
}

/// Reads a date-time written `YYYY-MM-DD HH:MM:SS`, or a date written `YYYY-MM-DD`, which is
/// taken at midnight.
pub fn get_naive_date_time_from_string(date_string: &str) -> (r: Result<DateTime, DateParseError>)
    ensures
        reading_of(r) == date_time_of_text(date_string@),
        r matches Ok(t) ==> t.is_representable(),
{
    let full = read_full_date_time(date_string);
    let date_only = read_date(date_string);
    settle_date_time_reading(full, date_only)
}

/// Two spaces for each level of indentation.
pub fn get_space_indent(indents: usize) -> (r: String)
    requires
        indents * 2 <= usize::MAX,
    ensures
        r@ == spaces((indents * 2) as nat),
{
    let mut s = String::new();
    let mut i: usize = 0;
    while i < indents
        invariant
            i <= indents,
            s@ == spaces((i * 2) as nat),
        decreases indents - i,
    {
        proof {
            reveal_strlit("  ");
        }
        s.append("  ");
        i = i + 1;
        assert(s@ =~= spaces((i * 2) as nat));
    }
    assert(s@ =~= spaces((indents * 2) as nat));
    s
}

/// The number of whole hours in `duration`, rounded toward zero.
pub fn get_duration_in_hours(duration: Duration) -> (r: i64)
    ensures
        r as int == whole_hours(duration.secs as int),
{
    duration.num_hours()
}

} // verus!
