//! Building text: decimal numbers, indentation, calendar dates, and a growable text buffer.

use std::string::FromUtf8Error;
use string_builder::Builder;
use vstd::prelude::*;
use vstd::string::*;

use crate::time::DateTime;

verus! {

#[verifier::external_type_specification]
#[verifier::external_body]
pub struct ExBuilder(Builder);

#[verifier::external_type_specification]
#[verifier::external_body]
pub struct ExFromUtf8Error(FromUtf8Error);

/// The text appended to a builder so far.
pub uninterp spec fn built_text(b: Builder) -> Seq<char>;

/// Relies on string_builder's `Builder::default`: it starts with an empty buffer.
#[verifier::external_body]
pub(crate) fn new_builder() -> (r: Builder)
    ensures
        built_text(r) == Seq::<char>::empty(),
{
    Builder::default()
}

/// Relies on string_builder's `Builder::append`: it writes the UTF-8 bytes of `s` after the bytes
/// already held.
#[verifier::external_body]
pub(crate) fn append_text(b: &mut Builder, s: &str)
    ensures
        built_text(*final(b)) == built_text(*old(b)) + s@,
{
    b.append(s)
}

/// Relies on string_builder's `Builder::string`: it is `String::from_utf8` of the buffer, and a
/// buffer that only `append_text` has written holds whole strings, so valid UTF-8.
#[verifier::external_body]
pub(crate) fn finish_text(b: Builder) -> (r: Result<String, FromUtf8Error>)
    ensures
        r is Ok,
        r is Ok ==> r->Ok_0@ == built_text(b),
{
    b.string()
}

pub open spec fn digit_char(d: int) -> char {
    (('0' as int) + d) as char
}

/// The decimal digits of `n`, most significant first, without leading zeros.
pub open spec fn decimal_text(n: nat) -> Seq<char>
    decreases n,
{
    if n < 10 {
        seq![digit_char(n as int)]
    } else {
        decimal_text(n / 10).push(digit_char((n % 10) as int))
    }
}

/// `n` in decimal, with a leading `-` where it is negative.
pub open spec fn signed_decimal_text(n: int) -> Seq<char> {
    if n < 0 {
        seq!['-'] + decimal_text((-n) as nat)
    } else {
        decimal_text(n as nat)
    }
}

/// `n` spaces.
pub open spec fn spaces(n: nat) -> Seq<char> {
    Seq::new(n, |_i: int| ' ')
}

fn digit_str(d: u64) -> (r: &'static str)
    requires
        d < 10,
    ensures
        r@ == seq![digit_char(d as int)],
{
    proof {
        reveal_strlit("0");
        reveal_strlit("1");
        reveal_strlit("2");
        reveal_strlit("3");
        reveal_strlit("4");
        reveal_strlit("5");
        reveal_strlit("6");
        reveal_strlit("7");
        reveal_strlit("8");
        reveal_strlit("9");
    }
    let r = if d == 0 {
        "0"
    } else if d == 1 {
        "1"
    } else if d == 2 {
        "2"
    } else if d == 3 {
        "3"
    } else if d == 4 {
        "4"
    } else if d == 5 {
        "5"
    } else if d == 6 {
        "6"
    } else if d == 7 {
        "7"
    } else if d == 8 {
        "8"
    } else {
        "9"
    };
    assert(r@ =~= seq![digit_char(d as int)]);
    r
}

fn push_decimal(s: &mut String, n: u64)
    ensures
        final(s)@ == old(s)@ + decimal_text(n as nat),
    decreases n,
{
    if n >= 10 {
        push_decimal(s, n / 10);
    }
    s.append(digit_str(n % 10));
    proof {
        if n >= 10 {
            assert(final(s)@ =~= old(s)@ + decimal_text(n as nat));
        } else {
            assert(final(s)@ =~= old(s)@ + decimal_text(n as nat));
        }
    }
}

/// `n` written in decimal.
pub fn decimal_string(n: u64) -> (r: String)
    ensures
        r@ == decimal_text(n as nat),
{
    let mut s = String::new();
    push_decimal(&mut s, n);
    assert(s@ =~= decimal_text(n as nat));
    s
}

/// `n` written in decimal, with a leading `-` where it is negative.
pub fn signed_decimal_string(n: i64) -> (r: String)
    ensures
        r@ == signed_decimal_text(n as int),
{
    let mut s = String::new();
    if n < 0 {
        proof {
            reveal_strlit("-");
        }
        s.append("-");
        push_decimal(&mut s, (0 - (n as i128)) as u64);
    } else {
        push_decimal(&mut s, n as u64);
    }
    assert(s@ =~= signed_decimal_text(n as int));
    s
}

/// How chrono writes the date of the instant `secs`: `YYYY-MM-DD`.
pub uninterp spec fn date_text(secs: int) -> Seq<char>;

/// How chrono writes the instant `secs` with the pattern `%Y-%m-%d %H`.
pub uninterp spec fn date_hour_text(secs: int) -> Seq<char>;

/// Relies on chrono's `DateTime::from_timestamp`, which names every representable instant, and
/// the `to_string` of its `NaiveDate`, which depends on the date alone.
#[verifier::external_body]
pub(crate) fn format_date(t: DateTime) -> (r: String)
    requires
        t.is_representable(),
    ensures
        r@ == date_text(t.secs as int),
{
    chrono::DateTime::from_timestamp(t.secs, 0).unwrap().date_naive().to_string()
}

/// Relies on chrono's `DateTime::from_timestamp`, which names every representable instant, and
/// `NaiveDateTime::format` with `%Y-%m-%d %H`, which depends on the date-time alone.
#[verifier::external_body]
pub(crate) fn format_date_hour(t: DateTime) -> (r: String)
    requires
        t.is_representable(),
    ensures
        r@ == date_hour_text(t.secs as int),
{
    chrono::DateTime::from_timestamp(t.secs, 0).unwrap().naive_utc().format("%Y-%m-%d %H").to_string()
}

/// Whether two texts hold the same characters.
pub fn same_text(a: &str, b: &str) -> (r: bool)
    ensures
        r == (a@ == b@),
{
    a.to_owned() == b.to_owned()
}

} // verus!
