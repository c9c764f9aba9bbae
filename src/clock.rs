use chrono::Timelike;
use vstd::prelude::*;
use crate::text::{decimal, push_decimal};

verus! {

#[verifier::external_type_specification]
#[verifier::external_body]
pub struct ExParseError(chrono::ParseError);

/// Hour and minute that chrono reads from a provider timestamp, or `None`
/// where chrono rejects it.
pub uninterp spec fn parsed_clock(s: Seq<char>) -> Option<(u32, u32)>;

pub open spec fn is_digit(c: char) -> bool {
    '0' <= c && c <= '9'
}

pub open spec fn digit_value(c: char) -> nat {
    (c as int - '0' as int) as nat
}

pub open spec fn two_digits(s: Seq<char>, i: int) -> nat {
    10 * digit_value(s[i]) + digit_value(s[i + 1])
}

/// The provider's fixed layout `YYYYMMDD HH:MM:SS`: seventeen characters,
/// digits everywhere but a space at 8 and colons at 11 and 14.
pub open spec fn stamp_shape(s: Seq<char>) -> bool {
    &&& s.len() == 17
    &&& forall|i: int|
        0 <= i < 17 && i != 8 && i != 11 && i != 14 ==> #[trigger] is_digit(s[i])
    &&& s[8] == ' '
    &&& s[11] == ':'
    &&& s[14] == ':'
}

pub open spec fn stamp_year(s: Seq<char>) -> nat {
    100 * two_digits(s, 0) + two_digits(s, 2)
}

pub open spec fn stamp_month(s: Seq<char>) -> nat {
    two_digits(s, 4)
}

pub open spec fn stamp_day(s: Seq<char>) -> nat {
    two_digits(s, 6)
}

pub open spec fn stamp_hour(s: Seq<char>) -> nat {
    two_digits(s, 9)
}

pub open spec fn stamp_minute(s: Seq<char>) -> nat {
    two_digits(s, 12)
}

pub open spec fn stamp_second(s: Seq<char>) -> nat {
    two_digits(s, 15)
}

/// Leap years of the proleptic Gregorian calendar.
pub open spec fn is_leap_year(y: nat) -> bool {
    (y % 4 == 0 && y % 100 != 0) || y % 400 == 0
}

pub open spec fn days_in_month(y: nat, m: nat) -> nat {
    if m == 2 {
        if is_leap_year(y) { 29 } else { 28 }
    } else if m == 4 || m == 6 || m == 9 || m == 11 {
        30
    } else {
        31
    }
}

/// Every field of a stamp names a real calendar date and a time of day.
pub open spec fn stamp_in_range(s: Seq<char>) -> bool {
    &&& 1 <= stamp_month(s) <= 12
    &&& 1 <= stamp_day(s) <= days_in_month(stamp_year(s), stamp_month(s))
    &&& stamp_hour(s) < 24
    &&& stamp_minute(s) < 60
    &&& stamp_second(s) < 60
}

/// Some field of a stamp lies outside what a date and a time of day allow
/// (a second of 60 is a leap second and counts as neither in nor out).
pub open spec fn stamp_out_of_range(s: Seq<char>) -> bool {
    ||| !(1 <= stamp_month(s) <= 12)
    ||| stamp_day(s) == 0
    ||| stamp_day(s) > days_in_month(stamp_year(s), stamp_month(s))
    ||| stamp_hour(s) >= 24
    ||| stamp_minute(s) >= 60
    ||| stamp_second(s) > 60
}

/// Number of ASCII digits in a text.
pub open spec fn digit_count(s: Seq<char>) -> nat
    decreases s.len(),
{
    if s.len() == 0 {
        0
    } else {
        digit_count(s.drop_last()) + if is_digit(s.last()) { 1nat } else { 0nat }
    }
}

pub open spec fn is_ascii_letter(c: char) -> bool {
    ('a' <= c && c <= 'z') || ('A' <= c && c <= 'Z')
}

/// A text that cannot be a timestamp of the provider's pattern whatever its
/// layout: it holds a letter, or fewer than the six fields' digits.
pub open spec fn plainly_not_a_stamp(s: Seq<char>) -> bool {
    digit_count(s) < 6 || exists|i: int| 0 <= i < s.len() && #[trigger] is_ascii_letter(s[i])
}

/// The compact display form `H:M`, both without leading zeros.
pub open spec fn clock_text(hour: nat, minute: nat) -> Seq<char> {
    decimal(hour) + seq![':'] + decimal(minute)
}

/// What `format_time` yields for a raw timestamp: its display form, or
/// `None` where the timestamp does not parse.
pub open spec fn formatted_time(s: Seq<char>) -> Option<Seq<char>> {
    match parsed_clock(s) {
        Some(hm) => Some(clock_text(hm.0 as nat, hm.1 as nat)),
        None => None,
    }
}

/// Relies on chrono's `NaiveDateTime::parse_from_str` with the pattern
/// `%Y%m%d %H:%M:%S`, and on `Timelike::hour` and `Timelike::minute` of the
/// parsed value: on the fixed layout chrono reads four year digits and two
/// digits for each other field, checks month, day of month, hour (0-23),
/// minute (0-59) and second (0-60), and keeps hour and minute as read. On
/// any text, each of the six fields takes at least one ASCII digit, and the
/// pattern accepts no letter anywhere.
#[verifier::external_body]
fn parse_stamp(s: &str) -> (r: Result<(u32, u32), chrono::ParseError>)
    ensures
        match r {
            Ok(hm) => parsed_clock(s@) == Some(hm),
            Err(_) => parsed_clock(s@) is None,
        },
        r is Ok ==> r->Ok_0.0 < 24 && r->Ok_0.1 < 60,
        stamp_shape(s@) && stamp_in_range(s@) ==> r is Ok && r->Ok_0 == (
        stamp_hour(s@) as u32,
        stamp_minute(s@) as u32,
        ),
        stamp_shape(s@) && stamp_out_of_range(s@) ==> r is Err,
        plainly_not_a_stamp(s@) ==> r is Err,
{
    chrono::NaiveDateTime::parse_from_str(s, "%Y%m%d %H:%M:%S").map(|t| (t.hour(), t.minute()))
}

/// A timestamp that could not be read, with chrono's reason.
#[derive(Debug)]
pub struct TimeParseError {
    pub input: String,
    pub reason: chrono::ParseError,
}

/// Writes an hour and a minute as `H:M`.
pub fn format_hour_minute(hour: u32, minute: u32) -> (r: String)
    ensures
        r@ == clock_text(hour as nat, minute as nat),
{
    let mut r = String::new();
    push_decimal(&mut r, hour as u64);
    proof {
        reveal_strlit(":");
    }
    r.append(":");
    push_decimal(&mut r, minute as u64);
    assert(r@ =~= clock_text(hour as nat, minute as nat));
    r
}

/// Converts a provider timestamp `YYYYMMDD HH:MM:SS` into its `H:M` form.
pub fn format_time(time_str: &str) -> (r: Result<String, TimeParseError>)
    ensures
        (r is Ok) == (formatted_time(time_str@) is Some),
        r is Ok ==> r->Ok_0@ == formatted_time(time_str@)->Some_0,
        r is Err ==> r->Err_0.input@ == time_str@,
        stamp_shape(time_str@) && stamp_in_range(time_str@) ==> r is Ok && r->Ok_0@
            == clock_text(stamp_hour(time_str@), stamp_minute(time_str@)),
        stamp_shape(time_str@) && stamp_out_of_range(time_str@) ==> r is Err,
        plainly_not_a_stamp(time_str@) ==> r is Err,
{
    match parse_stamp(time_str) {
        Ok(hm) => Ok(format_hour_minute(hm.0, hm.1)),
        Err(reason) => Err(TimeParseError { input: time_str.to_owned(), reason }),
    }
}

} // verus!
