//! The expiry timestamps carried by metadata documents: a calendar date and
//! a time of day, always in UTC, parsed from the `YYYY-MM-DDTHH:MM:SSZ`
//! form.  The core only stores and exposes these values; comparing one
//! against the current time is the calling workflow's job.

use vstd::prelude::*;
use crate::error::Error;
use crate::error::ErrV;

verus! {

/// A UTC timestamp, held as plain calendar fields.
#[derive(Debug, Clone, Copy, PartialEq, Eq, Structural)]
pub struct DateTimeUtc {
    pub year: u32,
    pub month: u8,
    pub day: u8,
    pub hour: u8,
    pub minute: u8,
    pub second: u8,
}

/// A leap year in the Gregorian calendar.
pub open spec fn is_leap_year(y: int) -> bool {
    y % 4 == 0 && (y % 100 != 0 || y % 400 == 0)
}

/// How many days the month has.
pub open spec fn days_in_month(y: int, m: int) -> int
    recommends
        1 <= m <= 12,
{
    if m == 2 {
        if is_leap_year(y) {
            29
        } else {
            28
        }
    } else if m == 4 || m == 6 || m == 9 || m == 11 {
        30
    } else {
        31
    }
}

/// The fields denote a real calendar date and time of day.
pub open spec fn valid_date_time(y: int, mo: int, d: int, h: int, mi: int, s: int) -> bool {
    &&& 0 <= y <= 9999
    &&& 1 <= mo <= 12
    &&& 1 <= d <= days_in_month(y, mo)
    &&& 0 <= h < 24
    &&& 0 <= mi < 60
    &&& 0 <= s < 60
}

impl DateTimeUtc {
    /// The fields denote a real calendar date and time of day.
    pub open spec fn well_formed(&self) -> bool {
        valid_date_time(
            self.year as int,
            self.month as int,
            self.day as int,
            self.hour as int,
            self.minute as int,
            self.second as int,
        )
    }
}

/// An ASCII decimal digit.
pub open spec fn is_digit(c: char) -> bool {
    48 <= c as u32 && c as u32 <= 57
}

/// The value of a decimal digit character.
pub open spec fn digit_val(c: char) -> int
    recommends
        is_digit(c),
{
    c as u32 - 48
}

/// The value of the two digits at `i`.
pub open spec fn num2(s: Seq<char>, i: int) -> int
    recommends
        0 <= i,
        i + 2 <= s.len(),
{
    10 * digit_val(s[i]) + digit_val(s[i + 1])
}

/// The value of the four digits at `i`.
pub open spec fn num4(s: Seq<char>, i: int) -> int
    recommends
        0 <= i,
        i + 4 <= s.len(),
{
    1000 * digit_val(s[i]) + 100 * digit_val(s[i + 1]) + 10 * digit_val(s[i + 2]) + digit_val(
        s[i + 3],
    )
}

/// The string has the `YYYY-MM-DDTHH:MM:SSZ` shape and denotes a real
/// calendar date and time of day.
pub open spec fn is_rfc3339_utc(s: Seq<char>) -> bool {
    &&& s.len() == 20
    &&& is_digit(s[0]) && is_digit(s[1]) && is_digit(s[2]) && is_digit(s[3])
    &&& s[4] == '-'
    &&& is_digit(s[5]) && is_digit(s[6])
    &&& s[7] == '-'
    &&& is_digit(s[8]) && is_digit(s[9])
    &&& s[10] == 'T'
    &&& is_digit(s[11]) && is_digit(s[12])
    &&& s[13] == ':'
    &&& is_digit(s[14]) && is_digit(s[15])
    &&& s[16] == ':'
    &&& is_digit(s[17]) && is_digit(s[18])
    &&& s[19] == 'Z'
    &&& valid_date_time(
        num4(s, 0),
        num2(s, 5),
        num2(s, 8),
        num2(s, 11),
        num2(s, 14),
        num2(s, 17),
    )
}

/// Reads one digit of a timestamp.
fn digit_at(s: &str, i: usize) -> (r: Result<u8, Error>)
    requires
        i < s@.len(),
    ensures
        r is Ok <==> is_digit(s@[i as int]),
        r matches Ok(d) ==> d == digit_val(s@[i as int]) && d <= 9,
        r matches Err(e) ==> e@ == ErrV::MalformedDocument,
{
    let c = s.get_char(i) as u32;
    if 48 <= c && c <= 57 {
        Ok((c - 48) as u8)
    } else {
        Err(Error::MalformedDocument)
    }
}

/// Checks one separator character of a timestamp.
fn expect_char(s: &str, i: usize, c: char) -> (r: Result<(), Error>)
    requires
        i < s@.len(),
    ensures
        r is Ok <==> s@[i as int] == c,
        r matches Err(e) ==> e@ == ErrV::MalformedDocument,
{
    if s.get_char(i) == c {
        Ok(())
    } else {
        Err(Error::MalformedDocument)
    }
}

/// Parses a `YYYY-MM-DDTHH:MM:SSZ` timestamp.  Accepted exactly when the
/// string has that shape and denotes a real calendar date and time of day.
pub fn parse_datetime(s: &str) -> (r: Result<DateTimeUtc, Error>)
    ensures
        r is Ok <==> is_rfc3339_utc(s@),
        r matches Ok(dt) ==> {
            &&& dt.year == num4(s@, 0)
            &&& dt.month == num2(s@, 5)
            &&& dt.day == num2(s@, 8)
            &&& dt.hour == num2(s@, 11)
            &&& dt.minute == num2(s@, 14)
            &&& dt.second == num2(s@, 17)
            &&& dt.well_formed()
        },
        r matches Err(e) ==> e@ == ErrV::MalformedDocument,
{
    if s.unicode_len() != 20 {
        return Err(Error::MalformedDocument);
    }
    let y1 = digit_at(s, 0)?;
    let y2 = digit_at(s, 1)?;
    let y3 = digit_at(s, 2)?;
    let y4 = digit_at(s, 3)?;
    expect_char(s, 4, '-')?;
    let mo1 = digit_at(s, 5)?;
    let mo2 = digit_at(s, 6)?;
    expect_char(s, 7, '-')?;
    let d1 = digit_at(s, 8)?;
    let d2 = digit_at(s, 9)?;
    expect_char(s, 10, 'T')?;
    let h1 = digit_at(s, 11)?;
    let h2 = digit_at(s, 12)?;
    expect_char(s, 13, ':')?;
    let mi1 = digit_at(s, 14)?;
    let mi2 = digit_at(s, 15)?;
    expect_char(s, 16, ':')?;
    let s1 = digit_at(s, 17)?;
    let s2 = digit_at(s, 18)?;
    expect_char(s, 19, 'Z')?;
    let year: u32 = 1000 * (y1 as u32) + 100 * (y2 as u32) + 10 * (y3 as u32) + (y4 as u32);
    let month: u8 = 10 * mo1 + mo2;
    let day: u8 = 10 * d1 + d2;
    let hour: u8 = 10 * h1 + h2;
    let minute: u8 = 10 * mi1 + mi2;
    let second: u8 = 10 * s1 + s2;
    if month < 1 || month > 12 {
        return Err(Error::MalformedDocument);
    }
    let max_day: u8 = if month == 2 {
        if year % 4 == 0 && (year % 100 != 0 || year % 400 == 0) {
            29
        } else {
            28
        }
    } else if month == 4 || month == 6 || month == 9 || month == 11 {
        30
    } else {
        31
    };
    if day < 1 || day > max_day {
        return Err(Error::MalformedDocument);
    }
    if hour > 23 || minute > 59 || second > 59 {
        return Err(Error::MalformedDocument);
    }
    Ok(DateTimeUtc { year, month, day, hour, minute, second })
}

} // verus!
