use vstd::prelude::*;

use chrono::TimeZone;

use crate::error::StationError;
use crate::text::chars_of;

verus! {

pub open spec fn is_digit(c: char) -> bool {
    '0' <= c && c <= '9'
}

/// The number that a sequence of decimal digits spells.
pub open spec fn digits_value(ds: Seq<char>) -> int
    decreases ds.len(),
{
    if ds.len() == 0 {
        0
    } else {
        digits_value(ds.drop_last()) * 10 + (ds.last() as int - '0' as int)
    }
}

/// The length of the run of digits in `s` that starts at `i`.
pub open spec fn digit_run(s: Seq<char>, i: int) -> nat
    decreases s.len() - i,
{
    if 0 <= i < s.len() && is_digit(s[i]) {
        1 + digit_run(s, i + 1)
    } else {
        0
    }
}

/// A field of `lo` to `hi` digits at `start`, followed by the separator
/// `sep`: its value and the position after the separator.
pub open spec fn field(s: Seq<char>, start: int, lo: int, hi: int, sep: char) -> Option<(int, int)> {
    let n = digit_run(s, start) as int;
    if lo <= n <= hi && start + n < s.len() && s[start + n] == sep {
        Some((digits_value(s.subrange(start, start + n)), start + n + 1))
    } else {
        None
    }
}

/// A field of `lo` to `hi` digits at `start` that ends the text: its value.
pub open spec fn last_field(s: Seq<char>, start: int, lo: int, hi: int) -> Option<int> {
    let n = digit_run(s, start) as int;
    if lo <= n <= hi && start + n == s.len() {
        Some(digits_value(s.subrange(start, start + n)))
    } else {
        None
    }
}

/// Year, month, day, hour and minute of text of the exact form
/// `YYYY-M-D H:MM`: a four-digit year, one or two digits for each other
/// field, `-` between the date fields, one space before the time, `:`
/// between hour and minute, and nothing else.
pub open spec fn timestamp_fields(s: Seq<char>) -> Option<(int, int, int, int, int)> {
    match field(s, 0, 4, 4, '-') {
        None => None,
        Some((y, i1)) => match field(s, i1, 1, 2, '-') {
            None => None,
            Some((mo, i2)) => match field(s, i2, 1, 2, ' ') {
                None => None,
                Some((d, i3)) => match field(s, i3, 1, 2, ':') {
                    None => None,
                    Some((h, i4)) => match last_field(s, i4, 1, 2) {
                        None => None,
                        Some(mi) => Some((y, mo, d, h, mi)),
                    },
                },
            },
        },
    }
}

pub open spec fn is_leap_year(y: int) -> bool {
    (y % 4 == 0 && y % 100 != 0) || y % 400 == 0
}

pub open spec fn days_in_month(y: int, m: int) -> int {
    if m == 2 {
        if is_leap_year(y) {
            29
        } else {
            28
        }
    } else if m == 4 || m == 6 || m == 9 || m == 11 {
        30
    } else {
        31
    }
}

/// A real calendar date with a time of day, to the minute.
pub open spec fn valid_date_time(y: int, mo: int, d: int, h: int, mi: int) -> bool {
    1 <= mo <= 12 && 1 <= d <= days_in_month(y, mo) && 0 <= h < 24 && 0 <= mi < 60
}

/// Leap years among the years 1 to `y` (negated count of those from `y + 1`
/// to 0 when `y` is negative).
pub open spec fn leap_years_through(y: int) -> int {
    y / 4 - y / 100 + y / 400
}

/// Days from 1970-01-01 to the first day of year `y`.
pub open spec fn days_before_year(y: int) -> int {
    365 * (y - 1970) + leap_years_through(y - 1) - leap_years_through(1969)
}

/// Days from the first of January to the first day of month `m` of year `y`.
pub open spec fn days_before_month(y: int, m: int) -> int {
    let base: int = if m == 1 {
        0
    } else if m == 2 {
        31
    } else if m == 3 {
        59
    } else if m == 4 {
        90
    } else if m == 5 {
        120
    } else if m == 6 {
        151
    } else if m == 7 {
        181
    } else if m == 8 {
        212
    } else if m == 9 {
        243
    } else if m == 10 {
        273
    } else if m == 11 {
        304
    } else {
        334
    };
    if m > 2 && is_leap_year(y) {
        base + 1
    } else {
        base
    }
}

/// Seconds since 1970-01-01T00:00:00Z of the given UTC wall-clock minute,
/// in the proleptic Gregorian calendar.
pub open spec fn epoch_seconds(y: int, mo: int, d: int, h: int, mi: int) -> int {
    (days_before_year(y) + days_before_month(y, mo) + d - 1) * 86400 + h * 3600 + mi * 60
}

/// The instant that timestamp text denotes, if it is well formed and a
/// real date.
pub open spec fn timestamp_value(s: Seq<char>) -> Option<int> {
    match timestamp_fields(s) {
        Some((y, mo, d, h, mi)) => if valid_date_time(y, mo, d, h, mi) {
            Some(epoch_seconds(y, mo, d, h, mi))
        } else {
            None
        },
        None => None,
    }
}

/// Relies on chrono's `Utc.with_ymd_and_hms` (through `NaiveDate::from_ymd_opt`
/// and `and_hms_opt`), which gives a single instant for a valid date and
/// time and none otherwise, and on `DateTime::timestamp`, the seconds since
/// the Unix epoch of that instant.
#[verifier::external_body]
fn utc_timestamp(year: i32, month: u32, day: u32, hour: u32, minute: u32) -> (r: Option<i64>)
    requires
        0 <= year <= 9999,
    ensures
        r is Some <==> valid_date_time(year as int, month as int, day as int, hour as int, minute as int),
        r is Some ==> r->0 as int == epoch_seconds(year as int, month as int, day as int, hour as int, minute as int),
{
    chrono::Utc.with_ymd_and_hms(year, month, day, hour, minute, 0).single().map(|t| t.timestamp())
}

/// The length of the run of digits at `start`.
fn scan_digits(cs: &Vec<char>, start: usize) -> (n: usize)
    requires
        start <= cs@.len(),
    ensures
        n as int == digit_run(cs@, start as int),
        start + n <= cs@.len(),
{
    let mut i: usize = start;
    while i < cs.len() && '0' <= cs[i] && cs[i] <= '9'
        invariant
            start <= i <= cs@.len(),
            digit_run(cs@, start as int) == (i - start) + digit_run(cs@, i as int),
        decreases cs@.len() - i,
    {
        i = i + 1;
    }
    i - start
}

/// The value of the `n` digits at `start`.
fn digits_at(cs: &Vec<char>, start: usize, n: usize) -> (v: u32)
    requires
        n <= 4,
        start + n <= cs@.len(),
        forall|k: int| start <= k < start + n ==> is_digit(#[trigger] cs@[k]),
    ensures
        v as int == digits_value(cs@.subrange(start as int, start + n)),
        v < 10000,
{
    let len = cs.len();
    let mut v: u32 = 0;
    let mut k: usize = 0;
    while k < n
        invariant
            len == cs@.len(),
            n <= 4,
            start + n <= cs@.len(),
            forall|k: int| start <= k < start + n ==> is_digit(#[trigger] cs@[k]),
            k <= n,
            v as int == digits_value(cs@.subrange(start as int, start + k)),
            k == 0 ==> v == 0,
            k <= 1 ==> v < 10,
            k <= 2 ==> v < 100,
            k <= 3 ==> v < 1000,
            v < 10000,
        decreases n - k,
    {
        let c = cs[start + k];
        assert(is_digit(cs@[start + k]));
        assert(cs@.subrange(start as int, start + k + 1).drop_last() =~= cs@.subrange(
            start as int,
            start + k,
        ));
        v = v * 10 + (c as u32 - '0' as u32);
        k = k + 1;
    }
    v
}

/// A field of `lo` to `hi` digits at `start` followed by `sep`.
fn scan_field(cs: &Vec<char>, start: usize, lo: usize, hi: usize, sep: char) -> (r: Option<
    (u32, usize),
>)
    requires
        start <= cs@.len(),
        hi <= 4,
    ensures
        match r {
            Some((v, next)) => field(cs@, start as int, lo as int, hi as int, sep) == Some(
                (v as int, next as int),
            ),
            None => field(cs@, start as int, lo as int, hi as int, sep) is None,
        },
        match r {
            Some((v, next)) => v < 10000 && next <= cs@.len(),
            None => true,
        },
{
    let len = cs.len();
    let n = scan_digits(cs, start);
    if n < lo || n > hi || start + n >= len || cs[start + n] != sep {
        return None;
    }
    proof {
        lemma_run_is_digits(cs@, start as int);
    }
    Some((digits_at(cs, start, n), start + n + 1))
}

/// A field of `lo` to `hi` digits at `start` that ends the text.
fn scan_last_field(cs: &Vec<char>, start: usize, lo: usize, hi: usize) -> (r: Option<u32>)
    requires
        start <= cs@.len(),
        hi <= 4,
    ensures
        r is Some <==> last_field(cs@, start as int, lo as int, hi as int) is Some,
        r is Some ==> r->0 as int == last_field(cs@, start as int, lo as int, hi as int)->0,
        r is Some ==> r->0 < 10000,
{
    let len = cs.len();
    let n = scan_digits(cs, start);
    if n < lo || n > hi || start + n != len {
        return None;
    }
    proof {
        lemma_run_is_digits(cs@, start as int);
    }
    Some(digits_at(cs, start, n))
}

proof fn lemma_run_is_digits(s: Seq<char>, start: int)
    requires
        0 <= start,
    ensures
        forall|k: int| start <= k < start + digit_run(s, start) ==> is_digit(#[trigger] s[k]),
    decreases s.len() - start,
{
    if 0 <= start < s.len() && is_digit(s[start]) {
        lemma_run_is_digits(s, start + 1);
    }
}

/// Reads `YYYY-M-D H:MM` as a UTC instant, in seconds since the Unix epoch.
/// Text of any other shape, or naming no real date (month 13, February 30),
/// is a `MalformedTimestamp`.
pub fn parse_timestamp(text: &str) -> (r: Result<i64, StationError>)
    ensures
        r is Ok <==> timestamp_value(text@) is Some,
        r is Ok ==> r->Ok_0 as int == timestamp_value(text@)->0,
        r is Err ==> r->Err_0 == StationError::MalformedTimestamp,
{
    let cs = chars_of(text);
    let (y, i1) = match scan_field(&cs, 0, 4, 4, '-') {
        Some(f) => f,
        None => return Err(StationError::MalformedTimestamp),
    };
    let (mo, i2) = match scan_field(&cs, i1, 1, 2, '-') {
        Some(f) => f,
        None => return Err(StationError::MalformedTimestamp),
    };
    let (d, i3) = match scan_field(&cs, i2, 1, 2, ' ') {
        Some(f) => f,
        None => return Err(StationError::MalformedTimestamp),
    };
    let (h, i4) = match scan_field(&cs, i3, 1, 2, ':') {
        Some(f) => f,
        None => return Err(StationError::MalformedTimestamp),
    };
    let mi = match scan_last_field(&cs, i4, 1, 2) {
        Some(f) => f,
        None => return Err(StationError::MalformedTimestamp),
    };
    match utc_timestamp(y as i32, mo, d, h, mi) {
        Some(t) => Ok(t),
        None => Err(StationError::MalformedTimestamp),
    }
}

} // verus!
