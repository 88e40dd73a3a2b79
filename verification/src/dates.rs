//! Calendar dates and the store's native time representation.
//!
//! The store stamps each message with a signed count of nanoseconds
//! since 2001-01-01T00:00:00Z; the public interface of this crate
//! speaks Unix seconds (since 1970-01-01T00:00:00Z).  This module
//! holds the two epoch conversions.

use vstd::prelude::*;

verus! {

/// Seconds from the Unix epoch (1970-01-01T00:00:00Z) to the store
/// epoch (2001-01-01T00:00:00Z).
pub const STORE_EPOCH_UNIX: i64 = 978307200;

/// Nanoseconds in one second.
pub const NANOS_PER_SECOND: i64 = 1000000000;

/// Division truncated toward zero, as the machine divides.
pub open spec fn trunc_div(a: int, b: int) -> int {
    if a >= 0 {
        a / b
    } else {
        -((-a) / b)
    }
}

/// The Unix second in which a store timestamp lies.
pub open spec fn spec_store_ns_to_unix(ns: int) -> int {
    trunc_div(ns, NANOS_PER_SECOND as int) + STORE_EPOCH_UNIX as int
}

/// The store timestamp of a Unix second.
pub open spec fn spec_unix_to_store_ns(unix: int) -> int {
    (unix - STORE_EPOCH_UNIX as int) * (NANOS_PER_SECOND as int)
}

/// Whether a Unix second has a store representation within `i64`.
pub open spec fn unix_in_store_range(unix: int) -> bool {
    i64::MIN <= spec_unix_to_store_ns(unix) <= i64::MAX
}

/// Converts a store timestamp to the Unix second it lies in.
pub fn store_ns_to_unix(ns: i64) -> (unix: i64)
    ensures
        unix == spec_store_ns_to_unix(ns as int),
{
    if ns >= 0 {
        ns / NANOS_PER_SECOND + STORE_EPOCH_UNIX
    } else if ns == i64::MIN {
        proof {
            vstd::arithmetic::div_mod::lemma_fundamental_div_mod_converse(
                9223372036854775808,
                1000000000,
                9223372036,
                854775808,
            );
        }
        -9223372036 + STORE_EPOCH_UNIX
    } else {
        -((-ns) / NANOS_PER_SECOND) + STORE_EPOCH_UNIX
    }
}

/// Converts a Unix second to a store timestamp; `None` exactly when the
/// store cannot represent the second in its signed 64-bit nanosecond
/// count.
pub fn unix_to_store_ns(unix: i64) -> (r: Option<i64>)
    ensures
        match r {
            Some(ns) => unix_in_store_range(unix as int) && ns == spec_unix_to_store_ns(
                unix as int,
            ),
            None => !unix_in_store_range(unix as int),
        },
{
    if unix >= -8245064836 && unix <= 10201679236 {
        let diff: i64 = unix - STORE_EPOCH_UNIX;
        Some(diff * NANOS_PER_SECOND)
    } else {
        None
    }
}

/// Converting a Unix second to store time and back is the identity,
/// wherever the store can represent the second at all.
pub proof fn lemma_store_time_round_trip(unix: int)
    requires
        unix_in_store_range(unix),
    ensures
        spec_store_ns_to_unix(spec_unix_to_store_ns(unix)) == unix,
{
    let e = STORE_EPOCH_UNIX as int;
    let b = NANOS_PER_SECOND as int;
    let d = unix - e;
    if d >= 0 {
        vstd::arithmetic::div_mod::lemma_div_multiples_vanish(d, b);
    } else {
        assert(-(d * b) == (-d) * b) by (nonlinear_arith);
        vstd::arithmetic::div_mod::lemma_div_multiples_vanish(-d, b);
    }
}

/// Converting a store timestamp to a Unix second and back loses only
/// the sub-second part: the result differs from the original by less
/// than one second's worth of nanoseconds, toward zero.
pub proof fn lemma_store_time_truncation(ns: int)
    ensures
        (ns >= 0) ==> spec_unix_to_store_ns(spec_store_ns_to_unix(ns)) <= ns,
        (ns >= 0) ==> ns < spec_unix_to_store_ns(spec_store_ns_to_unix(ns)) + NANOS_PER_SECOND as int,
        (ns < 0) ==> spec_unix_to_store_ns(spec_store_ns_to_unix(ns)) - (NANOS_PER_SECOND as int) < ns,
        (ns < 0) ==> ns <= spec_unix_to_store_ns(spec_store_ns_to_unix(ns)),
{
    let b = NANOS_PER_SECOND as int;
    if ns >= 0 {
        vstd::arithmetic::div_mod::lemma_fundamental_div_mod(ns, b);
        vstd::arithmetic::div_mod::lemma_mod_bound(ns, b);
    } else {
        vstd::arithmetic::div_mod::lemma_fundamental_div_mod(-ns, b);
        vstd::arithmetic::div_mod::lemma_mod_bound(-ns, b);
        assert(-((-ns) / b) * b == -((-ns) / b * b)) by (nonlinear_arith);
    }
}

/// Whether a year is a leap year in the proleptic Gregorian calendar.
pub open spec fn spec_is_leap_year(y: int) -> bool {
    y % 4 == 0 && (y % 100 != 0 || y % 400 == 0)
}

pub fn is_leap_year(y: u32) -> (r: bool)
    ensures
        r == spec_is_leap_year(y as int),
{
    y % 4 == 0 && (y % 100 != 0 || y % 400 == 0)
}

/// The number of days in a month, counting months from 1.
pub open spec fn spec_days_in_month(y: int, m: int) -> int {
    if m == 2 {
        if spec_is_leap_year(y) {
            29
        } else {
            28
        }
    } else if m == 4 || m == 6 || m == 9 || m == 11 {
        30
    } else {
        31
    }
}

pub fn days_in_month(y: u32, m: u32) -> (r: u32)
    ensures
        r == spec_days_in_month(y as int, m as int),
{
    if m == 2 {
        if is_leap_year(y) {
            29
        } else {
            28
        }
    } else if m == 4 || m == 6 || m == 9 || m == 11 {
        30
    } else {
        31
    }
}

pub open spec fn spec_days_in_year(y: int) -> int {
    if spec_is_leap_year(y) {
        366
    } else {
        365
    }
}

/// Days from 1970-01-01 to January 1 of year `y`; negative for years
/// before 1970.
pub open spec fn spec_days_before_year(y: int) -> int
    decreases
            (if y >= 1970 {
                y - 1970
            } else {
                1970 - y
            }),
{
    if y == 1970 {
        0
    } else if y > 1970 {
        spec_days_before_year(y - 1) + spec_days_in_year(y - 1)
    } else {
        spec_days_before_year(y + 1) - spec_days_in_year(y)
    }
}

proof fn lemma_days_before_year_bounds(y: int)
    requires
        0 <= y <= 9999,
    ensures
        (y >= 1970) ==> 0 <= spec_days_before_year(y) <= 366 * (y - 1970),
        (y < 1970) ==> -366 * (1970 - y) <= spec_days_before_year(y) <= 0,
    decreases
            (if y >= 1970 {
                y - 1970
            } else {
                1970 - y
            }),
{
    if y > 1970 {
        lemma_days_before_year_bounds(y - 1);
    } else if y < 1970 {
        lemma_days_before_year_bounds(y + 1);
    }
}

fn days_before_year(y: u32) -> (r: i64)
    requires
        y <= 9999,
    ensures
        r == spec_days_before_year(y as int),
{
    if y >= 1970 {
        let mut i: u32 = 1970;
        let mut acc: i64 = 0;
        while i < y
            invariant
                1970 <= i <= y <= 9999,
                acc == spec_days_before_year(i as int),
                0 <= acc <= 366 * ((i - 1970) as int),
            decreases y - i,
        {
            if is_leap_year(i) {
                acc = acc + 366;
            } else {
                acc = acc + 365;
            }
            i = i + 1;
        }
        acc
    } else {
        let mut i: u32 = 1970;
        let mut acc: i64 = 0;
        while i > y
            invariant
                y <= i <= 1970,
                acc == spec_days_before_year(i as int),
                -366 * ((1970 - i) as int) <= acc <= 0,
            decreases i,
        {
            i = i - 1;
            if is_leap_year(i) {
                acc = acc - 366;
            } else {
                acc = acc - 365;
            }
        }
        acc
    }
}

/// Days from January 1 of year `y` to the first of month `m`.
pub open spec fn spec_days_before_month(y: int, m: int) -> int
    decreases m,
{
    if m <= 1 {
        0
    } else {
        spec_days_before_month(y, m - 1) + spec_days_in_month(y, m - 1)
    }
}

proof fn lemma_days_before_month_bounds(y: int, m: int)
    requires
        1 <= m <= 12,
    ensures
        0 <= spec_days_before_month(y, m) <= 31 * (m - 1),
    decreases m,
{
    if m > 1 {
        lemma_days_before_month_bounds(y, m - 1);
    }
}

fn days_before_month(y: u32, m: u32) -> (r: u32)
    requires
        1 <= m <= 12,
    ensures
        r == spec_days_before_month(y as int, m as int),
        r <= 366,
{
    let mut i: u32 = 1;
    let mut acc: u32 = 0;
    proof {
        lemma_days_before_month_bounds(y as int, m as int);
    }
    while i < m
        invariant
            1 <= i <= m <= 12,
            acc == spec_days_before_month(y as int, i as int),
            acc <= 31 * ((i - 1) as int),
        decreases m - i,
    {
        proof {
            lemma_days_before_month_bounds(y as int, i + 1);
        }
        acc = acc + days_in_month(y, i);
        i = i + 1;
    }
    acc
}

/// A calendar date of the query language: years 0 through 9999.
pub open spec fn spec_valid_date(y: int, m: int, d: int) -> bool {
    0 <= y <= 9999 && 1 <= m <= 12 && 1 <= d <= spec_days_in_month(y, m)
}

/// The Unix second of `y-m-d` at `second_of_day` past midnight UTC.
pub open spec fn spec_date_unix(y: int, m: int, d: int, second_of_day: int) -> int {
    (spec_days_before_year(y) + spec_days_before_month(y, m) + (d - 1)) * 86400 + second_of_day
}

/// Converts a calendar date and a time of day to Unix seconds.
pub fn date_to_unix(y: u32, m: u32, d: u32, second_of_day: u32) -> (r: i64)
    requires
        spec_valid_date(y as int, m as int, d as int),
        second_of_day < 86400,
    ensures
        r == spec_date_unix(y as int, m as int, d as int, second_of_day as int),
{
    proof {
        lemma_days_before_year_bounds(y as int);
    }
    let days: i64 = days_before_year(y) + days_before_month(y, m) as i64 + (d as i64 - 1);
    days * 86400 + second_of_day as i64
}

pub open spec fn spec_is_digit(b: u8) -> bool {
    48 <= b <= 57
}

pub open spec fn spec_digit(b: u8) -> int {
    b - 48
}

/// Whether a byte string has the shape `YYYY-MM-DD`, the one date
/// format the query language accepts.
pub open spec fn spec_date_format_ok(s: Seq<u8>) -> bool {
    &&& s.len() == 10
    &&& spec_is_digit(s[0])
    &&& spec_is_digit(s[1])
    &&& spec_is_digit(s[2])
    &&& spec_is_digit(s[3])
    &&& s[4] == 45u8
    &&& spec_is_digit(s[5])
    &&& spec_is_digit(s[6])
    &&& s[7] == 45u8
    &&& spec_is_digit(s[8])
    &&& spec_is_digit(s[9])
}

pub open spec fn spec_date_year(s: Seq<u8>) -> int {
    spec_digit(s[0]) * 1000 + spec_digit(s[1]) * 100 + spec_digit(s[2]) * 10 + spec_digit(s[3])
}

pub open spec fn spec_date_month(s: Seq<u8>) -> int {
    spec_digit(s[5]) * 10 + spec_digit(s[6])
}

pub open spec fn spec_date_day(s: Seq<u8>) -> int {
    spec_digit(s[8]) * 10 + spec_digit(s[9])
}

/// The calendar date written as `YYYY-MM-DD`, or `None` where the
/// bytes are not such a date.
pub open spec fn spec_parse_date(s: Seq<u8>) -> Option<(int, int, int)> {
    if spec_date_format_ok(s) && spec_valid_date(
        spec_date_year(s),
        spec_date_month(s),
        spec_date_day(s),
    ) {
        Some((spec_date_year(s), spec_date_month(s), spec_date_day(s)))
    } else {
        None
    }
}

fn digit_of(b: u8) -> (r: Option<u32>)
    ensures
        match r {
            Some(v) => spec_is_digit(b) && v == spec_digit(b),
            None => !spec_is_digit(b),
        },
{
    if 48 <= b && b <= 57 {
        Some((b - 48) as u32)
    } else {
        None
    }
}

/// Reads a `YYYY-MM-DD` calendar date.
pub fn parse_date(s: &[u8]) -> (r: Option<(u32, u32, u32)>)
    ensures
        match r {
            Some(t) => spec_parse_date(s@) == Some((t.0 as int, t.1 as int, t.2 as int)),
            None => spec_parse_date(s@) is None,
        },
{
    if s.len() != 10 {
        return None;
    }
    if s[4] != 45 || s[7] != 45 {
        return None;
    }
    let (d0, d1, d2, d3) = match (digit_of(s[0]), digit_of(s[1]), digit_of(s[2]), digit_of(s[3])) {
        (Some(a), Some(b), Some(c), Some(d)) => (a, b, c, d),
        _ => {
            return None;
        },
    };
    let (m0, m1) = match (digit_of(s[5]), digit_of(s[6])) {
        (Some(a), Some(b)) => (a, b),
        _ => {
            return None;
        },
    };
    let (e0, e1) = match (digit_of(s[8]), digit_of(s[9])) {
        (Some(a), Some(b)) => (a, b),
        _ => {
            return None;
        },
    };
    let y: u32 = d0 * 1000 + d1 * 100 + d2 * 10 + d3;
    let m: u32 = m0 * 10 + m1;
    let d: u32 = e0 * 10 + e1;
    if 1 <= m && m <= 12 && 1 <= d && d <= days_in_month(y, m) {
        Some((y, m, d))
    } else {
        None
    }
}

/// The store timestamp of a `YYYY-MM-DD` date at `second_of_day` past
/// midnight, or `None` where the bytes are not a date the store can
/// represent.
pub open spec fn spec_date_store_ns(s: Seq<u8>, second_of_day: int) -> Option<int> {
    match spec_parse_date(s) {
        Some(ymd) => {
            let u = spec_date_unix(ymd.0, ymd.1, ymd.2, second_of_day);
            if unix_in_store_range(u) {
                Some(spec_unix_to_store_ns(u))
            } else {
                None
            }
        },
        None => None,
    }
}

fn date_store_ns(s: &[u8], second_of_day: u32) -> (r: Option<i64>)
    requires
        second_of_day < 86400,
    ensures
        match r {
            Some(ns) => spec_date_store_ns(s@, second_of_day as int) == Some(ns as int),
            None => spec_date_store_ns(s@, second_of_day as int) is None,
        },
{
    match parse_date(s) {
        Some((y, m, d)) => {
            let unix = date_to_unix(y, m, d, second_of_day);
            unix_to_store_ns(unix)
        },
        None => None,
    }
}

/// Store timestamp at the start (00:00:00) of a `YYYY-MM-DD` date: the
/// lower date bound carries no time-of-day adjustment.
pub fn date_start_store_ns(s: &[u8]) -> (r: Option<i64>)
    ensures
        match r {
            Some(ns) => spec_date_store_ns(s@, 0) == Some(ns as int),
            None => spec_date_store_ns(s@, 0) is None,
        },
{
    date_store_ns(s, 0)
}

/// Store timestamp at the end (23:59:59) of a `YYYY-MM-DD` date: the
/// upper date bound covers the whole named day.
pub fn date_end_store_ns(s: &[u8]) -> (r: Option<i64>)
    ensures
        match r {
            Some(ns) => spec_date_store_ns(s@, 86399) == Some(ns as int),
            None => spec_date_store_ns(s@, 86399) is None,
        },
{
    date_store_ns(s, 86399)
}

} // verus!
