//! Date arguments: `YYYY-MM-DD` (start of day, UTC) or a full
//! RFC 3339 instant, turned into epoch milliseconds.

use vstd::prelude::*;
use crate::json::rfc3339_millis_of;

verus! {

/// Is `y` a leap year of the Gregorian calendar?
pub open spec fn is_leap(y: int) -> bool {
    (y % 4 == 0 && y % 100 != 0) || y % 400 == 0
}

/// Days in month `m` of year `y`.
pub open spec fn days_in_month(y: int, m: int) -> int {
    if m == 2 {
        if is_leap(y) {
            29
        } else {
            28
        }
    } else if m == 4 || m == 6 || m == 9 || m == 11 {
        30
    } else {
        31
    }
}

/// Days from the epoch to the civil date `y-m-d` (valid Gregorian
/// dates of years 1 through 9999).
pub open spec fn days_from_civil(y: int, m: int, d: int) -> int {
    let yy = if m <= 2 {
        y - 1
    } else {
        y
    };
    let era = yy / 400;
    let yoe = yy - era * 400;
    let mp = (m + 9) % 12;
    let doy = (153 * mp + 2) / 5 + d - 1;
    let doe = yoe * 365 + yoe / 4 - yoe / 100 + doy;
    era * 146097 + doe - 719468
}

/// A well-formed `YYYY-MM-DD` with an in-range month and day.
pub open spec fn valid_ymd(y: int, m: int, d: int) -> bool {
    &&& 1 <= y <= 9999
    &&& 1 <= m <= 12
    &&& 1 <= d <= days_in_month(y, m)
}

/// The character is an ASCII digit.
pub open spec fn is_digit(c: char) -> bool {
    '0' <= c && c <= '9'
}

pub open spec fn digit_val(c: char) -> int {
    c as int - 48
}

/// `s` has the shape `YYYY-MM-DD`.
pub open spec fn ymd_shape(s: Seq<char>) -> bool {
    &&& s.len() == 10
    &&& is_digit(s[0]) && is_digit(s[1]) && is_digit(s[2]) && is_digit(s[3])
    &&& s[4] == '-'
    &&& is_digit(s[5]) && is_digit(s[6])
    &&& s[7] == '-'
    &&& is_digit(s[8]) && is_digit(s[9])
}

pub open spec fn ymd_year(s: Seq<char>) -> int {
    digit_val(s[0]) * 1000 + digit_val(s[1]) * 100 + digit_val(s[2]) * 10 + digit_val(s[3])
}

pub open spec fn ymd_month(s: Seq<char>) -> int {
    digit_val(s[5]) * 10 + digit_val(s[6])
}

pub open spec fn ymd_day(s: Seq<char>) -> int {
    digit_val(s[8]) * 10 + digit_val(s[9])
}

/// The meaning of a date argument: a full RFC 3339 instant, or a
/// plain date read as the start of that day in UTC; anything else is
/// rejected.
pub open spec fn date_arg_millis(s: Seq<char>) -> Option<i64> {
    match rfc3339_millis_of(s) {
        Some(v) => Some(v),
        None => if ymd_shape(s) && valid_ymd(ymd_year(s), ymd_month(s), ymd_day(s)) {
            Some((days_from_civil(ymd_year(s), ymd_month(s), ymd_day(s)) * 86400000) as i64)
        } else {
            None
        },
    }
}

fn digit_at(s: &str, i: usize) -> (r: Option<u32>)
    requires
        i < s@.len(),
    ensures
        r is Some <==> is_digit(s@[i as int]),
        r is Some ==> r.unwrap() == digit_val(s@[i as int]),
{
    let c = s.get_char(i);
    if '0' <= c && c <= '9' {
        Some((c as u32) - 48)
    } else {
        None
    }
}

/// Parse a date argument: RFC 3339, else `YYYY-MM-DD` at 00:00 UTC.
pub fn parse_date(s: &str) -> (r: Option<i64>)
    ensures
        r == date_arg_millis(s@),
{
    match crate::json::parse_rfc3339_millis(s) {
        Some(v) => {
            return Some(v);
        },
        None => {},
    }
    if s.unicode_len() != 10 {
        return None;
    }
    if s.get_char(4) != '-' || s.get_char(7) != '-' {
        return None;
    }
    let d0 = match digit_at(s, 0) {
        Some(v) => v,
        None => {
            return None;
        },
    };
    let d1 = match digit_at(s, 1) {
        Some(v) => v,
        None => {
            return None;
        },
    };
    let d2 = match digit_at(s, 2) {
        Some(v) => v,
        None => {
            return None;
        },
    };
    let d3 = match digit_at(s, 3) {
        Some(v) => v,
        None => {
            return None;
        },
    };
    let d5 = match digit_at(s, 5) {
        Some(v) => v,
        None => {
            return None;
        },
    };
    let d6 = match digit_at(s, 6) {
        Some(v) => v,
        None => {
            return None;
        },
    };
    let d8 = match digit_at(s, 8) {
        Some(v) => v,
        None => {
            return None;
        },
    };
    let d9 = match digit_at(s, 9) {
        Some(v) => v,
        None => {
            return None;
        },
    };
    let y: i64 = (d0 as i64) * 1000 + (d1 as i64) * 100 + (d2 as i64) * 10 + (d3 as i64);
    let m: i64 = (d5 as i64) * 10 + (d6 as i64);
    let d: i64 = (d8 as i64) * 10 + (d9 as i64);
    if y < 1 || m < 1 || m > 12 {
        return None;
    }
    let leap = (y % 4 == 0 && y % 100 != 0) || y % 400 == 0;
    let dim: i64 = if m == 2 {
        if leap {
            29
        } else {
            28
        }
    } else if m == 4 || m == 6 || m == 9 || m == 11 {
        30
    } else {
        31
    };
    if d < 1 || d > dim {
        return None;
    }
    let yy: i64 = if m <= 2 {
        y - 1
    } else {
        y
    };
    let era: i64 = yy / 400;
    let yoe: i64 = yy - era * 400;
    let mp: i64 = (m + 9) % 12;
    let doy: i64 = (153 * mp + 2) / 5 + d - 1;
    let doe: i64 = yoe * 365 + yoe / 4 - yoe / 100 + doy;
    let days: i64 = era * 146097 + doe - 719468;
    proof {
        assert(yy >= 0);
        assert(era == yy as int / 400);
        assert(mp == (m as int + 9) % 12);
        assert(doy == (153 * (mp as int) + 2) / 5 + d - 1);
        assert(days == days_from_civil(y as int, m as int, d as int));
    }
    Some(days * 86400000)
}

} // verus!
