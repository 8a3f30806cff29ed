//! Deterministic UTC timestamps (ISO 8601 / RFC 3339): exact integer
//! arithmetic in seconds since the UNIX epoch, strict parsing, canonical
//! display with the trailing `Z`. Fractions of a second are accepted on
//! input and discarded.

use vstd::arithmetic::div_mod::*;
use vstd::prelude::*;
use vstd::utf8::*;

use crate::text;
use crate::text::{decimal_text, join2, join3, zero_fill};

verus! {

// ---------------------------------------------------------------------------
// The proleptic Gregorian calendar
// ---------------------------------------------------------------------------

/// Whether `y` is a leap year.
pub open spec fn leap(y: int) -> bool {
    (y % 4 == 0 && y % 100 != 0) || y % 400 == 0
}

/// The number of days of month `m` in year `y`.
pub open spec fn month_length(y: int, m: int) -> int {
    if m == 2 {
        if leap(y) {
            29
        } else {
            28
        }
    } else if m == 4 || m == 6 || m == 9 || m == 11 {
        30
    } else {
        31
    }
}

/// The number of days before month `m` in year `y`.
pub open spec fn days_before_month(y: int, m: int) -> int
    decreases m,
{
    if m <= 1 {
        0
    } else {
        days_before_month(y, m - 1) + month_length(y, m - 1)
    }
}

/// The number of days from 1 January of year 1 to 1 January of year `y`.
pub open spec fn days_before_year(y: int) -> int {
    365 * (y - 1) + (y - 1) / 4 - (y - 1) / 100 + (y - 1) / 400
}

/// A date of the calendar.
pub open spec fn is_date(y: int, m: int, d: int) -> bool {
    1 <= m <= 12 && 1 <= d <= month_length(y, m)
}

/// The number of days from 1970-01-01 to the given date.
pub open spec fn day_number(y: int, m: int, d: int) -> int {
    days_before_year(y) + days_before_month(y, m) + d - 1 - 719_162
}

/// The date of a day number.
pub open spec fn date_of(z: int) -> (int, int, int) {
    choose|t: (int, int, int)|
        #![trigger is_date(t.0, t.1, t.2)]
        is_date(t.0, t.1, t.2) && day_number(t.0, t.1, t.2) == z
}

proof fn lemma_month_table(y: int)
    ensures
        days_before_month(y, 1) == 0,
        days_before_month(y, 2) == 31,
        days_before_month(y, 3) == 31 + month_length(y, 2),
        days_before_month(y, 4) == 62 + month_length(y, 2),
        days_before_month(y, 5) == 92 + month_length(y, 2),
        days_before_month(y, 6) == 123 + month_length(y, 2),
        days_before_month(y, 7) == 153 + month_length(y, 2),
        days_before_month(y, 8) == 184 + month_length(y, 2),
        days_before_month(y, 9) == 215 + month_length(y, 2),
        days_before_month(y, 10) == 245 + month_length(y, 2),
        days_before_month(y, 11) == 276 + month_length(y, 2),
        days_before_month(y, 12) == 306 + month_length(y, 2),
{
    reveal_with_fuel(days_before_month, 13);
}

proof fn lemma_year_step(y: int)
    ensures
        days_before_year(y + 1) == days_before_year(y) + 365 + (if leap(y) {
            1int
        } else {
            0
        }),
{
    assert(y / 4 - (y - 1) / 4 == if y % 4 == 0 {
        1int
    } else {
        0
    });
    assert(y / 100 - (y - 1) / 100 == if y % 100 == 0 {
        1int
    } else {
        0
    });
    assert(y / 400 - (y - 1) / 400 == if y % 400 == 0 {
        1int
    } else {
        0
    });
}

proof fn lemma_year_grows(a: int, b: int)
    requires
        a < b,
    ensures
        days_before_year(a + 1) <= days_before_year(b),
    decreases b - a,
{
    if a + 1 < b {
        lemma_year_grows(a, b - 1);
        lemma_year_step(b - 1);
    }
}

proof fn lemma_within_year(y: int, m: int, d: int)
    requires
        is_date(y, m, d),
    ensures
        0 <= days_before_month(y, m) + d - 1,
        days_before_year(y) + days_before_month(y, m) + d - 1 < days_before_year(y + 1),
{
    lemma_month_table(y);
    lemma_year_step(y);
}

/// Two dates of the same day number are the same date.
pub proof fn law_day_number_injective(
    y1: int,
    m1: int,
    d1: int,
    y2: int,
    m2: int,
    d2: int,
)
    requires
        is_date(y1, m1, d1),
        is_date(y2, m2, d2),
        day_number(y1, m1, d1) == day_number(y2, m2, d2),
    ensures
        y1 == y2 && m1 == m2 && d1 == d2,
{
    lemma_within_year(y1, m1, d1);
    lemma_within_year(y2, m2, d2);
    if y1 < y2 {
        lemma_year_grows(y1, y2);
    }
    if y2 < y1 {
        lemma_year_grows(y2, y1);
    }
    lemma_month_table(y1);
}

/// A date is the date of its own day number.
pub proof fn law_date_of_day_number(y: int, m: int, d: int)
    requires
        is_date(y, m, d),
    ensures
        date_of(day_number(y, m, d)) == (y, m, d),
{
    let t = (y, m, d);
    assert(is_date(t.0, t.1, t.2) && day_number(t.0, t.1, t.2) == day_number(y, m, d));
    let r = date_of(day_number(y, m, d));
    law_day_number_injective(r.0, r.1, r.2, y, m, d);
}

fn is_leap_year(y: i64) -> (r: bool)
    requires
        0 <= y <= 9_999,
    ensures
        r == leap(y as int),
{
    (y % 4 == 0 && y % 100 != 0) || y % 400 == 0
}

fn days_in_month(y: i64, m: i64) -> (r: i64)
    requires
        0 <= y <= 9_999,
        1 <= m <= 12,
    ensures
        r == month_length(y as int, m as int),
{
    if m == 2 {
        if is_leap_year(y) {
            29
        } else {
            28
        }
    } else if m == 4 || m == 6 || m == 9 || m == 11 {
        30
    } else {
        31
    }
}

/// Day number of a date, counted in 400-year eras of years that begin in
/// March.
fn days_from_civil(y: i64, m: i64, d: i64) -> (r: i64)
    requires
        0 <= y <= 9_999,
        is_date(y as int, m as int, d as int),
    ensures
        r == day_number(y as int, m as int, d as int),
        -800_000 <= r <= 4_000_000,
{
    let sy: i64 = if m <= 2 {
        y - 1
    } else {
        y
    };
    let era: i64 = (if sy >= 0 {
        sy
    } else {
        sy - 399
    }) / 400;
    let yoe: i64 = sy - era * 400;
    let mp: i64 = if m > 2 {
        m - 3
    } else {
        m + 9
    };
    let doy: i64 = (153 * mp + 2) / 5 + d - 1;
    let doe: i64 = yoe * 365 + yoe / 4 - yoe / 100 + doy;
    proof {
        lemma_month_table(y as int);
        lemma_year_step(y as int);
        assert(0 <= yoe < 400);
        assert(sy as int / 4 == 100 * era + yoe as int / 4);
        assert(sy as int / 100 == 4 * era + yoe as int / 100);
        assert(sy as int / 400 == era);
        assert(days_before_year(sy as int + 1) == 146_097 * era + 365 * yoe + yoe as int / 4
            - yoe as int / 100);
    }
    era * 146_097 + doe - 719_468
}

proof fn lemma_era_year(era: int, c: int, q: int, a: int)
    requires
        0 <= c <= 3,
        0 <= q <= 24,
        0 <= a <= 3,
    ensures
        days_before_year(400 * era + 100 * c + 4 * q + a + 1) == 146_097 * era + 36_524 * c + 1_461
            * q + 365 * a,
{
    let y = 400 * era + 100 * c + 4 * q + a;
    assert(y / 4 == 100 * era + 25 * c + q);
    assert(y / 100 == 4 * era + c);
    assert(y / 400 == era);
}

/// The first day of month `mp` of a year that begins in March.
spec fn march_start(mp: int) -> int {
    (153 * mp + 2) / 5
}

proof fn lemma_march_month(doy: int)
    requires
        0 <= doy <= 365,
    ensures
        0 <= (5 * doy + 2) / 153 <= 11,
        march_start((5 * doy + 2) / 153) <= doy < march_start((5 * doy + 2) / 153 + 1),
{
}

proof fn lemma_march_table()
    ensures
        march_start(0) == 0,
        march_start(1) == 31,
        march_start(2) == 61,
        march_start(3) == 92,
        march_start(4) == 122,
        march_start(5) == 153,
        march_start(6) == 184,
        march_start(7) == 214,
        march_start(8) == 245,
        march_start(9) == 275,
        march_start(10) == 306,
        march_start(11) == 337,
        march_start(12) == 367,
{
}

proof fn lemma_march_leap(era: int, c: int, q: int)
    requires
        0 <= c <= 3,
        0 <= q <= 24,
        q == 24 ==> c == 3,
    ensures
        leap(400 * era + 100 * c + 4 * q + 4),
{
    let y = 400 * era + 100 * c + 4 * q + 4;
    if q == 24 {
        lemma_fundamental_div_mod_converse_mod(y, 400, era + 1, 0);
    } else {
        lemma_fundamental_div_mod_converse_mod(y, 4, 100 * era + 25 * c + q + 1, 0);
        lemma_fundamental_div_mod_converse_mod(y, 100, 4 * era + c, 4 * q + 4);
    }
}

proof fn lemma_march_date(era: int, c: int, q: int, a: int, doy: int, y: int, m: int, d: int)
    requires
        0 <= c <= 3,
        0 <= q <= 24,
        0 <= a <= 3,
        0 <= doy <= 365,
        doy == 365 ==> a == 3 && (q == 24 ==> c == 3),
        ({
            let mp = (5 * doy + 2) / 153;
            &&& m == if mp < 10 {
                mp + 3
            } else {
                mp - 9
            }
            &&& d == doy - march_start(mp) + 1
            &&& y == 400 * era + 100 * c + 4 * q + a + (if m <= 2 {
                1int
            } else {
                0
            })
        }),
    ensures
        is_date(y, m, d),
        day_number(y, m, d) == 146_097 * era + 36_524 * c + 1_461 * q + 365 * a + doy - 719_468,
{
    let mp = (5 * doy + 2) / 153;
    lemma_march_month(doy);
    lemma_march_table();
    lemma_month_table(y);
    lemma_year_step(y);
    lemma_era_year(era, c, q, a);
    if doy == 365 {
        lemma_march_leap(era, c, q);
    }
    if mp == 0 {
    } else if mp == 1 {
    } else if mp == 2 {
    } else if mp == 3 {
    } else if mp == 4 {
    } else if mp == 5 {
    } else if mp == 6 {
    } else if mp == 7 {
    } else if mp == 8 {
    } else if mp == 9 {
    } else if mp == 10 {
    } else {
        assert(mp == 11);
    }
}

/// The date of a day number, counted in 400-year eras of years that begin
/// in March.
pub fn civil_from_days(z: i64) -> (r: (i64, u32, u32))
    requires
        z <= i64::MAX - 719_468,
    ensures
        is_date(r.0 as int, r.1 as int, r.2 as int),
        day_number(r.0 as int, r.1 as int, r.2 as int) == z,
        (r.0 as int, r.1 as int, r.2 as int) == date_of(z as int),
{
    let w: i64 = z + 719_468;
    let era: i64 = (if w >= 0 {
        w
    } else {
        w - 146_096
    }) / 146_097;
    let doe: i64 = w - era * 146_097;
    assert(0 <= doe < 146_097);
    let c: i64 = if doe / 36_524 > 3 {
        3
    } else {
        doe / 36_524
    };
    let r: i64 = doe - 36_524 * c;
    let q: i64 = r / 1_461;
    let s: i64 = r - 1_461 * q;
    let a: i64 = if s / 365 > 3 {
        3
    } else {
        s / 365
    };
    let doy: i64 = s - 365 * a;
    let mp: i64 = (5 * doy + 2) / 153;
    let d: i64 = doy - (153 * mp + 2) / 5 + 1;
    let m: i64 = if mp < 10 {
        mp + 3
    } else {
        mp - 9
    };
    let sy: i64 = 100 * c + 4 * q + a + era * 400;
    let y: i64 = if m <= 2 {
        sy + 1
    } else {
        sy
    };
    proof {
        lemma_march_date(
            era as int,
            c as int,
            q as int,
            a as int,
            doy as int,
            y as int,
            m as int,
            d as int,
        );
        law_date_of_day_number(y as int, m as int, d as int);
    }
    (y, m as u32, d as u32)
}

// ---------------------------------------------------------------------------
// Timestamps
// ---------------------------------------------------------------------------

/// Error returned for unparseable timestamps.
#[derive(Debug, Clone, PartialEq, Eq)]
pub struct TimeParseError(pub String);

/// The message of a refusal of `input`.
pub open spec fn refusal(input: Seq<char>) -> Seq<char> {
    "invalid timestamp `"@ + input + "` (expected RFC 3339 UTC)"@
}

impl TimeParseError {
    /// The message for people.
    pub fn to_string(&self) -> (r: String)
        ensures
            r@ == refusal(self.0@),
    {
        join3("invalid timestamp `", self.0.as_str(), "` (expected RFC 3339 UTC)")
    }
}

/// Seconds since the UNIX epoch, UTC only.
#[derive(Debug, Clone, Copy, PartialEq, Eq, PartialOrd, Ord, Hash, Default, Structural)]
pub struct Timestamp {
    pub secs: i64,
}

impl DeepView for Timestamp {
    type V = Timestamp;

    open spec fn deep_view(&self) -> Timestamp {
        *self
    }
}

/// The value of the `len` decimal digits of `b` from `pos`.
pub open spec fn digits_at(b: Seq<u8>, pos: int, len: nat) -> Option<int>
    decreases len,
{
    if pos < 0 || pos + len > b.len() {
        None
    } else if len == 0 {
        Some(0)
    } else {
        let c = b[pos + len - 1];
        match digits_at(b, pos, (len - 1) as nat) {
            Some(v) => if 48 <= c <= 57 {
                Some(10 * v + (c - 48))
            } else {
                None
            },
            None => None,
        }
    }
}

/// The end of the run of decimal digits of `b` from `pos`.
pub open spec fn digits_end(b: Seq<u8>, pos: int) -> int
    decreases b.len() - pos,
{
    if 0 <= pos < b.len() && 48 <= b[pos] <= 57 {
        digits_end(b, pos + 1)
    } else {
        pos
    }
}

/// The day number of the date that `b` starts with.
pub open spec fn date_part(b: Seq<u8>) -> Option<int> {
    match (digits_at(b, 0, 4), digits_at(b, 5, 2), digits_at(b, 8, 2)) {
        (Some(y), Some(m), Some(d)) => if b[4] == 45 && b[7] == 45 && is_date(y, m, d) {
            Some(day_number(y, m, d))
        } else {
            None
        },
        _ => None,
    }
}

/// The second of the day after the date, and where the clock time ends:
/// none at all, or `T` (`t`, a space), `hh:mm:ss` and a fraction.
pub open spec fn clock_part(b: Seq<u8>) -> Option<(int, int)> {
    if b.len() > 10 && (b[10] == 84 || b[10] == 116 || b[10] == 32) {
        match (digits_at(b, 11, 2), digits_at(b, 14, 2), digits_at(b, 17, 2)) {
            (Some(h), Some(m), Some(s)) => if b[13] == 58 && b[16] == 58 && h <= 23 && m <= 59
                && s <= 59 {
                let end = if b.len() > 19 && b[19] == 46 {
                    digits_end(b, 20)
                } else {
                    19
                };
                Some((3600 * h + 60 * m + s, end))
            } else {
                None
            },
            _ => None,
        }
    } else {
        Some((0, 10))
    }
}

/// The offset from UTC in seconds that stands at `pos` and ends `b`:
/// nothing, `Z` (`z`), or a sign with `hh:mm` or `hhmm`.
pub open spec fn zone_part(b: Seq<u8>, pos: int) -> Option<int> {
    if pos >= b.len() {
        Some(0)
    } else if b[pos] == 90 || b[pos] == 122 {
        if pos + 1 == b.len() {
            Some(0)
        } else {
            None
        }
    } else if b[pos] == 43 || b[pos] == 45 {
        let minutes = if pos + 3 < b.len() && b[pos + 3] == 58 {
            pos + 4
        } else {
            pos + 3
        };
        match (digits_at(b, pos + 1, 2), digits_at(b, minutes, 2)) {
            (Some(h), Some(m)) => if h <= 23 && m <= 59 && minutes + 2 == b.len() {
                if b[pos] == 45 {
                    Some(-(3600 * h + 60 * m))
                } else {
                    Some(3600 * h + 60 * m)
                }
            } else {
                None
            },
            _ => None,
        }
    } else {
        None
    }
}

/// The seconds since the epoch that a text denotes.
pub open spec fn parsed(input: Seq<char>) -> Option<int> {
    parsed_bytes(encode_utf8(input))
}

/// The seconds since the epoch that the bytes of a text denote.
pub open spec fn parsed_bytes(b: Seq<u8>) -> Option<int> {
    match (date_part(b), clock_part(b)) {
        (Some(day), Some((second, pos))) => match zone_part(b, pos) {
            Some(offset) => Some(86_400 * day + second - offset),
            None => None,
        },
        _ => None,
    }
}

/// Two digits.
pub open spec fn two_digits(n: int) -> Seq<char> {
    seq![text::digit_char(n / 10), text::digit_char(n % 10)]
}

/// A year, filled with zeros to a width of four, the sign counted.
pub open spec fn year_text(y: int) -> Seq<char> {
    if y < 0 {
        seq!['-'] + text::zero_filled(text::decimal((-y) as nat), 3)
    } else {
        text::zero_filled(text::decimal(y as nat), 4)
    }
}

/// The canonical text of the instant `secs`: `YYYY-MM-DDThh:mm:ssZ`.
pub open spec fn stamp(secs: int) -> Seq<char> {
    let (y, m, d) = date_of(secs / 86_400);
    let s = secs % 86_400;
    year_text(y) + seq!['-'] + two_digits(m) + seq!['-'] + two_digits(d) + seq!['T'] + two_digits(
        s / 3600,
    ) + seq![':'] + two_digits(s % 3600 / 60) + seq![':'] + two_digits(s % 60) + seq!['Z']
}

/// The instants whose year has four digits: from 0000-01-01T00:00:00Z up
/// to the end of 9999-12-31.
pub open spec fn four_digit_year(secs: int) -> bool {
    0 <= date_of(secs / 86_400).0 <= 9_999
}

fn digits(b: &[u8], pos: usize, len: usize) -> (r: Option<i64>)
    requires
        len <= 4,
    ensures
        r is Some <==> digits_at(b@, pos as int, len as nat) is Some,
        r is Some ==> r->0 == digits_at(b@, pos as int, len as nat)->0 && 0 <= r->0 <= 9_999 && (len
            == 2 ==> r->0 <= 99) && pos + len <= b@.len(),
{
    let n: usize = b.len();
    if len > n || pos > n - len {
        return None;
    }
    let mut v: i64 = 0;
    let mut k: usize = 0;
    while k < len
        invariant
            k <= len <= 4,
            pos + len <= n == b@.len(),
            digits_at(b@, pos as int, k as nat) == Some(v as int),
            k == 0 ==> v == 0,
            k == 1 ==> 0 <= v <= 9,
            k == 2 ==> 0 <= v <= 99,
            k == 3 ==> 0 <= v <= 999,
            k == 4 ==> 0 <= v <= 9_999,
        decreases len - k,
    {
        let c: u8 = b[pos + k];
        if c < 48 || c > 57 {
            proof {
                assert(digits_at(b@, pos as int, (k + 1) as nat) is None);
                lemma_digits_prefix(b@, pos as int, (k + 1) as nat, len as nat);
            }
            return None;
        }
        v = v * 10 + (c - 48) as i64;
        k = k + 1;
    }
    Some(v)
}

proof fn lemma_digits_prefix(b: Seq<u8>, pos: int, k: nat, len: nat)
    requires
        k <= len,
        digits_at(b, pos, k) is None,
    ensures
        digits_at(b, pos, len) is None,
    decreases len - k,
{
    if k < len {
        lemma_digits_prefix(b, pos, k, (len - 1) as nat);
    }
}

proof fn lemma_date_exists(z: int)
    ensures
        is_date(date_of(z).0, date_of(z).1, date_of(z).2),
        day_number(date_of(z).0, date_of(z).1, date_of(z).2) == z,
{
    let w = z + 719_468;
    let era = w / 146_097;
    let doe = w % 146_097;
    let c = if doe / 36_524 > 3 {
        3
    } else {
        doe / 36_524
    };
    let r = doe - 36_524 * c;
    let q = r / 1_461;
    let s = r - 1_461 * q;
    let a = if s / 365 > 3 {
        3
    } else {
        s / 365
    };
    let doy = s - 365 * a;
    let mp = (5 * doy + 2) / 153;
    let d = doy - march_start(mp) + 1;
    let m = if mp < 10 {
        mp + 3
    } else {
        mp - 9
    };
    let y = 400 * era + 100 * c + 4 * q + a + (if m <= 2 {
        1int
    } else {
        0
    });
    lemma_march_date(era, c, q, a, doy, y, m, d);
    let t = (y, m, d);
    assert(is_date(t.0, t.1, t.2) && day_number(t.0, t.1, t.2) == z);
}

proof fn lemma_four_digits(y: int)
    requires
        0 <= y <= 9_999,
    ensures
        year_text(y) == seq![
            text::digit_char(y / 1000),
            text::digit_char(y / 100 % 10),
            text::digit_char(y / 10 % 10),
            text::digit_char(y % 10),
        ],
{
    reveal_with_fuel(text::decimal, 5);
    reveal_with_fuel(text::zero_filled, 5);
    let t = text::decimal(y as nat);
    if y < 10 {
        assert(t =~= seq![text::digit_char(y)]);
    } else if y < 100 {
        assert(t =~= seq![text::digit_char(y / 10), text::digit_char(y % 10)]);
    } else if y < 1000 {
        assert(y / 10 / 10 == y / 100);
        assert(t =~= seq![
            text::digit_char(y / 100),
            text::digit_char(y / 10 % 10),
            text::digit_char(y % 10),
        ]);
    } else {
        assert(y / 10 / 10 == y / 100);
        assert(y / 10 / 10 / 10 == y / 1000);
        assert(t =~= seq![
            text::digit_char(y / 1000),
            text::digit_char(y / 100 % 10),
            text::digit_char(y / 10 % 10),
            text::digit_char(y % 10),
        ]);
    }
    assert(year_text(y) =~= seq![
        text::digit_char(y / 1000),
        text::digit_char(y / 100 % 10),
        text::digit_char(y / 10 % 10),
        text::digit_char(y % 10),
    ]);
}

/// The hour, the minute and the second of an instant.
pub open spec fn clock_of(secs: int) -> (int, int, int) {
    let s = secs % 86_400;
    (s / 3600, s % 3600 / 60, s % 60)
}

#[verifier::spinoff_prover]
proof fn lemma_shaped_reads(s: Seq<char>, date: (int, int, int), clock: (int, int, int))
    requires
        shaped(s, date, clock),
        is_date(date.0, date.1, date.2),
        0 <= date.0 <= 9_999,
        0 <= clock.0 <= 23,
        0 <= clock.1 <= 59,
        0 <= clock.2 <= 59,
    ensures
        parsed(s) == Some(
            86_400 * day_number(date.0, date.1, date.2) + 3600 * clock.0 + 60 * clock.1 + clock.2,
        ),
{
    assert forall|i: int| 0 <= i < 20 implies '\0' <= #[trigger] s[i] <= '\u{7f}' by {
        lemma_shaped_chars(s, date, clock, i);
    }
    is_ascii_chars_encode_utf8(s);
    let b = encode_utf8(s);
    assert(b.len() == 20);
    assert forall|i: int| 0 <= i < 20 implies #[trigger] b[i] == s[i] as u8 by {}
    lemma_read_four(b, 0, date.0);
    lemma_read_two(b, 5, date.1);
    lemma_read_two(b, 8, date.2);
    lemma_read_two(b, 11, clock.0);
    lemma_read_two(b, 14, clock.1);
    lemma_read_two(b, 17, clock.2);
    assert(b[4] == 45 && b[7] == 45 && b[10] == 84 && b[13] == 58 && b[16] == 58 && b[19] == 90);
}

/// The canonical text of an instant denotes that instant, for years of
/// four digits.
#[verifier::spinoff_prover]
pub proof fn law_stamp_round_trip(secs: int)
    requires
        four_digit_year(secs),
    ensures
        parsed(stamp(secs)) == Some(secs),
{
    let date = date_of(secs / 86_400);
    let clock = clock_of(secs);
    lemma_shaped(secs);
    lemma_date_exists(secs / 86_400);
    lemma_clock_bounds(secs);
    lemma_clock_total(secs);
    lemma_shaped_reads(stamp(secs), date, clock);
}

/// Day and clock time make up the instant.
proof fn lemma_clock_total(secs: int)
    ensures
        secs == 86_400 * (secs / 86_400) + 3600 * clock_of(secs).0 + 60 * clock_of(secs).1
            + clock_of(secs).2,
{
    let s = secs % 86_400;
    assert(s == 3600 * (s / 3600) + s % 3600);
    assert(s % 3600 == 60 * (s % 3600 / 60) + s % 60);
}

proof fn lemma_read_two(b: Seq<u8>, pos: int, n: int)
    requires
        0 <= n <= 99,
        0 <= pos,
        pos + 2 <= b.len(),
        b[pos] == text::digit_char(n / 10) as u8,
        b[pos + 1] == text::digit_char(n % 10) as u8,
    ensures
        digits_at(b, pos, 2) == Some(n),
{
    reveal_with_fuel(digits_at, 3);
}

proof fn lemma_read_four(b: Seq<u8>, pos: int, n: int)
    requires
        0 <= n <= 9_999,
        0 <= pos,
        pos + 4 <= b.len(),
        b[pos] == text::digit_char(n / 1000) as u8,
        b[pos + 1] == text::digit_char(n / 100 % 10) as u8,
        b[pos + 2] == text::digit_char(n / 10 % 10) as u8,
        b[pos + 3] == text::digit_char(n % 10) as u8,
    ensures
        digits_at(b, pos, 4) == Some(n),
{
    reveal_with_fuel(digits_at, 5);
    let d = b[pos] - 48;
    assert(digits_at(b, pos, 1) == Some(d));
    assert(digits_at(b, pos, 2) == Some(n / 100));
    assert(digits_at(b, pos, 3) == Some(n / 10));
}

fn two_digit_text(n: i64) -> (r: String)
    requires
        0 <= n <= 99,
    ensures
        r@ == two_digits(n as int),
{
    let mut out = String::new();
    out.push((48 + (n / 10) as u8) as char);
    out.push((48 + (n % 10) as u8) as char);
    assert(out@ =~= two_digits(n as int));
    out
}

fn year_to_text(y: i64) -> (r: String)
    requires
        -1_000_000_000_000_000 <= y,
    ensures
        r@ == year_text(y as int),
{
    if y < 0 {
        let mut out = String::new();
        out.push('-');
        assert(out@ =~= seq!['-']);
        join2(out.as_str(), zero_fill(decimal_text((0 - y) as u64).as_str(), 3).as_str())
    } else {
        zero_fill(decimal_text(y as u64).as_str(), 4)
    }
}

/// What a wall-clock reading means: seconds after the epoch, or seconds
/// before it.
pub open spec fn clock_secs(reading: Result<u64, u64>) -> i64 {
    match reading {
        Ok(after) => after as i64,
        Err(before) => 0i64.wrapping_sub(before as i64),
    }
}

#[verifier::external_type_specification]
#[verifier::external_body]
pub struct ExSystemTime(std::time::SystemTime);

#[verifier::external_type_specification]
#[verifier::external_body]
pub struct ExSystemTimeError(std::time::SystemTimeError);

/// `SystemTime::now` reads the wall clock; nothing is claimed of the
/// reading.
pub assume_specification[ std::time::SystemTime::now ]() -> (r: std::time::SystemTime)
;

/// `SystemTime::duration_since` measures from an earlier instant, or says
/// by how much the instant was later; nothing is claimed of the outcome.
pub assume_specification[ std::time::SystemTime::duration_since ](
    s: &std::time::SystemTime,
    earlier: std::time::SystemTime,
) -> (r: Result<std::time::Duration, std::time::SystemTimeError>)
;

/// `SystemTimeError::duration` is the distance by which the second instant
/// was later; nothing is claimed of it.
pub assume_specification[ std::time::SystemTimeError::duration ](
    e: &std::time::SystemTimeError,
) -> (r: std::time::Duration)
;

/// `Duration::as_secs` is the number of whole seconds; nothing is claimed
/// of it.
pub assume_specification[ std::time::Duration::as_secs ](d: &std::time::Duration) -> (r: u64)
;

/// `SystemTime::UNIX_EPOCH`: the instant that wall-clock readings are
/// counted from; nothing is claimed of it.
#[verifier::external_body]
fn epoch_instant() -> (r: std::time::SystemTime)
{
    std::time::SystemTime::UNIX_EPOCH
}

/// The seconds that are read off a measured span: those of the span, or
/// those of the span by which the clock stands before the epoch.
pub open spec fn counted(
    span: Result<std::time::Duration, std::time::SystemTimeError>,
    reading: Result<u64, u64>,
) -> bool {
    match span {
        Ok(d) => reading is Ok && call_ensures(
            std::time::Duration::as_secs,
            (&d,),
            reading->Ok_0,
        ),
        Err(e) => reading is Err && exists|d: std::time::Duration| #[trigger]
            call_ensures(std::time::SystemTimeError::duration, (&e,), d) && call_ensures(
                std::time::Duration::as_secs,
                (&d,),
                reading->Err_0,
            ),
    }
}

/// The reading is one of the wall clock: its time, measured from the epoch,
/// in whole seconds.
pub closed spec fn clock_read(reading: Result<u64, u64>) -> bool {
    exists|
        t: std::time::SystemTime,
        since: std::time::SystemTime,
        span: Result<std::time::Duration, std::time::SystemTimeError>,
    |
        {
            &&& call_ensures(std::time::SystemTime::now, (), t)
            &&& call_ensures(epoch_instant, (), since)
            &&& #[trigger] call_ensures(
                std::time::SystemTime::duration_since,
                (&t, since),
                span,
            )
            &&& counted(span, reading)
        }
}

impl Timestamp {
    /// The epoch itself.
    pub fn unix_epoch() -> (r: Timestamp)
        ensures
            r.secs == 0,
    {
        Timestamp { secs: 0 }
    }

    /// The instant `secs` seconds after the epoch.
    pub fn from_secs(secs: i64) -> (r: Timestamp)
        ensures
            r.secs == secs,
    {
        Timestamp { secs }
    }

    /// The instant of a wall-clock reading.
    pub fn from_clock(reading: Result<u64, u64>) -> (r: Timestamp)
        ensures
            r.secs == clock_secs(reading),
    {
        match reading {
            Ok(after) => Timestamp { secs: after as i64 },
            Err(before) => Timestamp { secs: 0i64.wrapping_sub(before as i64) },
        }
    }

    /// Current wall-clock time: the instant of a reading of the clock.
    pub fn now() -> (r: Timestamp)
        ensures
            exists|reading: Result<u64, u64>| #[trigger]
                clock_read(reading) && r.secs == clock_secs(reading),
    {
        let t = std::time::SystemTime::now();
        let since = epoch_instant();
        let span = t.duration_since(since);
        let ghost measured = span;
        let reading: Result<u64, u64> = match span {
            Ok(d) => Ok(d.as_secs()),
            Err(e) => {
                let d = e.duration();
                Err(d.as_secs())
            },
        };
        assert(counted(measured, reading));
        assert(call_ensures(std::time::SystemTime::duration_since, (&t, since), measured));
        assert(clock_read(reading));
        Timestamp::from_clock(reading)
    }

    /// Parse an RFC 3339 text; a date alone is its midnight, a missing
    /// zone is UTC.
    pub fn parse(input: &str) -> (r: Result<Timestamp, TimeParseError>)
        ensures
            match r {
                Ok(t) => parsed(input@) == Some(t.secs as int),
                Err(e) => parsed(input@) is None && e.0@ == input@,
            },
    {
        match parse_bytes(input.as_bytes()) {
            Some(secs) => Ok(Timestamp { secs }),
            None => Err(TimeParseError(input.to_owned())),
        }
    }

    /// The canonical text.
    pub fn to_string(&self) -> (r: String)
        ensures
            r@ == stamp(self.secs as int),
    {
        let secs: i64 = self.secs;
        let days: i64 = if secs >= 0 {
            secs / 86_400
        } else {
            (secs + 1) / 86_400 - 1
        };
        let rem: i64 = if secs >= 0 {
            secs % 86_400
        } else {
            (secs - (days + 1) * 86_400) + 86_400
        };
        assert(days == secs as int / 86_400);
        assert(rem == secs as int % 86_400);
        let (year, month, day) = civil_from_days(days);
        proof {
            assert(1 <= month <= 12 && 1 <= day <= 31);
            lemma_year_bound(year as int, month as int, day as int);
        }
        let mut out = year_to_text(year);
        out.push('-');
        out.append(two_digit_text(month as i64).as_str());
        out.push('-');
        out.append(two_digit_text(day as i64).as_str());
        out.push('T');
        out.append(two_digit_text(rem / 3_600).as_str());
        out.push(':');
        out.append(two_digit_text((rem % 3_600) / 60).as_str());
        out.push(':');
        out.append(two_digit_text(rem % 60).as_str());
        out.push('Z');
        assert(out@ =~= stamp(secs as int));
        out
    }
}

impl std::str::FromStr for Timestamp {
    type Err = TimeParseError;

    fn from_str(s: &str) -> (r: Result<Timestamp, TimeParseError>)
        ensures
            match r {
                Ok(t) => parsed(s@) == Some(t.secs as int),
                Err(e) => parsed(s@) is None && e.0@ == s@,
            },
    {
        Timestamp::parse(s)
    }
}

proof fn lemma_year_bound(y: int, m: int, d: int)
    requires
        is_date(y, m, d),
        day_number(y, m, d) >= -200_000_000_000_000,
    ensures
        y >= -1_000_000_000_000_000,
{
    lemma_month_table(y);
}

/// The seconds since the epoch that the bytes of a text denote.
fn parse_bytes(b: &[u8]) -> (r: Option<i64>)
    ensures
        r is Some <==> parsed_bytes(b@) is Some,
        r is Some ==> r->0 == parsed_bytes(b@)->0,
{
    let year: i64 = match digits(b, 0, 4) {
        Some(v) => v,
        None => return None,
    };
    let month: i64 = match digits(b, 5, 2) {
        Some(v) => v,
        None => return None,
    };
    let day: i64 = match digits(b, 8, 2) {
        Some(v) => v,
        None => return None,
    };
    if b[4] != 45 || b[7] != 45 {
        return None;
    }
    if month < 1 || month > 12 || day < 1 || day > days_in_month(year, month) {
        return None;
    }
    let days: i64 = days_from_civil(year, month, day);
    let mut second: i64 = 0;
    let mut pos: usize = 10;
    if b.len() > 10 && (b[10] == 84 || b[10] == 116 || b[10] == 32) {
        let hour: i64 = match digits(b, 11, 2) {
            Some(v) => v,
            None => return None,
        };
        let min: i64 = match digits(b, 14, 2) {
            Some(v) => v,
            None => return None,
        };
        let sec: i64 = match digits(b, 17, 2) {
            Some(v) => v,
            None => return None,
        };
        if b[13] != 58 || b[16] != 58 || hour > 23 || min > 59 || sec > 59 {
            return None;
        }
        second = hour * 3_600 + min * 60 + sec;
        pos = 19;
        if b.len() > 19 && b[19] == 46 {
            pos = skip_digits(b, 20);
        }
    }
    let offset: i64 = match zone(b, pos) {
        Some(v) => v,
        None => return None,
    };
    Some(days * 86_400 + second - offset)
}

fn skip_digits(b: &[u8], from: usize) -> (pos: usize)
    requires
        from <= b@.len(),
    ensures
        pos == digits_end(b@, from as int),
        pos <= b@.len(),
{
    let mut pos: usize = from;
    while pos < b.len() && 48 <= b[pos] && b[pos] <= 57
        invariant
            pos <= b@.len(),
            digits_end(b@, from as int) == digits_end(b@, pos as int),
        decreases b@.len() - pos,
    {
        pos = pos + 1;
    }
    pos
}

fn zone(b: &[u8], pos: usize) -> (r: Option<i64>)
    requires
        pos <= b@.len(),
    ensures
        r is Some <==> zone_part(b@, pos as int) is Some,
        r is Some ==> r->0 == zone_part(b@, pos as int)->0 && -100_000 <= r->0 <= 100_000,
{
    let n: usize = b.len();
    if pos >= n {
        return Some(0);
    }
    if b[pos] == 90 || b[pos] == 122 {
        return if pos + 1 == n {
            Some(0)
        } else {
            None
        };
    }
    if b[pos] != 43 && b[pos] != 45 {
        return None;
    }
    let oh: i64 = match digits(b, pos + 1, 2) {
        Some(v) => v,
        None => return None,
    };
    let minutes: usize = if pos + 3 < n && b[pos + 3] == 58 {
        pos + 4
    } else {
        pos + 3
    };
    let om: i64 = match digits(b, minutes, 2) {
        Some(v) => v,
        None => return None,
    };
    if oh > 23 || om > 59 || minutes + 2 != n {
        return None;
    }
    if b[pos] == 45 {
        Some(-(oh * 3_600 + om * 60))
    } else {
        Some(oh * 3_600 + om * 60)
    }
}

// ---------------------------------------------------------------------------
// Order
// ---------------------------------------------------------------------------

/// One date comes before another: by year, then month, then day.
pub open spec fn date_before(a: (int, int, int), b: (int, int, int)) -> bool {
    a.0 < b.0 || (a.0 == b.0 && (a.1 < b.1 || (a.1 == b.1 && a.2 < b.2)))
}

proof fn lemma_months_grow(y: int, m: int, n: int)
    requires
        1 <= m < n <= 12,
    ensures
        days_before_month(y, m) + month_length(y, m) <= days_before_month(y, n),
    decreases n,
{
    if m + 1 < n {
        lemma_months_grow(y, m, n - 1);
    }
}

proof fn lemma_earlier_date(a: (int, int, int), b: (int, int, int))
    requires
        is_date(a.0, a.1, a.2),
        is_date(b.0, b.1, b.2),
        date_before(a, b),
    ensures
        day_number(a.0, a.1, a.2) < day_number(b.0, b.1, b.2),
{
    lemma_within_year(a.0, a.1, a.2);
    lemma_within_year(b.0, b.1, b.2);
    if a.0 < b.0 {
        lemma_year_grows(a.0, b.0);
    } else if a.1 < b.1 {
        lemma_months_grow(a.0, a.1, b.1);
    }
}

/// Later days have later dates, every day number has a date, and the epoch
/// is 1 January 1970.
pub proof fn law_later_days_have_later_dates(z1: int, z2: int)
    ensures
        is_date(date_of(z1).0, date_of(z1).1, date_of(z1).2),
        day_number(date_of(z1).0, date_of(z1).1, date_of(z1).2) == z1,
        date_of(0) == (1970int, 1int, 1int),
        z1 < z2 <==> date_before(date_of(z1), date_of(z2)),
{
    lemma_date_exists(z1);
    lemma_date_exists(z2);
    lemma_month_table(1970);
    law_date_of_day_number(1970, 1, 1);
    let a = date_of(z1);
    let b = date_of(z2);
    if date_before(a, b) {
        lemma_earlier_date(a, b);
    } else if date_before(b, a) {
        lemma_earlier_date(b, a);
    } else {
        assert(a == b);
    }
}

/// The years of four digits are those from the first second of year 0 to the
/// last of year 9999.
pub proof fn law_four_digit_years(secs: int)
    ensures
        four_digit_year(secs) <==> -62_167_219_200 <= secs <= 253_402_300_799,
{
    let z = secs / 86_400;
    let first = day_number(0, 1, 1);
    let last = day_number(9_999, 12, 31);
    lemma_month_table(0);
    lemma_month_table(9_999);
    assert(first == -719_528);
    assert(last == 2_932_896);
    law_date_of_day_number(0, 1, 1);
    law_date_of_day_number(9_999, 12, 31);
    law_later_days_have_later_dates(z, first);
    law_later_days_have_later_dates(last, z);
}

proof fn lemma_two_digits_lt(s: Seq<char>, t: Seq<char>, pos: int, m: int, n: int)
    requires
        0 <= m < n <= 99,
        0 <= pos,
        pos + 2 <= s.len(),
        pos + 2 <= t.len(),
        forall|i: int| 0 <= i < pos ==> s[i] == t[i],
        s[pos] == text::digit_char(m / 10),
        s[pos + 1] == text::digit_char(m % 10),
        t[pos] == text::digit_char(n / 10),
        t[pos + 1] == text::digit_char(n % 10),
    ensures
        text::text_lt(s, t),
{
    if m / 10 != n / 10 {
        text::lemma_text_lt_at(s, t, pos);
    } else {
        text::lemma_text_lt_at(s, t, pos + 1);
    }
}

proof fn lemma_four_digits_lt(s: Seq<char>, t: Seq<char>, m: int, n: int)
    requires
        0 <= m < n <= 9_999,
        4 <= s.len(),
        4 <= t.len(),
        s[0] == text::digit_char(m / 1000),
        s[1] == text::digit_char(m / 100 % 10),
        s[2] == text::digit_char(m / 10 % 10),
        s[3] == text::digit_char(m % 10),
        t[0] == text::digit_char(n / 1000),
        t[1] == text::digit_char(n / 100 % 10),
        t[2] == text::digit_char(n / 10 % 10),
        t[3] == text::digit_char(n % 10),
    ensures
        text::text_lt(s, t),
{
    let (a, b, c, d) = (m / 1000, m / 100 % 10, m / 10 % 10, m % 10);
    let (e, f, g, h) = (n / 1000, n / 100 % 10, n / 10 % 10, n % 10);
    lemma_decimal_places(m);
    lemma_decimal_places(n);
    if a != e {
        assert(a < e);
        text::lemma_text_lt_at(s, t, 0);
    } else if b != f {
        assert(b < f);
        text::lemma_text_lt_at(s, t, 1);
    } else if c != g {
        assert(c < g);
        text::lemma_text_lt_at(s, t, 2);
    } else {
        assert(d < h);
        text::lemma_text_lt_at(s, t, 3);
    }
}

proof fn lemma_decimal_places(n: int)
    requires
        0 <= n <= 9_999,
    ensures
        n == 1000 * (n / 1000) + 100 * (n / 100 % 10) + 10 * (n / 10 % 10) + n % 10,
        0 <= n / 1000 <= 9,
        0 <= n / 100 % 10 <= 9,
        0 <= n / 10 % 10 <= 9,
        0 <= n % 10 <= 9,
{
    assert(n / 100 == 10 * (n / 1000) + n / 100 % 10);
    assert(n / 10 == 10 * (n / 100) + n / 10 % 10);
}

/// Of two instants, which field of the calendar tells them apart first.
proof fn lemma_first_field(a: int, b: int)
    requires
        a < b,
    ensures
        ({
            let (y, m, d) = date_of(a / 86_400);
            let (v, n, e) = date_of(b / 86_400);
            let (hour, min, sec) = clock_of(a);
            let (h, i, c) = clock_of(b);
            ||| date_before((y, m, d), (v, n, e))
            ||| (y, m, d) == (v, n, e) && hour < h
            ||| (y, m, d) == (v, n, e) && hour == h && min < i
            ||| (y, m, d) == (v, n, e) && hour == h && min == i && sec < c
        }),
{
    law_later_days_have_later_dates(a / 86_400, b / 86_400);
    let (hour, min, sec) = clock_of(a);
    let (h, i, c) = clock_of(b);
    if a / 86_400 == b / 86_400 {
        assert(a % 86_400 < b % 86_400);
        assert(a % 86_400 == 3600 * hour + 60 * min + sec);
        assert(b % 86_400 == 3600 * h + 60 * i + c);
    } else {
        assert(a / 86_400 < b / 86_400);
    }
}

/// The text has the digits of a date and of a clock time at their places.
pub open spec fn shaped(s: Seq<char>, date: (int, int, int), clock: (int, int, int)) -> bool {
    &&& s.len() == 20
    &&& s[0] == text::digit_char(date.0 / 1000)
    &&& s[1] == text::digit_char(date.0 / 100 % 10)
    &&& s[2] == text::digit_char(date.0 / 10 % 10)
    &&& s[3] == text::digit_char(date.0 % 10)
    &&& s[4] == '-'
    &&& s[5] == text::digit_char(date.1 / 10)
    &&& s[6] == text::digit_char(date.1 % 10)
    &&& s[7] == '-'
    &&& s[8] == text::digit_char(date.2 / 10)
    &&& s[9] == text::digit_char(date.2 % 10)
    &&& s[10] == 'T'
    &&& s[11] == text::digit_char(clock.0 / 10)
    &&& s[12] == text::digit_char(clock.0 % 10)
    &&& s[13] == ':'
    &&& s[14] == text::digit_char(clock.1 / 10)
    &&& s[15] == text::digit_char(clock.1 % 10)
    &&& s[16] == ':'
    &&& s[17] == text::digit_char(clock.2 / 10)
    &&& s[18] == text::digit_char(clock.2 % 10)
    &&& s[19] == 'Z'
}

proof fn lemma_shaped(secs: int)
    requires
        four_digit_year(secs),
    ensures
        shaped(stamp(secs), date_of(secs / 86_400), clock_of(secs)),
{
    lemma_four_digits(date_of(secs / 86_400).0);
    assert(stamp(secs).len() == 20);
}

proof fn lemma_fields_lt(
    s: Seq<char>,
    t: Seq<char>,
    p: (int, int, int),
    u: (int, int, int),
    q: (int, int, int),
    v: (int, int, int),
)
    requires
        shaped(s, p, u),
        shaped(t, q, v),
        0 <= p.0 <= 9_999 && 0 <= q.0 <= 9_999,
        0 <= p.1 <= 99 && 0 <= q.1 <= 99,
        0 <= p.2 <= 99 && 0 <= q.2 <= 99,
        0 <= u.0 <= 99 && 0 <= v.0 <= 99,
        0 <= u.1 <= 99 && 0 <= v.1 <= 99,
        0 <= u.2 <= 99 && 0 <= v.2 <= 99,
        ({
            ||| date_before(p, q)
            ||| p == q && u.0 < v.0
            ||| p == q && u.0 == v.0 && u.1 < v.1
            ||| p == q && u.0 == v.0 && u.1 == v.1 && u.2 < v.2
        }),
    ensures
        text::text_lt(s, t),
{
    if p.0 < q.0 {
        lemma_four_digits_lt(s, t, p.0, q.0);
    } else if p.1 < q.1 {
        lemma_two_digits_lt(s, t, 5, p.1, q.1);
    } else if p.2 < q.2 {
        lemma_two_digits_lt(s, t, 8, p.2, q.2);
    } else if u.0 < v.0 {
        lemma_two_digits_lt(s, t, 11, u.0, v.0);
    } else if u.1 < v.1 {
        lemma_two_digits_lt(s, t, 14, u.1, v.1);
    } else {
        lemma_two_digits_lt(s, t, 17, u.2, v.2);
    }
}

proof fn lemma_clock_bounds(secs: int)
    ensures
        0 <= clock_of(secs).0 <= 23,
        0 <= clock_of(secs).1 <= 59,
        0 <= clock_of(secs).2 <= 59,
{
}

proof fn lemma_earlier_stamp(a: int, b: int)
    requires
        four_digit_year(a),
        four_digit_year(b),
        a < b,
    ensures
        text::text_lt(stamp(a), stamp(b)),
{
    lemma_shaped(a);
    lemma_shaped(b);
    lemma_first_field(a, b);
    lemma_date_exists(a / 86_400);
    lemma_date_exists(b / 86_400);
    lemma_clock_bounds(a);
    lemma_clock_bounds(b);
    lemma_fields_lt(
        stamp(a),
        stamp(b),
        date_of(a / 86_400),
        clock_of(a),
        date_of(b / 86_400),
        clock_of(b),
    );
}

/// The order of the canonical texts is the order of the instants, for years
/// of four digits.
pub proof fn law_stamps_sort_as_instants(a: int, b: int)
    requires
        -62_167_219_200 <= a <= 253_402_300_799,
        -62_167_219_200 <= b <= 253_402_300_799,
    ensures
        a < b <==> text::text_lt(stamp(a), stamp(b)),
{
    law_four_digit_years(a);
    law_four_digit_years(b);
    if a < b {
        lemma_earlier_stamp(a, b);
    } else if b < a {
        lemma_earlier_stamp(b, a);
        text::lemma_text_lt_asymmetric(stamp(b), stamp(a));
    } else {
        text::lemma_text_lt_irreflexive(stamp(a));
    }
}

// ---------------------------------------------------------------------------
// The forms of one instant
// ---------------------------------------------------------------------------

proof fn lemma_digits_extend(b: Seq<u8>, x: Seq<u8>, pos: int, len: nat)
    requires
        0 <= pos,
        pos + len <= b.len(),
    ensures
        digits_at(b + x, pos, len) == digits_at(b, pos, len),
    decreases len,
{
    if len > 0 {
        lemma_digits_extend(b, x, pos, (len - 1) as nat);
    }
}

/// What follows a date and a clock time of whole seconds is its zone.
proof fn lemma_zone_follows(b: Seq<u8>, x: Seq<u8>)
    requires
        b.len() == 19,
        b[10] == 84,
        parsed_bytes(b) is Some,
        x.len() > 0,
        x[0] != 46,
    ensures
        parsed_bytes(b + x) == match zone_part(b + x, 19) {
            Some(offset) => Some(parsed_bytes(b)->0 - offset),
            None => None,
        },
{
    let w = b + x;
    lemma_digits_extend(b, x, 0, 4);
    lemma_digits_extend(b, x, 5, 2);
    lemma_digits_extend(b, x, 8, 2);
    lemma_digits_extend(b, x, 11, 2);
    lemma_digits_extend(b, x, 14, 2);
    lemma_digits_extend(b, x, 17, 2);
    assert(w[19] == x[0]);
    assert(date_part(w) == date_part(b));
    assert(clock_part(w) == clock_part(b));
}

/// An offset from UTC: a sign, two digits of hours and two of minutes, with
/// or without a colon between them.
pub open spec fn offset_text(sign: char, hours: int, minutes: int, colon: bool) -> Seq<char> {
    seq![sign] + two_digits(hours) + (if colon {
        seq![':']
    } else {
        Seq::empty()
    }) + two_digits(minutes)
}

proof fn lemma_offset(d: Seq<char>, t: int, sign: char, hours: int, minutes: int, colon: bool)
    requires
        is_ascii_chars(d),
        d.len() == 19,
        d[10] == 'T',
        parsed(d) == Some(t),
        sign == '+' || sign == '-',
        0 <= hours <= 23,
        0 <= minutes <= 59,
    ensures
        parsed(d + offset_text(sign, hours, minutes, colon)) == Some(
            if sign == '+' {
                t - (3600 * hours + 60 * minutes)
            } else {
                t + (3600 * hours + 60 * minutes)
            },
        ),
{
    let z = offset_text(sign, hours, minutes, colon);
    let b = encode_utf8(d);
    let x = encode_utf8(z);
    is_ascii_chars_encode_utf8(d);
    assert(is_ascii_chars(z)) by {
        assert(0 <= hours / 10 <= 9 && 0 <= hours % 10 <= 9);
        assert(0 <= minutes / 10 <= 9 && 0 <= minutes % 10 <= 9);
    }
    is_ascii_chars_encode_utf8(z);
    text::lemma_bytes_concat(d, z);
    assert(z[0] == sign);
    assert(x[0] == sign as u8);
    assert(b[10] == d[10] as u8);
    lemma_zone_follows(b, x);
    let w = b + x;
    assert(w[19] == sign as u8);
    assert(z[1] == text::digit_char(hours / 10) && z[2] == text::digit_char(hours % 10));
    assert(w[20] == x[1] && w[21] == x[2]);
    lemma_read_two(w, 20, hours);
    if colon {
        assert(z[3] == ':');
        assert(z[4] == text::digit_char(minutes / 10) && z[5] == text::digit_char(minutes % 10));
        assert(w[22] == x[3] && w[23] == x[4] && w[24] == x[5]);
        assert(x.len() == 6);
        lemma_read_two(w, 23, minutes);
    } else {
        assert(z[3] == text::digit_char(minutes / 10) && z[4] == text::digit_char(minutes % 10));
        assert(w[22] == x[3] && w[23] == x[4]);
        assert(x.len() == 5);
        assert(w[22] != 58);
        lemma_read_two(w, 22, minutes);
    }
}

/// The forms of one instant: an offset is subtracted, with a colon or
/// without; `Z` and `z` are no offset; `t` and a space stand for `T`.
pub proof fn law_forms_of_an_instant(d: Seq<char>, t: int, hours: int, minutes: int)
    requires
        is_ascii_chars(d),
        d.len() == 19,
        d[10] == 'T',
        parsed(d) == Some(t),
        0 <= hours <= 23,
        0 <= minutes <= 59,
    ensures
        parsed(d + offset_text('+', hours, minutes, true)) == Some(
            t - (3600 * hours + 60 * minutes),
        ),
        parsed(d + offset_text('+', hours, minutes, false)) == Some(
            t - (3600 * hours + 60 * minutes),
        ),
        parsed(d + offset_text('-', hours, minutes, true)) == Some(
            t + (3600 * hours + 60 * minutes),
        ),
        parsed(d + offset_text('-', hours, minutes, false)) == Some(
            t + (3600 * hours + 60 * minutes),
        ),
        parsed(d + seq!['Z']) == Some(t),
        parsed(d + seq!['z']) == Some(t),
        parsed(d.update(10, 't')) == Some(t),
        parsed(d.update(10, ' ')) == Some(t),
{
    lemma_offset(d, t, '+', hours, minutes, true);
    lemma_offset(d, t, '+', hours, minutes, false);
    lemma_offset(d, t, '-', hours, minutes, true);
    lemma_offset(d, t, '-', hours, minutes, false);
    lemma_utc_mark(d, t, 'Z');
    lemma_utc_mark(d, t, 'z');
    lemma_separator(d, t, 't');
    lemma_separator(d, t, ' ');
}

proof fn lemma_utc_mark(d: Seq<char>, t: int, c: char)
    requires
        is_ascii_chars(d),
        d.len() == 19,
        d[10] == 'T',
        parsed(d) == Some(t),
        c == 'Z' || c == 'z',
    ensures
        parsed(d + seq![c]) == Some(t),
{
    let z = seq![c];
    let b = encode_utf8(d);
    let x = encode_utf8(z);
    is_ascii_chars_encode_utf8(d);
    assert(is_ascii_chars(z));
    is_ascii_chars_encode_utf8(z);
    text::lemma_bytes_concat(d, z);
    assert(z[0] == c);
    assert(x[0] == c as u8);
    assert(b[10] == d[10] as u8);
    lemma_zone_follows(b, x);
    assert((b + x)[19] == x[0]);
}

proof fn lemma_digits_same(b: Seq<u8>, w: Seq<u8>, pos: int, len: nat)
    requires
        b.len() == w.len(),
        forall|i: int| pos <= i < pos + len && 0 <= i < b.len() ==> b[i] == w[i],
    ensures
        digits_at(b, pos, len) == digits_at(w, pos, len),
    decreases len,
{
    if len > 0 {
        lemma_digits_same(b, w, pos, (len - 1) as nat);
    }
}

proof fn lemma_separator(d: Seq<char>, t: int, c: char)
    requires
        is_ascii_chars(d),
        d.len() == 19,
        d[10] == 'T',
        parsed(d) == Some(t),
        c == 't' || c == ' ',
    ensures
        parsed(d.update(10, c)) == Some(t),
{
    let u = d.update(10, c);
    let b = encode_utf8(d);
    let w = encode_utf8(u);
    is_ascii_chars_encode_utf8(d);
    assert(is_ascii_chars(u));
    is_ascii_chars_encode_utf8(u);
    assert forall|i: int| 0 <= i < 19 && i != 10 implies #[trigger] w[i] == b[i] by {
        assert(u[i] == d[i]);
    }
    assert(u[10] == c && b[10] == d[10] as u8);
    assert(w[10] == c as u8);
    lemma_digits_same(b, w, 0, 4);
    lemma_digits_same(b, w, 5, 2);
    lemma_digits_same(b, w, 8, 2);
    lemma_digits_same(b, w, 11, 2);
    lemma_digits_same(b, w, 14, 2);
    lemma_digits_same(b, w, 17, 2);
}

/// A digit, or a mark between digits, of a canonical text.
pub open spec fn stamp_char(c: char) -> bool {
    '0' <= c <= '9' || c == '-' || c == ':' || c == 'T' || c == 'Z'
}

proof fn lemma_shaped_chars(s: Seq<char>, date: (int, int, int), clock: (int, int, int), i: int)
    requires
        shaped(s, date, clock),
        0 <= date.0 <= 9_999,
        0 <= date.1 <= 99,
        0 <= date.2 <= 99,
        0 <= clock.0 <= 99,
        0 <= clock.1 <= 99,
        0 <= clock.2 <= 99,
        0 <= i < 20,
    ensures
        stamp_char(s[i]),
{
    lemma_decimal_places(date.0);
    assert(0 <= date.1 / 10 <= 9 && 0 <= date.1 % 10 <= 9);
    assert(0 <= date.2 / 10 <= 9 && 0 <= date.2 % 10 <= 9);
    assert(0 <= clock.0 / 10 <= 9 && 0 <= clock.0 % 10 <= 9);
    assert(0 <= clock.1 / 10 <= 9 && 0 <= clock.1 % 10 <= 9);
    assert(0 <= clock.2 / 10 <= 9 && 0 <= clock.2 % 10 <= 9);
}

/// A canonical text is made of digits and the marks between them.
pub proof fn lemma_stamp_chars(secs: int)
    requires
        four_digit_year(secs),
    ensures
        stamp(secs).len() == 20,
        forall|i: int| 0 <= i < 20 ==> stamp_char(#[trigger] stamp(secs)[i]),
{
    lemma_shaped(secs);
    lemma_date_exists(secs / 86_400);
    lemma_clock_bounds(secs);
    assert forall|i: int| 0 <= i < 20 implies stamp_char(#[trigger] stamp(secs)[i]) by {
        lemma_shaped_chars(stamp(secs), date_of(secs / 86_400), clock_of(secs), i);
    }
}

proof fn lemma_digits_range(b: Seq<u8>, pos: int)
    ensures
        digits_at(b, pos, 2) matches Some(v) ==> 0 <= v <= 99,
        digits_at(b, pos, 4) matches Some(v) ==> 0 <= v <= 9_999,
{
    reveal_with_fuel(digits_at, 5);
}

/// An instant that a text states is counted in 64 bits, with room to spare.
pub proof fn law_stated_instants_are_counted(s: Seq<char>)
    ensures
        parsed(s) matches Some(n) ==> -100_000_000_000 <= n <= 400_000_000_000 && n as i64 == n,
{
    let b = encode_utf8(s);
    lemma_digits_range(b, 0);
    lemma_digits_range(b, 5);
    lemma_digits_range(b, 8);
    lemma_digits_range(b, 11);
    lemma_digits_range(b, 14);
    lemma_digits_range(b, 17);
    if let (Some(day), Some((second, pos))) = (date_part(b), clock_part(b)) {
        let (y, m, d) = (digits_at(b, 0, 4)->0, digits_at(b, 5, 2)->0, digits_at(b, 8, 2)->0);
        lemma_month_table(y);
        assert(0 <= days_before_month(y, m) <= 400);
        assert(-800_000 <= day <= 4_000_000);
        assert(0 <= second <= 86_400);
        lemma_digits_range(b, pos + 1);
        lemma_digits_range(b, pos + 3);
        lemma_digits_range(b, pos + 4);
        if let Some(offset) = zone_part(b, pos) {
            assert(-100_000 <= offset <= 100_000);
        }
    }
}

/// A date and a clock time in their fields state an instant exactly when the
/// day is one of its month and the clock shows a time of day.
#[verifier::spinoff_prover]
pub proof fn law_fields_state_an_instant(
    s: Seq<char>,
    date: (int, int, int),
    clock: (int, int, int),
)
    requires
        shaped(s, date, clock),
        0 <= date.0 <= 9_999,
        0 <= date.1 <= 99,
        0 <= date.2 <= 99,
        0 <= clock.0 <= 99,
        0 <= clock.1 <= 99,
        0 <= clock.2 <= 99,
    ensures
        parsed(s) == (if is_date(date.0, date.1, date.2) && clock.0 < 24 && clock.1 < 60 && clock.2
            < 60 {
            Some(
                86_400 * day_number(date.0, date.1, date.2) + 3600 * clock.0 + 60 * clock.1
                    + clock.2,
            )
        } else {
            None
        }),
{
    assert forall|i: int| 0 <= i < 20 implies '\0' <= #[trigger] s[i] <= '\u{7f}' by {
        lemma_shaped_chars(s, date, clock, i);
    }
    is_ascii_chars_encode_utf8(s);
    let b = encode_utf8(s);
    assert(b.len() == 20);
    assert forall|i: int| 0 <= i < 20 implies #[trigger] b[i] == s[i] as u8 by {}
    lemma_read_four(b, 0, date.0);
    lemma_read_two(b, 5, date.1);
    lemma_read_two(b, 8, date.2);
    lemma_read_two(b, 11, clock.0);
    lemma_read_two(b, 14, clock.1);
    lemma_read_two(b, 17, clock.2);
    assert(b[4] == 45 && b[7] == 45 && b[10] == 84 && b[13] == 58 && b[16] == 58 && b[19] == 90);
}

/// The months have their lengths, and February has a 29th in leap years: in
/// every fourth year but the centuries that four hundred does not divide.
pub proof fn law_months(y: int, m: int, d: int)
    ensures
        is_date(y, m, d) ==> 1 <= m <= 12 && 1 <= d <= 31,
        1 <= m <= 12 && 1 <= d <= 28 ==> is_date(y, m, d),
        is_date(y, 2, 29) <==> y % 4 == 0 && (y % 100 == 0 ==> y % 400 == 0),
        !is_date(y, 2, 30),
        1 <= m <= 12 && m != 2 ==> is_date(y, m, 30),
        is_date(y, m, 31) <==> m == 1 || m == 3 || m == 5 || m == 7 || m == 8 || m == 10 || m == 12,
        !is_date(y, m, 32),
{
}

/// Days are counted without a gap: the next day of the month, or else the
/// first of the next month, or else of the next year, has the next number.
pub proof fn law_days_follow_each_other(y: int, m: int, d: int)
    requires
        is_date(y, m, d),
    ensures
        is_date(y, m, d + 1) ==> day_number(y, m, d + 1) == day_number(y, m, d) + 1,
        !is_date(y, m, d + 1) && m < 12 ==> day_number(y, m + 1, 1) == day_number(y, m, d) + 1,
        !is_date(y, m, d + 1) && m == 12 ==> day_number(y + 1, 1, 1) == day_number(y, m, d) + 1,
        day_number(1970, 1, 1) == 0,
{
    lemma_month_table(y);
    lemma_month_table(y + 1);
    lemma_month_table(1970);
    lemma_year_step(y);
}

proof fn lemma_digits_run(b: Seq<u8>, pos: int, end: int)
    requires
        0 <= pos <= end <= b.len(),
        forall|i: int| pos <= i < end ==> 48 <= #[trigger] b[i] <= 57,
        end < b.len() ==> !(48 <= b[end] <= 57),
    ensures
        digits_end(b, pos) == end,
    decreases end - pos,
{
    if pos < end {
        assert(48 <= b[pos] <= 57);
        lemma_digits_run(b, pos + 1, end);
    }
}

/// Parts of a second are read over.
#[verifier::spinoff_prover]
pub proof fn law_fractions_are_dropped(d: Seq<char>, t: int, digits: Seq<char>)
    requires
        is_ascii_chars(d),
        d.len() == 19,
        d[10] == 'T',
        parsed(d) == Some(t),
        digits.len() > 0,
        forall|i: int| 0 <= i < digits.len() ==> '0' <= #[trigger] digits[i] <= '9',
    ensures
        parsed(d + seq!['.'] + digits + seq!['Z']) == Some(t),
        parsed(d + seq!['.'] + digits) == Some(t),
{
    lemma_fraction(d, t, digits, seq!['Z']);
    let none = Seq::<char>::empty();
    lemma_fraction(d, t, digits, none);
    assert(d + seq!['.'] + digits + none =~= d + seq!['.'] + digits);
}

proof fn lemma_fraction(d: Seq<char>, t: int, digits: Seq<char>, mark: Seq<char>)
    requires
        is_ascii_chars(d),
        d.len() == 19,
        d[10] == 'T',
        parsed(d) == Some(t),
        forall|i: int| 0 <= i < digits.len() ==> '0' <= #[trigger] digits[i] <= '9',
        mark == seq!['Z'] || mark == Seq::<char>::empty(),
    ensures
        parsed(d + seq!['.'] + digits + mark) == Some(t),
{
    let u = d + seq!['.'] + digits + mark;
    let b = encode_utf8(d);
    let w = encode_utf8(u);
    is_ascii_chars_encode_utf8(d);
    assert forall|i: int| 0 <= i < u.len() implies '\0' <= #[trigger] u[i] <= '\u{7f}' by {
        if i < 19 {
            assert(u[i] == d[i]);
        } else if 20 <= i < 20 + digits.len() {
            assert(u[i] == digits[i - 20]);
        }
    }
    assert(is_ascii_chars(u));
    is_ascii_chars_encode_utf8(u);
    let x = w.skip(19);
    assert(w =~= b + x) by {
        assert forall|i: int| 0 <= i < 19 implies w[i] == b[i] by {
            assert(u[i] == d[i]);
        }
    }
    lemma_digits_extend(b, x, 0, 4);
    lemma_digits_extend(b, x, 5, 2);
    lemma_digits_extend(b, x, 8, 2);
    lemma_digits_extend(b, x, 11, 2);
    lemma_digits_extend(b, x, 14, 2);
    lemma_digits_extend(b, x, 17, 2);
    let end = 20 + digits.len() as int;
    assert(u[19] == '.');
    assert(w[19] == 46);
    assert forall|i: int| 20 <= i < end implies 48 <= #[trigger] w[i] <= 57 by {
        assert(u[i] == digits[i - 20]);
    }
    if mark.len() > 0 {
        assert(u[end] == mark[0]);
        assert(w[end] == 90);
    }
    lemma_digits_run(w, 20, end);
    assert(date_part(w) == date_part(b));
    assert(b[10] == 84);
}

/// A date alone states the start of its day.
#[verifier::spinoff_prover]
pub proof fn law_a_date_states_its_start(d: Seq<char>, y: int, m: int, day: int)
    requires
        0 <= y <= 9_999 && 0 <= m <= 99 && 0 <= day <= 99,
        d == seq![
            text::digit_char(y / 1000),
            text::digit_char(y / 100 % 10),
            text::digit_char(y / 10 % 10),
            text::digit_char(y % 10),
            '-',
            text::digit_char(m / 10),
            text::digit_char(m % 10),
            '-',
            text::digit_char(day / 10),
            text::digit_char(day % 10),
        ],
    ensures
        parsed(d) == (if is_date(y, m, day) {
            Some(86_400 * day_number(y, m, day))
        } else {
            None
        }),
{
    assert(is_ascii_chars(d));
    is_ascii_chars_encode_utf8(d);
    let b = encode_utf8(d);
    assert forall|i: int| 0 <= i < 10 implies #[trigger] b[i] == d[i] as u8 by {}
    lemma_read_four(b, 0, y);
    lemma_read_two(b, 5, m);
    lemma_read_two(b, 8, day);
    assert(b[4] == 45 && b[7] == 45);
}

/// An offset of more hours or minutes than a clock shows is refused, and so
/// is anything behind the mark of UTC.
#[verifier::spinoff_prover]
pub proof fn law_bad_zones_are_refused(
    d: Seq<char>,
    t: int,
    sign: char,
    hours: int,
    minutes: int,
    colon: bool,
    c: char,
)
    requires
        is_ascii_chars(d),
        d.len() == 19,
        d[10] == 'T',
        parsed(d) == Some(t),
        sign == '+' || sign == '-',
        0 <= hours <= 99,
        0 <= minutes <= 99,
        hours >= 24 || minutes >= 60,
        '\0' <= c <= '\u{7f}',
    ensures
        parsed(d + offset_text(sign, hours, minutes, colon)) is None,
        parsed(d + seq!['Z', c]) is None,
        c != 'Z' && c != 'z' && c != '+' && c != '-' && c != '.' ==> parsed(d + seq![c]) is None,
{
    let z = offset_text(sign, hours, minutes, colon);
    let b = encode_utf8(d);
    let x = encode_utf8(z);
    is_ascii_chars_encode_utf8(d);
    assert(b[10] == d[10] as u8);
    assert(is_ascii_chars(z)) by {
        assert(0 <= hours / 10 <= 9 && 0 <= hours % 10 <= 9);
        assert(0 <= minutes / 10 <= 9 && 0 <= minutes % 10 <= 9);
    }
    is_ascii_chars_encode_utf8(z);
    text::lemma_bytes_concat(d, z);
    assert(z[0] == sign);
    assert(x[0] == sign as u8);
    lemma_zone_follows(b, x);
    let w = b + x;
    assert(w[19] == sign as u8);
    assert(z[1] == text::digit_char(hours / 10) && z[2] == text::digit_char(hours % 10));
    assert(w[20] == x[1] && w[21] == x[2]);
    lemma_read_two(w, 20, hours);
    if colon {
        assert(z[3] == ':');
        assert(z[4] == text::digit_char(minutes / 10) && z[5] == text::digit_char(minutes % 10));
        assert(w[22] == x[3] && w[23] == x[4] && w[24] == x[5]);
        lemma_read_two(w, 23, minutes);
    } else {
        assert(z[3] == text::digit_char(minutes / 10) && z[4] == text::digit_char(minutes % 10));
        assert(w[22] == x[3] && w[23] == x[4]);
        assert(w[22] != 58);
        lemma_read_two(w, 22, minutes);
    }
    let zc = seq!['Z', c];
    assert(is_ascii_chars(zc));
    is_ascii_chars_encode_utf8(zc);
    text::lemma_bytes_concat(d, zc);
    let y = encode_utf8(zc);
    assert(zc[0] == 'Z');
    assert(y[0] == 90);
    lemma_zone_follows(b, y);
    assert((b + y)[19] == 90);
    let one = seq![c];
    assert(is_ascii_chars(one));
    is_ascii_chars_encode_utf8(one);
    text::lemma_bytes_concat(d, one);
    let v = encode_utf8(one);
    assert(one[0] == c);
    assert(v[0] == c as u8);
    if c != '.' {
        lemma_zone_follows(b, v);
        assert((b + v)[19] == v[0]);
    }
}

} // verus!
