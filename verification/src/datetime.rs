//! Parsed TOML datetime values.
//!
//! A [`Datetime`] is a composite of three independent optional parts: a
//! calendar date, a wall-clock time, and a UTC offset.  Which parts are
//! present determines the logical subtype: all three form an offset
//! date-time, date and time a local date-time, date alone a local date and
//! time alone a local time.  No other combination is legal.
use vstd::prelude::*;

use crate::error::Error;
use crate::scan::{
    chars_vec, count_digits, digit_val, digit_value, digits_at, digits_value, is_digit,
    lemma_count_digits, lemma_digits_value_bound, lemma_pow10_add,
    lemma_pow10_le, lemma_pow10_values, pow10, spec_is_digit,
};

verus! {

/// A parsed TOML datetime value: optional date, time and offset parts.
#[derive(Debug, Clone, Copy, PartialEq, Eq)]
pub struct Datetime {
    /// Optional date.
    pub date: Option<Date>,
    /// Optional time.
    pub time: Option<Time>,
    /// Optional offset; legal only together with both date and time.
    pub offset: Option<Offset>,
}

/// A parsed TOML date value.
#[derive(Debug, Clone, Copy, PartialEq, Eq, Structural)]
pub struct Date {
    /// Year: four digits.
    pub year: u16,
    /// Month: 1 to 12.
    pub month: u8,
    /// Day: 1 to the length of the month, leap years accounted for.
    pub day: u8,
}

/// A parsed TOML time value.
#[derive(Debug, Clone, Copy, PartialEq, Eq, Structural)]
pub struct Time {
    /// Hour: 0 to 23.
    pub hour: u8,
    /// Minute: 0 to 59.
    pub minute: u8,
    /// Second: 0 to 60 (a leap second is permitted syntactically).
    pub second: u8,
    /// Nanosecond: 0 to 999_999_999.
    pub nanosecond: u32,
}

/// A parsed TOML time offset.
#[derive(Debug, Clone, Copy, PartialEq, Eq, Structural)]
pub enum Offset {
    /// The `Z` suffix, denoting a UTC offset of 00:00.
    Z,
    /// Offset between local time and UTC, in minutes.
    Custom {
        /// Minutes: -1440 to 1440.
        minutes: i16,
    },
}

impl Offset {
    /// The offset in minutes.
    pub fn as_minutes(&self) -> (r: i16)
        ensures
            r == spec_offset_minutes(*self),
    {
        match *self {
            Offset::Z => 0,
            Offset::Custom { minutes } => minutes,
        }
    }
}

/// The offset in minutes, `Z` standing for zero.
pub open spec fn spec_offset_minutes(o: Offset) -> i16 {
    match o {
        Offset::Z => 0,
        Offset::Custom { minutes } => minutes,
    }
}

/// Whether `y` is a leap year of the Gregorian calendar.
pub open spec fn spec_is_leap_year(y: int) -> bool {
    y % 4 == 0 && (y % 100 != 0 || y % 400 == 0)
}

/// The number of days of month `m` of year `y`.
pub open spec fn spec_days_in_month(y: int, m: int) -> int {
    if m == 2 {
        if spec_is_leap_year(y) {
            29
        } else {
            28
        }
    } else if m == 4 || m == 6 || m == 9 || m == 11 {
        30
    } else {
        31
    }
}

/// A date the datetime engine can produce: month and day in range for the
/// (four-digit) year.
pub open spec fn date_in_range(d: Date) -> bool {
    &&& d.year <= 9999
    &&& 1 <= d.month <= 12
    &&& 1 <= d.day <= spec_days_in_month(d.year as int, d.month as int)
}

/// A time the datetime engine can produce.
pub open spec fn time_in_range(t: Time) -> bool {
    &&& t.hour <= 23
    &&& t.minute <= 59
    &&& t.second <= 60
    &&& t.nanosecond <= 999_999_999
}

/// An offset the datetime engine can produce.
pub open spec fn offset_in_range(o: Offset) -> bool {
    match o {
        Offset::Z => true,
        Offset::Custom { minutes } => -1440 <= minutes <= 1440,
    }
}

/// A well-formed datetime: each present part is in range, and the
/// combination of present parts is one of the four legal subtypes.
pub open spec fn datetime_in_range(dt: Datetime) -> bool {
    &&& match dt.date {
        Some(d) => date_in_range(d),
        None => true,
    }
    &&& match dt.time {
        Some(t) => time_in_range(t),
        None => true,
    }
    &&& match dt.offset {
        Some(o) => offset_in_range(o),
        None => true,
    }
    &&& (dt.offset is Some ==> dt.date is Some && dt.time is Some)
    &&& (dt.date is Some || dt.time is Some)
    &&& (dt.date is None ==> dt.offset is None)
}

/// The full-date grammar `YYYY "-" MM "-" DD` at the start of `s`, with the
/// calendar validation the engine performs: month 1 to 12, day bounded by
/// the month length.  Consumes exactly ten characters.
pub open spec fn spec_parse_full_date(s: Seq<char>) -> Option<Date> {
    if s.len() >= 10 && digits_at(s, 0, 4) && s[4] == '-' && digits_at(s, 5, 2) && s[7] == '-'
        && digits_at(s, 8, 2) {
        let y = digits_value(s, 0, 4);
        let m = digits_value(s, 5, 2);
        let d = digits_value(s, 8, 2);
        if 1 <= m <= 12 && 1 <= d <= spec_days_in_month(y, m) {
            Some(Date { year: y as u16, month: m as u8, day: d as u8 })
        } else {
            None
        }
    } else {
        None
    }
}

/// The partial-time grammar `HH ":" MM ":" SS ["." 1*DIGIT]` at position `i`
/// of `s`, range checks included.  On success, the time and the position
/// after the consumed characters.
pub open spec fn spec_parse_partial_time(s: Seq<char>, i: int) -> Option<(Time, int)> {
    if digits_at(s, i, 2) && i + 2 < s.len() && s[i + 2] == ':' && digits_at(s, i + 3, 2) && i + 5
        < s.len() && s[i + 5] == ':' && digits_at(s, i + 6, 2) {
        let h = digits_value(s, i, 2);
        let m = digits_value(s, i + 3, 2);
        let sec = digits_value(s, i + 6, 2);
        let frac = if i + 8 < s.len() && s[i + 8] == '.' {
            let n = count_digits(s, i + 9);
            if n == 0 {
                None
            } else {
                let kept = if n < 9 {
                    n
                } else {
                    9
                };
                let nano = digits_value(s, i + 9, kept) * pow10((9 - kept) as nat);
                Some((nano, i + 9 + n))
            }
        } else {
            Some((0, i + 8))
        };
        match frac {
            None => None,
            Some((nano, j)) => {
                if h <= 23 && m <= 59 && sec <= 60 {
                    Some(
                        (
                            Time {
                                hour: h as u8,
                                minute: m as u8,
                                second: sec as u8,
                                nanosecond: nano as u32,
                            },
                            j,
                        ),
                    )
                } else {
                    None
                }
            },
        }
    } else {
        None
    }
}

/// The time-offset grammar `"Z" / ("+"/"-") HH ":" MM` at position `i` of
/// `s`, or nothing at the end of the input.  The computed signed offset must
/// lie in -1440 to 1440 minutes.
pub open spec fn spec_parse_offset(s: Seq<char>, i: int) -> Option<(Option<Offset>, int)> {
    if i == s.len() {
        Some((None, i))
    } else if s[i] == 'Z' || s[i] == 'z' {
        Some((Some(Offset::Z), i + 1))
    } else if s[i] == '+' || s[i] == '-' {
        if digits_at(s, i + 1, 2) && i + 3 < s.len() && s[i + 3] == ':' && digits_at(s, i + 4, 2) {
            let magnitude = digits_value(s, i + 1, 2) * 60 + digits_value(s, i + 4, 2);
            let total = if s[i] == '+' {
                magnitude
            } else {
                -magnitude
            };
            if -1440 <= total <= 1440 {
                Some((Some(Offset::Custom { minutes: total as i16 }), i + 6))
            } else {
                None
            }
        } else {
            None
        }
    } else {
        None
    }
}

/// The whole datetime grammar over a character sequence: a full date,
/// optionally followed by a delimiter (`T`, `t` or space), a partial time
/// and an optional offset; or a partial time alone.  The entire input must
/// be consumed.
pub open spec fn spec_datetime_str(s: Seq<char>) -> Option<Datetime> {
    if s.len() < 3 {
        None
    } else if s[2] == ':' {
        // Local time alone.
        match spec_parse_partial_time(s, 0) {
            Some((t, j)) => if j == s.len() {
                Some(Datetime { date: None, time: Some(t), offset: None })
            } else {
                None
            },
            None => None,
        }
    } else {
        match spec_parse_full_date(s) {
            None => None,
            Some(d) => {
                if s.len() == 10 {
                    Some(Datetime { date: Some(d), time: None, offset: None })
                } else if s[10] == 'T' || s[10] == 't' || s[10] == ' ' {
                    match spec_parse_partial_time(s, 11) {
                        None => None,
                        Some((t, j)) => match spec_parse_offset(s, j) {
                            Some((o, k)) => if k == s.len() {
                                Some(Datetime { date: Some(d), time: Some(t), offset: o })
                            } else {
                                None
                            },
                            None => None,
                        },
                    }
                } else {
                    None
                }
            },
        }
    }
}

/// The ASCII digit character for the value `x`.
pub open spec fn digit_char(x: int) -> char {
    (48 + x) as char
}

/// The `k`-digit zero-padded decimal form of `x`, most significant digit
/// first.
pub open spec fn spec_digits(x: int, k: nat) -> Seq<char>
    decreases k,
{
    if k == 0 {
        Seq::empty()
    } else {
        spec_digits(x / 10, (k - 1) as nat).push(digit_char(x % 10))
    }
}

/// `s` without its trailing zero digits.
pub open spec fn trim_zeros(s: Seq<char>) -> Seq<char>
    decreases s.len(),
{
    if s.len() > 0 && s.last() == '0' {
        trim_zeros(s.drop_last())
    } else {
        s
    }
}

/// The canonical display form of a date: `YYYY-MM-DD`.
pub open spec fn spec_display_date(d: Date) -> Seq<char> {
    spec_digits(d.year as int, 4) + seq!['-'] + spec_digits(d.month as int, 2) + seq!['-']
        + spec_digits(d.day as int, 2)
}

/// The canonical display form of a time: `HH:MM:SS`, and when the
/// nanosecond part is not zero a dot and its nine digits with the trailing
/// zeros dropped.
pub open spec fn spec_display_time(t: Time) -> Seq<char> {
    spec_digits(t.hour as int, 2) + seq![':'] + spec_digits(t.minute as int, 2) + seq![':']
        + spec_digits(t.second as int, 2) + (if t.nanosecond != 0 {
        seq!['.'] + trim_zeros(spec_digits(t.nanosecond as int, 9))
    } else {
        Seq::empty()
    })
}

/// The canonical display form of an offset: `Z`, or a sign and `HH:MM`.
pub open spec fn spec_display_offset(o: Offset) -> Seq<char> {
    match o {
        Offset::Z => seq!['Z'],
        Offset::Custom { minutes } => {
            let mag = if minutes < 0 {
                -(minutes as int)
            } else {
                minutes as int
            };
            (if minutes < 0 {
                seq!['-']
            } else {
                seq!['+']
            }) + spec_digits(mag / 60, 2) + seq![':'] + spec_digits(mag % 60, 2)
        },
    }
}

/// The canonical display form of a datetime: its date, a `T` and its time
/// where both are present, and its offset.
pub open spec fn spec_display(dt: Datetime) -> Seq<char> {
    (match dt.date {
        Some(d) => spec_display_date(d),
        None => Seq::empty(),
    }) + (match dt.time {
        Some(t) => (if dt.date is Some {
            seq!['T']
        } else {
            Seq::empty()
        }) + spec_display_time(t),
        None => Seq::empty(),
    }) + (match dt.offset {
        Some(o) => spec_display_offset(o),
        None => Seq::empty(),
    })
}

/// Reads two ASCII digits at `i` as a number, or reports that they are not
/// there.
fn read_2_digits(v: &Vec<char>, i: usize) -> (r: Option<u8>)
    ensures
        match r {
            Some(x) => digits_at(v@, i as int, 2) && x == digits_value(v@, i as int, 2) && x <= 99,
            None => !digits_at(v@, i as int, 2),
        },
{
    if i < v.len() && i + 1 < v.len() && is_digit(v[i]) && is_digit(v[i + 1]) {
        let d1 = digit_value(v[i]) as u8;
        let d2 = digit_value(v[i + 1]) as u8;
        assert(digits_value(v@, i as int, 0) == 0);
        assert(digits_value(v@, i as int, 1) == digit_val(v@[i as int]));
        Some(d1 * 10 + d2)
    } else {
        None
    }
}

/// Reads four ASCII digits at `i` as a number, or reports that they are not
/// there.
fn read_4_digits(v: &Vec<char>, i: usize) -> (r: Option<u16>)
    ensures
        match r {
            Some(x) => digits_at(v@, i as int, 4) && x == digits_value(v@, i as int, 4) && x
                <= 9999,
            None => !digits_at(v@, i as int, 4),
        },
{
    if i < v.len() && i + 1 < v.len() && i + 2 < v.len() && i + 3 < v.len() && is_digit(v[i])
        && is_digit(v[i + 1]) && is_digit(v[i + 2]) && is_digit(v[i + 3]) {
        let d1 = digit_value(v[i]) as u16;
        let d2 = digit_value(v[i + 1]) as u16;
        let d3 = digit_value(v[i + 2]) as u16;
        let d4 = digit_value(v[i + 3]) as u16;
        assert(digits_value(v@, i as int, 0) == 0);
        assert(digits_value(v@, i as int, 1) == digit_val(v@[i as int]));
        assert(digits_value(v@, i as int, 2) == digits_value(v@, i as int, 1) * 10 + digit_val(
            v@[i + 1],
        ));
        assert(digits_value(v@, i as int, 3) == digits_value(v@, i as int, 2) * 10 + digit_val(
            v@[i + 2],
        ));
        Some(((d1 * 10 + d2) * 10 + d3) * 10 + d4)
    } else {
        None
    }
}

/// The number of days of the given month, leap years accounted for.
fn days_in_month(year: u16, month: u8) -> (r: u8)
    ensures
        r == spec_days_in_month(year as int, month as int),
{
    let is_leap_year = (year % 4 == 0) && ((year % 100 != 0) || (year % 400 == 0));
    if month == 2 {
        if is_leap_year {
            29
        } else {
            28
        }
    } else if month == 4 || month == 6 || month == 9 || month == 11 {
        30
    } else {
        31
    }
}

/// The full-date recognizer: `YYYY-MM-DD` at the start of the buffer, with
/// month and day validated against the calendar.
fn parse_full_date(v: &Vec<char>) -> (r: Option<Date>)
    ensures
        r == spec_parse_full_date(v@),
        r matches Some(d) ==> date_in_range(d),
{
    if v.len() < 10 {
        return None;
    }
    let year = match read_4_digits(v, 0) {
        Some(y) => y,
        None => {
            return None;
        },
    };
    if !(v[4] == '-') {
        return None;
    }
    let month = match read_2_digits(v, 5) {
        Some(m) => m,
        None => {
            return None;
        },
    };
    if !(v[7] == '-') {
        return None;
    }
    let day = match read_2_digits(v, 8) {
        Some(d) => d,
        None => {
            return None;
        },
    };
    if month < 1 || month > 12 {
        return None;
    }
    if day < 1 || day > days_in_month(year, month) {
        return None;
    }
    Some(Date { year, month, day })
}

/// The partial-time recognizer: `HH:MM:SS` with an optional fraction at
/// position `i`, ranges validated, the fraction truncated after nine digits.
fn parse_partial_time(v: &Vec<char>, i: usize) -> (r: Option<(Time, usize)>)
    requires
        i <= v.len(),
    ensures
        match r {
            Some((t, j)) => spec_parse_partial_time(v@, i as int) == Some((t, j as int))
                && time_in_range(t) && i <= j <= v.len(),
            None => spec_parse_partial_time(v@, i as int) is None,
        },
{
    let hour = match read_2_digits(v, i) {
        Some(h) => h,
        None => {
            return None;
        },
    };
    if !(i + 2 < v.len() && v[i + 2] == ':') {
        return None;
    }
    let minute = match read_2_digits(v, i + 3) {
        Some(m) => m,
        None => {
            return None;
        },
    };
    if !(i + 5 < v.len() && v[i + 5] == ':') {
        return None;
    }
    let second = match read_2_digits(v, i + 6) {
        Some(s) => s,
        None => {
            return None;
        },
    };
    let mut nanosecond: u32 = 0;
    let mut j: usize = i + 8;
    if i + 8 < v.len() && v[i + 8] == '.' {
        let start = i + 9;
        let mut cnt: usize = 0;
        let mut val: u32 = 0;
        j = start;
        proof {
            lemma_pow10_values();
            assert(digits_value(v@, start as int, 0) == 0);
        }
        while j < v.len() && is_digit(v[j])
            invariant
                start == i + 9,
                start <= j <= v.len(),
                cnt == if j - start < 9 {
                    j - start
                } else {
                    9
                },
                digits_at(v@, start as int, (j - start) as int),
                val == digits_value(v@, start as int, cnt as int),
                val < pow10(cnt as nat),
                pow10(9) == 1_000_000_000,
            decreases v.len() - j,
        {
            if cnt < 9 {
                let d = digit_value(v[j]);
                proof {
                    lemma_pow10_le((cnt + 1) as nat, 9);
                    assert(pow10((cnt + 1) as nat) == 10 * pow10(cnt as nat));
                }
                val = val * 10 + d;
                cnt = cnt + 1;
            }
            j = j + 1;
            assert(digits_at(v@, start as int, (j - start) as int));
        }
        proof {
            lemma_count_digits(v@, start as int, (j - start) as int);
        }
        if j == start {
            return None;
        }
        // Scale to nanoseconds: shorter fractions stand for larger units.
        let scale: u32 = pow10_u32(9 - cnt as u32);
        proof {
            lemma_digits_value_bound(v@, start as int, cnt as int);
            lemma_pow10_add(cnt as nat, (9 - cnt) as nat);
            assert(val * scale < pow10(9)) by (nonlinear_arith)
                requires
                    val < pow10(cnt as nat),
                    scale == pow10((9 - cnt) as nat),
                    pow10(cnt as nat) * pow10((9 - cnt) as nat) == pow10(9),
                    scale >= 1,
            ;
        }
        nanosecond = val * scale;
    }
    if hour > 23 {
        return None;
    }
    if minute > 59 {
        return None;
    }
    if second > 60 {
        return None;
    }
    Some((Time { hour, minute, second, nanosecond }, j))
}

/// Ten to the `n`, for exponents up to nine.
fn pow10_u32(n: u32) -> (r: u32)
    requires
        n <= 9,
    ensures
        r == pow10(n as nat),
{
    proof {
        lemma_pow10_values();
    }
    if n == 0 {
        1
    } else if n == 1 {
        10
    } else if n == 2 {
        100
    } else if n == 3 {
        1_000
    } else if n == 4 {
        10_000
    } else if n == 5 {
        100_000
    } else if n == 6 {
        1_000_000
    } else if n == 7 {
        10_000_000
    } else if n == 8 {
        100_000_000
    } else {
        1_000_000_000
    }
}

/// The time-offset recognizer: `Z`, `z`, a signed `HH:MM` offset within a
/// day of UTC, or nothing at the end of the input.
fn parse_offset(v: &Vec<char>, i: usize) -> (r: Option<(Option<Offset>, usize)>)
    requires
        i <= v.len(),
    ensures
        match r {
            Some((o, k)) => spec_parse_offset(v@, i as int) == Some((o, k as int)) && i <= k
                <= v.len() && (o matches Some(off) ==> offset_in_range(off)),
            None => spec_parse_offset(v@, i as int) is None,
        },
{
    if i == v.len() {
        return Some((None, i));
    }
    let c = v[i];
    if c == 'Z' || c == 'z' {
        return Some((Some(Offset::Z), i + 1));
    }
    if c == '+' || c == '-' {
        let hours = match read_2_digits(v, i + 1) {
            Some(h) => h,
            None => {
                return None;
            },
        };
        if !(i + 3 < v.len() && v[i + 3] == ':') {
            return None;
        }
        let minutes = match read_2_digits(v, i + 4) {
            Some(m) => m,
            None => {
                return None;
            },
        };
        let unsigned: i16 = hours as i16 * 60 + minutes as i16;
        let total: i16 = if c == '+' {
            unsigned
        } else {
            -unsigned
        };
        if total < -1440 || total > 1440 {
            return None;
        }
        return Some((Some(Offset::Custom { minutes: total }), i + 6));
    }
    None
}

/// A displayed date is parsed back from the first ten characters.
proof fn lemma_parse_displayed_date(d: Date, s: Seq<char>)
    requires
        date_in_range(d),
        s.len() >= 10,
        forall|j: int| 0 <= j < 10 ==> #[trigger] s[j] == spec_display_date(d)[j],
    ensures
        spec_parse_full_date(s) == Some(d),
{
    let y4 = spec_digits(d.year as int, 4);
    let m2 = spec_digits(d.month as int, 2);
    let d2 = spec_digits(d.day as int, 2);
    lemma_pow10_values();
    lemma_spec_digits(d.year as int, 4);
    lemma_spec_digits(d.month as int, 2);
    lemma_spec_digits(d.day as int, 2);
    let dd = spec_display_date(d);
    assert forall|j: int| 0 <= j < 4 implies #[trigger] s[0 + j] == y4[0 + j] by {
        assert(dd[j] == y4[j]);
    }
    assert(s[4] == dd[4] && dd[4] == '-');
    assert forall|j: int| 0 <= j < 2 implies #[trigger] s[5 + j] == m2[0 + j] by {
        assert(dd[5 + j] == m2[j]);
    }
    assert(s[7] == dd[7] && dd[7] == '-');
    assert forall|j: int| 0 <= j < 2 implies #[trigger] s[8 + j] == d2[0 + j] by {
        assert(dd[8 + j] == d2[j]);
    }
    assert(digits_at(s, 0, 4)) by {
        assert forall|k: int| 0 <= k < 4 implies spec_is_digit(#[trigger] s[k]) by {
            assert(s[0 + k] == y4[0 + k]);
        }
    }
    assert(digits_at(s, 5, 2)) by {
        assert forall|k: int| 5 <= k < 7 implies spec_is_digit(#[trigger] s[k]) by {
            assert(s[5 + (k - 5)] == m2[0 + (k - 5)]);
        }
    }
    assert(digits_at(s, 8, 2)) by {
        assert forall|k: int| 8 <= k < 10 implies spec_is_digit(#[trigger] s[k]) by {
            assert(s[8 + (k - 8)] == d2[0 + (k - 8)]);
        }
    }
    lemma_digits_value_congruence(s, y4, 0, 0, 4);
    lemma_digits_value_congruence(s, m2, 5, 0, 2);
    lemma_digits_value_congruence(s, d2, 8, 0, 2);
}

/// The length of a displayed time: eight characters, or nine plus the
/// trimmed fraction.
proof fn lemma_display_time_len(t: Time)
    requires
        time_in_range(t),
    ensures
        t.nanosecond == 0 ==> spec_display_time(t).len() == 8,
        t.nanosecond != 0 ==> spec_display_time(t).len() == 9 + trim_zeros(
            spec_digits(t.nanosecond as int, 9),
        ).len() && 1 <= trim_zeros(spec_digits(t.nanosecond as int, 9)).len() <= 9,
        spec_display_time(t).len() >= 8,
        spec_display_time(t)[2] == ':',
    decreases 0int,
{
    lemma_spec_digits_len(t.hour as int, 2);
    lemma_spec_digits_len(t.minute as int, 2);
    lemma_spec_digits_len(t.second as int, 2);
    lemma_spec_digits_len(t.nanosecond as int, 9);
    if t.nanosecond != 0 {
        let d9 = spec_digits(t.nanosecond as int, 9);
        lemma_trim_len(d9);
        assert(trim_zeros(d9).len() >= 1) by {
            if trim_zeros(d9).len() == 0 {
                lemma_pow10_values();
                if (t.nanosecond as int) < pow10(9) {
                    lemma_spec_digits(t.nanosecond as int, 9);
                    lemma_trim(d9);
                    assert((0int) * pow10((d9.len() - trim_zeros(d9).len()) as nat) == 0)
                        by (nonlinear_arith);
                }
            }
        }
    }
    assert(spec_display_time(t)[2] == ':');
}

/// Trimming never lengthens, and a nonzero all-digit run keeps a digit.
proof fn lemma_trim_len(s: Seq<char>)
    ensures
        trim_zeros(s).len() <= s.len(),
    decreases s.len(),
{
    if s.len() > 0 && s.last() == '0' {
        lemma_trim_len(s.drop_last());
    }
}

/// A displayed time is parsed back from its characters at `i`, when what
/// follows them is neither a digit nor a dot.
proof fn lemma_parse_displayed_time(t: Time, s: Seq<char>, i: int)
    requires
        time_in_range(t),
        0 <= i,
        i + spec_display_time(t).len() <= s.len(),
        forall|j: int|
            0 <= j < spec_display_time(t).len() ==> #[trigger] s[i + j] == spec_display_time(t)[j],
        i + spec_display_time(t).len() == s.len() || (s[i + spec_display_time(t).len()] != '.'
            && !spec_is_digit(s[i + spec_display_time(t).len()])),
    ensures
        spec_parse_partial_time(s, i) == Some((t, i + spec_display_time(t).len())),
{
    let tt = spec_display_time(t);
    let h2 = spec_digits(t.hour as int, 2);
    let m2 = spec_digits(t.minute as int, 2);
    let s2 = spec_digits(t.second as int, 2);
    lemma_pow10_values();
    lemma_spec_digits(t.hour as int, 2);
    lemma_spec_digits(t.minute as int, 2);
    lemma_spec_digits(t.second as int, 2);
    assert forall|j: int| 0 <= j < 2 implies #[trigger] s[i + j] == h2[0 + j] by {
        assert(tt[j] == h2[j]);
    }
    assert(s[i + 2] == tt[2] && tt[2] == ':');
    assert forall|j: int| 0 <= j < 2 implies #[trigger] s[i + 3 + j] == m2[0 + j] by {
        assert(s[i + (3 + j)] == tt[3 + j]);
        assert(tt[3 + j] == m2[j]);
    }
    assert(s[i + 5] == tt[5] && tt[5] == ':');
    assert forall|j: int| 0 <= j < 2 implies #[trigger] s[i + 6 + j] == s2[0 + j] by {
        assert(s[i + (6 + j)] == tt[6 + j]);
        assert(tt[6 + j] == s2[j]);
    }
    assert(digits_at(s, i, 2)) by {
        assert forall|k: int| i <= k < i + 2 implies spec_is_digit(#[trigger] s[k]) by {
            assert(s[i + (k - i)] == h2[0 + (k - i)]);
        }
    }
    assert(digits_at(s, i + 3, 2)) by {
        assert forall|k: int| i + 3 <= k < i + 5 implies spec_is_digit(#[trigger] s[k]) by {
            assert(s[i + 3 + (k - i - 3)] == m2[0 + (k - i - 3)]);
        }
    }
    assert(digits_at(s, i + 6, 2)) by {
        assert forall|k: int| i + 6 <= k < i + 8 implies spec_is_digit(#[trigger] s[k]) by {
            assert(s[i + 6 + (k - i - 6)] == s2[0 + (k - i - 6)]);
        }
    }
    lemma_digits_value_congruence(s, h2, i, 0, 2);
    lemma_digits_value_congruence(s, m2, i + 3, 0, 2);
    lemma_digits_value_congruence(s, s2, i + 6, 0, 2);
    if t.nanosecond == 0 {
        assert(tt.len() == 8);
        if i + 8 < s.len() {
            assert(s[i + 8] != '.');
        }
    } else {
        let d9 = spec_digits(t.nanosecond as int, 9);
        let f = trim_zeros(d9);
        lemma_spec_digits(t.nanosecond as int, 9);
        lemma_trim(d9);
        let fl = f.len() as int;
        assert(tt.len() == 9 + fl);
        assert(s[i + 8] == tt[8] && tt[8] == '.');
        assert forall|j: int| 0 <= j < fl implies #[trigger] s[i + 9 + j] == f[j] by {
            assert(s[i + (9 + j)] == tt[9 + j]);
            assert(tt[9 + j] == f[j]);
        }
        assert(1 <= fl <= 9);
        assert forall|k: int| i + 9 <= k < i + 9 + fl implies spec_is_digit(#[trigger] s[k]) by {
            assert(s[i + 9 + (k - i - 9)] == f[k - i - 9]);
            assert(f[k - i - 9] == trim_zeros(d9)[k - i - 9]);
        }
        lemma_count_digits(s, i + 9, fl);
        assert(count_digits(s, i + 9) == fl);
        lemma_digits_value_congruence(s, f, i + 9, 0, fl);
        assert(digits_value(s, i + 9, fl) == digits_value(f, 0, fl));
        assert(digits_value(d9, 0, 9) == t.nanosecond as int);
        assert(digits_value(f, 0, fl) * pow10((9 - fl) as nat) == t.nanosecond as int);
        assert(spec_parse_partial_time(s, i) == Some((t, i + 9 + fl)));
    }
}

/// A displayed offset ending the input is parsed back from `i`.
proof fn lemma_parse_displayed_offset(o: Offset, s: Seq<char>, i: int)
    requires
        offset_in_range(o),
        0 <= i,
        i + spec_display_offset(o).len() == s.len(),
        forall|j: int|
            0 <= j < spec_display_offset(o).len() ==> #[trigger] s[i + j] == spec_display_offset(
                o,
            )[j],
    ensures
        spec_parse_offset(s, i) == Some((Some(o), s.len() as int)),
{
    let oo = spec_display_offset(o);
    match o {
        Offset::Z => {
            assert(s[i + 0] == oo[0] && oo[0] == 'Z');
        },
        Offset::Custom { minutes } => {
            let mag = if minutes < 0 {
                -(minutes as int)
            } else {
                minutes as int
            };
            let h2 = spec_digits(mag / 60, 2);
            let m2 = spec_digits(mag % 60, 2);
            lemma_pow10_values();
            assert(0 <= mag <= 1440);
            assert(mag / 60 <= 24 && 0 <= mag / 60);
            assert(0 <= mag % 60 < 60);
            lemma_spec_digits(mag / 60, 2);
            lemma_spec_digits(mag % 60, 2);
            assert(s[i + 0] == oo[0]);
            assert forall|j: int| 0 <= j < 2 implies #[trigger] s[i + 1 + j] == h2[0 + j] by {
                assert(s[i + (1 + j)] == oo[1 + j]);
                assert(oo[1 + j] == h2[j]);
            }
            assert(s[i + 3] == oo[3] && oo[3] == ':');
            assert forall|j: int| 0 <= j < 2 implies #[trigger] s[i + 4 + j] == m2[0 + j] by {
                assert(s[i + (4 + j)] == oo[4 + j]);
                assert(oo[4 + j] == m2[j]);
            }
            assert(digits_at(s, i + 1, 2)) by {
                assert forall|k: int| i + 1 <= k < i + 3 implies spec_is_digit(#[trigger] s[k]) by {
                    assert(s[i + 1 + (k - i - 1)] == h2[0 + (k - i - 1)]);
                }
            }
            assert(digits_at(s, i + 4, 2)) by {
                assert forall|k: int| i + 4 <= k < i + 6 implies spec_is_digit(#[trigger] s[k]) by {
                    assert(s[i + 4 + (k - i - 4)] == m2[0 + (k - i - 4)]);
                }
            }
            lemma_digits_value_congruence(s, h2, i + 1, 0, 2);
            lemma_digits_value_congruence(s, m2, i + 4, 0, 2);
            assert(digits_value(s, i + 1, 2) == mag / 60);
            assert(digits_value(s, i + 4, 2) == mag % 60);
            assert((mag / 60) * 60 + mag % 60 == mag) by {
                vstd::arithmetic::div_mod::lemma_fundamental_div_mod(mag, 60);
            }
            if minutes < 0 {
                assert(oo[0] == '-');
                assert(s[i] != 'Z' && s[i] != 'z' && s[i] != '+');
            } else {
                assert(oo[0] == '+');
                assert(s[i] != 'Z' && s[i] != 'z');
            }
        },
    }
}

/// Parsing the canonical display form of a well-formed datetime yields
/// the same datetime: the display and the datetime grammar are mutual
/// inverses on everything the engine can produce.
pub proof fn lemma_display_round_trip(dt: Datetime)
    requires
        datetime_in_range(dt),
    ensures
        spec_datetime_str(spec_display(dt)) == Some(dt),
{
    let s = spec_display(dt);
    match (dt.date, dt.time) {
        (Some(d), None) => {
            let dd = spec_display_date(d);
            lemma_pow10_values();
            lemma_spec_digits(d.year as int, 4);
            lemma_spec_digits_len(d.year as int, 4);
            lemma_spec_digits_len(d.month as int, 2);
            lemma_spec_digits_len(d.day as int, 2);
            assert(dd.len() == 10);
            assert(s =~= dd);
            assert forall|j: int| 0 <= j < 10 implies #[trigger] s[j] == dd[j] by {}
            lemma_parse_displayed_date(d, s);
            assert(spec_is_digit(s[2])) by {
                assert(s[2] == dd[2]);
                assert(dd[2] == spec_digits(d.year as int, 4)[2]);
                lemma_spec_digits(d.year as int, 4);
            }
            assert(s[2] != ':');
        },
        (None, Some(t)) => {
            let tt = spec_display_time(t);
            lemma_pow10_values();
            lemma_display_time_len(t);
            assert(s =~= tt);
            assert(tt.len() >= 8);
            assert(s[2] == tt[2] && tt[2] == ':');
            assert forall|j: int| 0 <= j < tt.len() implies #[trigger] s[0 + j] == tt[j] by {}
            lemma_parse_displayed_time(t, s, 0);
        },
        (Some(d), Some(t)) => {
            let dd = spec_display_date(d);
            let tt = spec_display_time(t);
            let tpart = seq!['T'] + tt;
            let opart = match dt.offset {
                Some(o) => spec_display_offset(o),
                None => Seq::<char>::empty(),
            };
            lemma_pow10_values();
            lemma_spec_digits(d.year as int, 4);
            lemma_spec_digits_len(d.year as int, 4);
            lemma_spec_digits_len(d.month as int, 2);
            lemma_spec_digits_len(d.day as int, 2);
            lemma_display_time_len(t);
            assert(dd.len() == 10);
            assert(s == dd + tpart + opart);
            assert forall|j: int| 0 <= j < 10 implies #[trigger] s[j] == dd[j] by {
                assert((dd + tpart)[j] == dd[j]);
            }
            lemma_parse_displayed_date(d, s);
            assert(spec_is_digit(s[2])) by {
                assert(dd[2] == spec_digits(d.year as int, 4)[2]);
            }
            assert(s[2] != ':');
            assert(s.len() > 10);
            assert(s[10] == 'T') by {
                assert((dd + tpart)[10] == tpart[0]);
                assert(s[10] == (dd + tpart)[10]);
            }
            assert forall|j: int| 0 <= j < tt.len() implies #[trigger] s[11 + j] == tt[j] by {
                assert(s[11 + j] == (dd + tpart)[11 + j]);
                assert((dd + tpart)[11 + j] == tpart[1 + j]);
            }
            let te = 11 + tt.len() as int;
            if te < s.len() {
                assert(s[te] == opart[0]);
                match dt.offset {
                    Some(o) => {
                        match o {
                            Offset::Z => {
                                assert(opart[0] == 'Z');
                            },
                            Offset::Custom { minutes } => {
                                assert(opart[0] == '-' || opart[0] == '+');
                            },
                        }
                        assert(s[te] != '.' && !spec_is_digit(s[te]));
                    },
                    None => {
                        assert(false);
                    },
                }
            }
            lemma_parse_displayed_time(t, s, 11);
            match dt.offset {
                Some(o) => {
                    assert forall|j: int|
                        0 <= j < opart.len() implies #[trigger] s[te + j] == opart[j] by {}
                    lemma_parse_displayed_offset(o, s, te);
                },
                None => {
                    assert(te == s.len());
                },
            }
        },
        (None, None) => {
            assert(false);
        },
    }
}

/// The character of a decimal digit value is a digit character with that
/// value.
pub proof fn lemma_digit_char(x: int)
    requires
        0 <= x <= 9,
    ensures
        spec_is_digit(digit_char(x)),
        digit_val(digit_char(x)) == x,
{
}

/// A `k`-digit form has `k` characters, whatever the value.
pub proof fn lemma_spec_digits_len(x: int, k: nat)
    ensures
        spec_digits(x, k).len() == k,
    decreases k,
{
    if k > 0 {
        lemma_spec_digits_len(x / 10, (k - 1) as nat);
    }
}

/// The value of a digit run depends only on the characters it covers.
pub proof fn lemma_digits_value_congruence(s: Seq<char>, t: Seq<char>, a: int, b: int, n: int)
    requires
        0 <= a,
        a + n <= s.len(),
        0 <= b,
        b + n <= t.len(),
        0 <= n,
        forall|j: int| 0 <= j < n ==> #[trigger] s[a + j] == t[b + j],
    ensures
        digits_value(s, a, n) == digits_value(t, b, n),
    decreases n,
{
    if n > 0 {
        lemma_digits_value_congruence(s, t, a, b, n - 1);
        assert(s[a + (n - 1)] == t[b + (n - 1)]);
    }
}

/// The `k`-digit form of `x` is `k` digit characters whose value is `x`.
pub proof fn lemma_spec_digits(x: int, k: nat)
    requires
        0 <= x < pow10(k),
    ensures
        spec_digits(x, k).len() == k,
        digits_at(spec_digits(x, k), 0, k as int),
        digits_value(spec_digits(x, k), 0, k as int) == x,
    decreases k,
{
    if k == 0 {
    } else {
        assert(pow10(k) == 10 * pow10((k - 1) as nat));
        assert(x / 10 < pow10((k - 1) as nat)) by (nonlinear_arith)
            requires
                0 <= x < 10 * pow10((k - 1) as nat),
        ;
        lemma_spec_digits(x / 10, (k - 1) as nat);
        let t = spec_digits(x / 10, (k - 1) as nat);
        let s = spec_digits(x, k);
        lemma_digit_char(x % 10);
        assert(s == t.push(digit_char(x % 10)));
        assert forall|j: int| 0 <= j < k - 1 implies #[trigger] s[0 + j] == t[0 + j] by {
            assert(s[j] == t[j]);
        }
        lemma_digits_value_congruence(s, t, 0, 0, k as int - 1);
        assert(digits_value(s, 0, k as int) == digits_value(s, 0, k as int - 1) * 10 + digit_val(
            s[k - 1],
        ));
        assert(x == (x / 10) * 10 + x % 10) by {
            vstd::arithmetic::div_mod::lemma_fundamental_div_mod(x, 10);
        }
    }
}

/// Trimming trailing zeros keeps a prefix whose value scales back up to
/// the original by the matching power of ten, and a nonzero value keeps
/// at least one digit.
pub proof fn lemma_trim(s: Seq<char>)
    requires
        digits_at(s, 0, s.len() as int),
    ensures
        trim_zeros(s).len() <= s.len(),
        forall|j: int| 0 <= j < trim_zeros(s).len() ==> #[trigger] trim_zeros(s)[j] == s[j],
        digits_at(trim_zeros(s), 0, trim_zeros(s).len() as int),
        digits_value(s, 0, s.len() as int) == digits_value(
            trim_zeros(s),
            0,
            trim_zeros(s).len() as int,
        ) * pow10((s.len() - trim_zeros(s).len()) as nat),
        digits_value(s, 0, s.len() as int) != 0 ==> trim_zeros(s).len() >= 1,
        trim_zeros(s).len() > 0 ==> trim_zeros(s).last() != '0',
    decreases s.len(),
{
    let t = trim_zeros(s);
    if s.len() > 0 && s.last() == '0' {
        let b = s.drop_last();
        assert(digits_at(b, 0, b.len() as int));
        lemma_trim(b);
        lemma_digits_value_congruence(s, b, 0, 0, s.len() as int - 1);
        assert(digit_val(s[s.len() - 1]) == 0);
        assert(digits_value(s, 0, s.len() as int) == digits_value(b, 0, b.len() as int) * 10);
        let vt = digits_value(t, 0, t.len() as int);
        let k = b.len() - t.len();
        assert(digits_value(b, 0, b.len() as int) == vt * pow10(k as nat));
        assert(pow10((k + 1) as nat) == 10 * pow10(k as nat));
        assert((vt * pow10(k as nat)) * 10 == vt * pow10((k + 1) as nat)) by (nonlinear_arith)
            requires
                pow10((k + 1) as nat) == 10 * pow10(k as nat),
        ;
        assert forall|j: int| 0 <= j < t.len() implies #[trigger] t[j] == s[j] by {
            assert(t[j] == b[j]);
        }
    } else {
        assert(t == s);
        assert(pow10(0) == 1);
        let v = digits_value(s, 0, s.len() as int);
        assert(v * 1 == v) by (nonlinear_arith);
        if v != 0 && s.len() == 0 {
            assert(false);
        }
    }
}

/// The digit character of a decimal digit.
fn digit_to_char(d: u8) -> (c: char)
    requires
        d <= 9,
    ensures
        c == digit_char(d as int),
{
    (48 + d) as char
}

/// The `k`-digit zero-padded decimal form of `x`.
fn digits_of(x: u64, k: usize) -> (v: Vec<char>)
    requires
        k <= 9,
    ensures
        v@ == spec_digits(x as int, k as nat),
    decreases k,
{
    if k == 0 {
        let v: Vec<char> = Vec::new();
        proof {
            assert(v@ =~= spec_digits(x as int, 0));
        }
        v
    } else {
        let mut v = digits_of(x / 10, k - 1);
        v.push(digit_to_char((x % 10) as u8));
        proof {
            assert((x % 10) as u8 as int == (x as int) % 10);
            assert((x / 10) as int == (x as int) / 10);
        }
        v
    }
}

impl Datetime {
    /// The canonical display form: `YYYY-MM-DD`, a `T` and `HH:MM:SS` with
    /// any nonzero fraction, and the offset, for whichever parts are
    /// present.  Parsing this form gives the datetime back.
    pub fn display(&self) -> (s: String)
        requires
            datetime_in_range(*self),
        ensures
            s@ == spec_display(*self),
    {
        let mut out: Vec<char> = Vec::new();
        match self.date {
            Some(d) => {
                let mut part = digits_of(d.year as u64, 4);
                part.push('-');
                let mut two = digits_of(d.month as u64, 2);
                part.append(&mut two);
                part.push('-');
                let mut two2 = digits_of(d.day as u64, 2);
                part.append(&mut two2);
                proof {
                    assert(part@ =~= spec_display_date(d));
                }
                out.append(&mut part);
            },
            None => {},
        }
        let ghost after_date = out@;
        match self.time {
            Some(t) => {
                let mut part: Vec<char> = Vec::new();
                if self.date.is_some() {
                    part.push('T');
                }
                let mut h = digits_of(t.hour as u64, 2);
                part.append(&mut h);
                part.push(':');
                let mut m = digits_of(t.minute as u64, 2);
                part.append(&mut m);
                part.push(':');
                let mut sec = digits_of(t.second as u64, 2);
                part.append(&mut sec);
                if t.nanosecond != 0 {
                    part.push('.');
                    let mut frac = digits_of(t.nanosecond as u64, 9);
                    proof {
                        lemma_pow10_values();
                    }
                    while frac.len() > 0 && frac[frac.len() - 1] == '0'
                        invariant
                            trim_zeros(spec_digits(t.nanosecond as int, 9)) == trim_zeros(frac@),
                        decreases frac.len(),
                    {
                        let ghost before = frac@;
                        frac.pop();
                        proof {
                            assert(frac@ =~= before.drop_last());
                        }
                    }
                    proof {
                        assert(trim_zeros(frac@) == frac@);
                    }
                    part.append(&mut frac);
                }
                proof {
                    assert(part@ =~= (if (*self).date is Some {
                        seq!['T']
                    } else {
                        Seq::<char>::empty()
                    }) + spec_display_time(t));
                }
                out.append(&mut part);
            },
            None => {},
        }
        let ghost after_time = out@;
        match self.offset {
            Some(o) => {
                let mut part: Vec<char> = Vec::new();
                match o {
                    Offset::Z => {
                        part.push('Z');
                    },
                    Offset::Custom { minutes } => {
                        let mag: i16 = if minutes < 0 {
                            part.push('-');
                            -minutes
                        } else {
                            part.push('+');
                            minutes
                        };
                        let mut h = digits_of((mag / 60) as u64, 2);
                        part.append(&mut h);
                        part.push(':');
                        let mut m = digits_of((mag % 60) as u64, 2);
                        part.append(&mut m);
                    },
                }
                proof {
                    assert(part@ =~= spec_display_offset(o));
                }
                out.append(&mut part);
            },
            None => {},
        }
        proof {
            assert(out@ =~= spec_display(*self));
        }
        crate::scan::string_from_chars(&out)
    }
}

impl Datetime {
    /// Parses a datetime literal: a full date, optionally followed by a
    /// delimiter (`T`, `t` or a space), a partial time and an optional
    /// offset; or a partial time alone.  Any out-of-range component or
    /// trailing character is the datetime validation error.
    pub fn from_str(s: &str) -> (r: Result<Datetime, Error>)
        ensures
            match r {
                Ok(dt) => spec_datetime_str(s@) == Some(dt) && datetime_in_range(dt),
                Err(e) => spec_datetime_str(s@) is None && e matches Error::Datetime,
            },
    {
        let v = chars_vec(s);
        Self::from_chars(&v)
    }

    /// Parses a datetime literal given as a character buffer.
    pub fn from_chars(v: &Vec<char>) -> (r: Result<Datetime, Error>)
        ensures
            match r {
                Ok(dt) => spec_datetime_str(v@) == Some(dt) && datetime_in_range(dt),
                Err(e) => spec_datetime_str(v@) is None && e matches Error::Datetime,
            },
    {
        let n = v.len();
        if n < 3 {
            return Err(Error::Datetime);
        }
        if v[2] == ':' {
            // A local time stands alone.
            match parse_partial_time(v, 0) {
                Some((t, j)) => {
                    if j == n {
                        Ok(Datetime { date: None, time: Some(t), offset: None })
                    } else {
                        Err(Error::Datetime)
                    }
                },
                None => Err(Error::Datetime),
            }
        } else {
            let date = match parse_full_date(v) {
                Some(d) => d,
                None => {
                    return Err(Error::Datetime);
                },
            };
            if n == 10 {
                return Ok(Datetime { date: Some(date), time: None, offset: None });
            }
            let delim = v[10];
            if !(delim == 'T' || delim == 't' || delim == ' ') {
                return Err(Error::Datetime);
            }
            let (time, j) = match parse_partial_time(v, 11) {
                Some(tj) => tj,
                None => {
                    return Err(Error::Datetime);
                },
            };
            let (offset, k) = match parse_offset(v, j) {
                Some(ok) => ok,
                None => {
                    return Err(Error::Datetime);
                },
            };
            if k == n {
                Ok(Datetime { date: Some(date), time: Some(time), offset })
            } else {
                Err(Error::Datetime)
            }
        }
    }
}

} // verus!
