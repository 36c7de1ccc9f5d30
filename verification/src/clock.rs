//! Calendar time: the plain representation of a local timestamp, the
//! process-creation-date parser, uptime computation and its `H:MM:SS`
//! rendering, and the timestamp format used by the operation log.

use vstd::prelude::*;
use chrono::Datelike;
use chrono::Timelike;
use crate::bytes::all_digits;
use crate::bytes::ascii_chars;
use crate::bytes::dec_digits;
use crate::bytes::dec_value;
use crate::bytes::dec2_digits;
use crate::bytes::dec4_digits;
use crate::bytes::is_dec_digit;
use crate::bytes::lemma_dec_digits_are_digits;
use crate::bytes::parse_u64;
use crate::bytes::push_dec_u64;
use crate::bytes::push_dec2;
use crate::bytes::push_dec4;
use crate::bytes::string_from_ascii;
use crate::bytes::sub_bytes;
use crate::bytes::copy_bytes;
use crate::bytes::lines_of;
use crate::bytes::seq_views;
use crate::bytes::split_lines;
use crate::bytes::trim_bytes;
use crate::bytes::trim_spec;

verus! {

/// A local calendar timestamp, held as plain fields.
#[derive(Debug, Clone, Copy, PartialEq, Eq, Structural)]
pub struct CivilDateTime {
    pub year: u64,
    pub month: u64,
    pub day: u64,
    pub hour: u64,
    pub minute: u64,
    pub second: u64,
}

/// A Gregorian leap year.
pub open spec fn is_leap_year(y: int) -> bool {
    (y % 4 == 0 && y % 100 != 0) || y % 400 == 0
}

/// The number of days of month `m` in year `y`.
pub open spec fn days_in_month(y: int, m: int) -> int
    recommends
        1 <= m <= 12,
{
    if m == 2 {
        if is_leap_year(y) {
            29
        } else {
            28
        }
    } else if m == 4 || m == 6 || m == 9 || m == 11 {
        30
    } else {
        31
    }
}

/// Computes the number of days of month `m` in year `y`.
pub fn days_in_month_of(y: u64, m: u64) -> (r: u64)
    requires
        1 <= m <= 12,
    ensures
        r == days_in_month(y as int, m as int),
{
    if m == 2 {
        if (y % 4 == 0 && y % 100 != 0) || y % 400 == 0 {
            29
        } else {
            28
        }
    } else if m == 4 || m == 6 || m == 9 || m == 11 {
        30
    } else {
        31
    }
}

/// The days of year `y` that precede month `m`.
pub open spec fn days_before_month(y: int, m: int) -> int
    decreases m,
{
    if m <= 1 {
        0
    } else {
        days_before_month(y, m - 1) + days_in_month(y, m - 1)
    }
}

/// A timestamp whose fields form an actual calendar date and time, within
/// the four-digit-year range the creation-date format carries.
pub open spec fn valid_civil(t: CivilDateTime) -> bool {
    &&& 1 <= t.year <= 9999
    &&& 1 <= t.month <= 12
    &&& 1 <= t.day <= days_in_month(t.year as int, t.month as int)
    &&& t.hour < 24
    &&& t.minute < 60
    &&& t.second < 60
}

/// The day index of a date, counted from the first of January of year one.
pub open spec fn days_from_civil(y: int, m: int, d: int) -> int {
    (y - 1) * 365 + (y - 1) / 4 - (y - 1) / 100 + (y - 1) / 400 + days_before_month(y, m) + (d - 1)
}

/// The second index of a timestamp within the same epoch.
pub open spec fn civil_secs(t: CivilDateTime) -> int {
    days_from_civil(t.year as int, t.month as int, t.day as int) * 86400 + t.hour * 3600 + t.minute
        * 60 + t.second
}

/// Every month contributes between 28 and 31 days, so the days that precede
/// month `m` number at most `31 * (m - 1)`.
proof fn lemma_days_before_month_bounds(y: int, m: int)
    requires
        1 <= m <= 13,
    ensures
        0 <= days_before_month(y, m) <= 31 * (m - 1),
    decreases m,
{
    if m > 1 {
        lemma_days_before_month_bounds(y, m - 1);
    }
}

/// Computes the day index of a valid date.
fn days_from_civil_of(y: u64, m: u64, d: u64) -> (r: u64)
    requires
        1 <= y <= 9999,
        1 <= m <= 12,
        1 <= d <= 31,
    ensures
        r == days_from_civil(y as int, m as int, d as int),
{
    let prior: u64 = y - 1;
    let mut before: u64 = 0;
    let mut mm: u64 = 1;
    while mm < m
        invariant
            1 <= mm <= m <= 12,
            before == days_before_month(y as int, mm as int),
            before <= 31 * (mm - 1),
        decreases m - mm,
    {
        proof {
            lemma_days_before_month_bounds(y as int, mm as int);
        }
        before = before + days_in_month_of(y, mm);
        mm += 1;
    }
    prior * 365 + prior / 4 - prior / 100 + prior / 400 + before + (d - 1)
}

/// The total seconds of a valid timestamp since the epoch of year one.
pub fn civil_secs_of(t: &CivilDateTime) -> (r: u64)
    requires
        valid_civil(*t),
    ensures
        r == civil_secs(*t),
{
    let days = days_from_civil_of(t.year, t.month, t.day);
    proof {
        lemma_days_before_month_bounds(t.year as int, t.month as int);
    }
    days * 86400 + t.hour * 3600 + t.minute * 60 + t.second
}

/// The seconds the process has been up: the difference of the two
/// timestamps, or zero when the clock reads earlier than the start.
pub open spec fn uptime_secs_spec(start: CivilDateTime, now: CivilDateTime) -> int {
    if civil_secs(now) >= civil_secs(start) {
        civil_secs(now) - civil_secs(start)
    } else {
        0
    }
}

/// Computes the uptime seconds between two valid timestamps.
pub fn uptime_seconds(start: &CivilDateTime, now: &CivilDateTime) -> (r: u64)
    requires
        valid_civil(*start),
        valid_civil(*now),
    ensures
        r == uptime_secs_spec(*start, *now),
{
    let a = civil_secs_of(start);
    let b = civil_secs_of(now);
    if b >= a {
        b - a
    } else {
        0
    }
}

/// The `H:MM:SS` rendering of a duration, with an unbounded hours field.
pub open spec fn hms_chars(secs: int) -> Seq<char>
    recommends
        secs >= 0,
{
    ascii_chars(
        dec_digits(secs / 3600) + seq![58u8] + dec2_digits((secs / 60) % 60) + seq![58u8]
            + dec2_digits(secs % 60),
    )
}

/// Renders a duration in seconds as `H:MM:SS`.
pub fn format_uptime(secs: u64) -> (r: String)
    ensures
        r@ == hms_chars(secs as int),
{
    let mut buf: Vec<u8> = Vec::new();
    push_dec_u64(secs / 3600, &mut buf);
    buf.push(58u8);
    push_dec2((secs / 60) % 60, &mut buf);
    buf.push(58u8);
    push_dec2(secs % 60, &mut buf);
    proof {
        lemma_dec_digits_are_digits(secs as int / 3600);
        assert(buf@ =~= dec_digits(secs as int / 3600) + seq![58u8] + dec2_digits(
            (secs as int / 60) % 60,
        ) + seq![58u8] + dec2_digits(secs as int % 60));
        assert forall|i: int| 0 <= i < buf@.len() implies #[trigger] buf@[i] < 128 by {
            let a = dec_digits(secs as int / 3600);
            if i < a.len() {
                assert(is_dec_digit(a[i]));
            }
        }
    }
    string_from_ascii(buf)
}

/// The timestamp a fourteen-digit creation date denotes, when its fields
/// form a real calendar date and time.
pub open spec fn parse_creation_spec(cd: Seq<u8>) -> Option<CivilDateTime> {
    if cd.len() >= 14 && all_digits(cd.take(14)) {
        let t = CivilDateTime {
            year: dec_value(cd.subrange(0, 4)) as u64,
            month: dec_value(cd.subrange(4, 6)) as u64,
            day: dec_value(cd.subrange(6, 8)) as u64,
            hour: dec_value(cd.subrange(8, 10)) as u64,
            minute: dec_value(cd.subrange(10, 12)) as u64,
            second: dec_value(cd.subrange(12, 14)) as u64,
        };
        if valid_civil(t) {
            Some(t)
        } else {
            None
        }
    } else {
        None
    }
}

/// Ten to the power `n`.
pub open spec fn pow10(n: int) -> int
    decreases n,
{
    if n <= 0 {
        1
    } else {
        10 * pow10(n - 1)
    }
}

/// A digit string of `n` digits denotes a value below ten to the `n`.
proof fn lemma_dec_value_bound(s: Seq<u8>)
    requires
        all_digits(s),
    ensures
        0 <= dec_value(s) < pow10(s.len() as int),
    decreases s.len(),
{
    if s.len() > 0 {
        assert(all_digits(s.drop_last())) by {
            assert(forall|i: int|
                0 <= i < s.len() - 1 ==> is_dec_digit(#[trigger] s.drop_last()[i])
                    == is_dec_digit(s[i]));
        }
        lemma_dec_value_bound(s.drop_last());
    }
}

/// A digit string of at most four digits denotes a value below ten
/// thousand.
proof fn lemma_dec_value_small(s: Seq<u8>)
    requires
        all_digits(s),
        s.len() <= 4,
    ensures
        0 <= dec_value(s) < 10000,
{
    lemma_dec_value_bound(s);
    reveal_with_fuel(pow10, 5);
    assert(pow10(4) == 10000);
    assert(pow10(s.len() as int) <= 10000) by {
        if s.len() == 0 {
            assert(pow10(0) == 1);
        } else if s.len() == 1 {
            assert(pow10(1) == 10);
        } else if s.len() == 2 {
            assert(pow10(2) == 100);
        } else if s.len() == 3 {
            assert(pow10(3) == 1000);
        }
    }
}

/// Parses the first fourteen digits of a process creation date
/// (`yyyymmddHHMMSS`) into a timestamp, rejecting anything that is not a
/// real calendar date and time.
pub fn parse_creation_date(cd: &Vec<u8>) -> (r: Option<CivilDateTime>)
    ensures
        r == parse_creation_spec(cd@),
{
    if cd.len() < 14 {
        return None;
    }
    let f0 = sub_bytes(cd, 0, 4);
    let f1 = sub_bytes(cd, 4, 6);
    let f2 = sub_bytes(cd, 6, 8);
    let f3 = sub_bytes(cd, 8, 10);
    let f4 = sub_bytes(cd, 10, 12);
    let f5 = sub_bytes(cd, 12, 14);
    let p0 = parse_u64(&f0);
    let p1 = parse_u64(&f1);
    let p2 = parse_u64(&f2);
    let p3 = parse_u64(&f3);
    let p4 = parse_u64(&f4);
    let p5 = parse_u64(&f5);
    match (p0, p1, p2, p3, p4, p5) {
        (Some(y), Some(mo), Some(d), Some(h), Some(mi), Some(s)) => {
            proof {
                assert forall|i: int| 0 <= i < 14 implies is_dec_digit(
                    #[trigger] cd@.take(14)[i],
                ) by {
                    if i < 4 {
                        assert(cd@.take(14)[i] == f0@[i]);
                        assert(is_dec_digit(f0@[i]));
                    } else if i < 6 {
                        assert(cd@.take(14)[i] == f1@[i - 4]);
                        assert(is_dec_digit(f1@[i - 4]));
                    } else if i < 8 {
                        assert(cd@.take(14)[i] == f2@[i - 6]);
                        assert(is_dec_digit(f2@[i - 6]));
                    } else if i < 10 {
                        assert(cd@.take(14)[i] == f3@[i - 8]);
                        assert(is_dec_digit(f3@[i - 8]));
                    } else if i < 12 {
                        assert(cd@.take(14)[i] == f4@[i - 10]);
                        assert(is_dec_digit(f4@[i - 10]));
                    } else {
                        assert(cd@.take(14)[i] == f5@[i - 12]);
                        assert(is_dec_digit(f5@[i - 12]));
                    }
                }
                assert(all_digits(cd@.take(14)));
            }
            let t = CivilDateTime { year: y, month: mo, day: d, hour: h, minute: mi, second: s };
            if t.year >= 1 && t.month >= 1 && t.month <= 12 && t.day >= 1 && t.hour < 24
                && t.minute < 60 && t.second < 60 && t.day <= days_in_month_of(t.year, t.month) {
                proof {
                    lemma_dec_value_small(f0@);
                }
                Some(t)
            } else {
                None
            }
        },
        _ => {
            proof {
                if all_digits(cd@.take(14)) {
                    assert forall|i: int| 0 <= i < 4 implies is_dec_digit(#[trigger] f0@[i]) by {
                        assert(f0@[i] == cd@.take(14)[i]);
                    }
                    assert forall|i: int| 0 <= i < 2 implies is_dec_digit(#[trigger] f1@[i]) by {
                        assert(f1@[i] == cd@.take(14)[i + 4]);
                    }
                    assert forall|i: int| 0 <= i < 2 implies is_dec_digit(#[trigger] f2@[i]) by {
                        assert(f2@[i] == cd@.take(14)[i + 6]);
                    }
                    assert forall|i: int| 0 <= i < 2 implies is_dec_digit(#[trigger] f3@[i]) by {
                        assert(f3@[i] == cd@.take(14)[i + 8]);
                    }
                    assert forall|i: int| 0 <= i < 2 implies is_dec_digit(#[trigger] f4@[i]) by {
                        assert(f4@[i] == cd@.take(14)[i + 10]);
                    }
                    assert forall|i: int| 0 <= i < 2 implies is_dec_digit(#[trigger] f5@[i]) by {
                        assert(f5@[i] == cd@.take(14)[i + 12]);
                    }
                    lemma_dec_value_small(f0@);
                    lemma_dec_value_small(f1@);
                    lemma_dec_value_small(f2@);
                    lemma_dec_value_small(f3@);
                    lemma_dec_value_small(f4@);
                    lemma_dec_value_small(f5@);
                    assert(false);
                }
            }
            None
        },
    }
}

/// The `yyyy-mm-dd HH:MM:SS` rendering of a timestamp, as written by the
/// operation log.
pub open spec fn timestamp_chars(t: CivilDateTime) -> Seq<char>
    recommends
        valid_civil(t),
{
    ascii_chars(
        dec4_digits(t.year as int) + seq![45u8] + dec2_digits(t.month as int) + seq![45u8]
            + dec2_digits(t.day as int) + seq![32u8] + dec2_digits(t.hour as int) + seq![58u8]
            + dec2_digits(t.minute as int) + seq![58u8] + dec2_digits(t.second as int),
    )
}

/// Renders a timestamp for the operation log.
pub fn format_timestamp(t: &CivilDateTime) -> (r: String)
    requires
        valid_civil(*t),
    ensures
        r@ == timestamp_chars(*t),
{
    let mut buf: Vec<u8> = Vec::new();
    push_dec4(t.year, &mut buf);
    buf.push(45u8);
    push_dec2(t.month, &mut buf);
    buf.push(45u8);
    push_dec2(t.day, &mut buf);
    buf.push(32u8);
    push_dec2(t.hour, &mut buf);
    buf.push(58u8);
    push_dec2(t.minute, &mut buf);
    buf.push(58u8);
    push_dec2(t.second, &mut buf);
    proof {
        assert(buf@ =~= dec4_digits(t.year as int) + seq![45u8] + dec2_digits(t.month as int)
            + seq![45u8] + dec2_digits(t.day as int) + seq![32u8] + dec2_digits(t.hour as int)
            + seq![58u8] + dec2_digits(t.minute as int) + seq![58u8] + dec2_digits(
            t.second as int,
        ));
    }
    string_from_ascii(buf)
}

/// The lines whose trimmed form is non-empty, in order.
pub open spec fn nonblank_lines(ls: Seq<Seq<u8>>) -> Seq<Seq<u8>>
    decreases ls.len(),
{
    if ls.len() == 0 {
        Seq::empty()
    } else {
        let rest = nonblank_lines(ls.drop_last());
        if trim_spec(ls.last()).len() > 0 {
            rest.push(ls.last())
        } else {
            rest
        }
    }
}

/// The uptime report derived from a process-creation-date query: `0s` when
/// the server is not running; `unknown` when the query's output has no value
/// line; `parse error` when the value is not a fourteen-digit timestamp of a
/// real date; otherwise the elapsed time since that timestamp, as `H:MM:SS`.
pub open spec fn uptime_report(running: bool, out: Seq<u8>, now: CivilDateTime) -> Seq<char> {
    if !running {
        "0s"@
    } else {
        let ls = nonblank_lines(split_lines(out));
        if ls.len() < 2 {
            "unknown"@
        } else {
            let cd = trim_spec(ls[1]);
            if cd.len() < 14 {
                "parse error"@
            } else {
                match parse_creation_spec(cd) {
                    Some(st) => hms_chars(uptime_secs_spec(st, now)),
                    None => "parse error"@,
                }
            }
        }
    }
}

/// Derives the uptime string from the creation-date query output and the
/// current time.
pub fn get_uptime(running: bool, creation_output: &Vec<u8>, now: &CivilDateTime) -> (r: String)
    requires
        valid_civil(*now),
    ensures
        r@ == uptime_report(running, creation_output@, *now),
{
    if !running {
        return String::from_str("0s");
    }
    let lines = lines_of(creation_output);
    let mut nb: Vec<Vec<u8>> = Vec::new();
    proof {
        assert(seq_views(lines@).take(0) =~= Seq::<Seq<u8>>::empty());
        assert(seq_views(nb@) =~= Seq::<Seq<u8>>::empty());
    }
    let mut i: usize = 0;
    while i < lines.len()
        invariant
            i <= lines@.len(),
            seq_views(lines@) == split_lines(creation_output@),
            seq_views(nb@) == nonblank_lines(seq_views(lines@).take(i as int)),
        decreases lines@.len() - i,
    {
        proof {
            assert(seq_views(lines@).take(i + 1).drop_last() =~= seq_views(lines@).take(i as int));
            assert(seq_views(lines@).take(i + 1).last() == lines@[i as int]@);
        }
        let t = trim_bytes(&lines[i]);
        if t.len() > 0 {
            let ghost nb0 = nb@;
            nb.push(copy_bytes(&lines[i]));
            proof {
                assert(seq_views(nb@) =~= seq_views(nb0).push(lines@[i as int]@));
            }
        }
        i += 1;
    }
    proof {
        assert(seq_views(lines@).take(lines@.len() as int) =~= seq_views(lines@));
    }
    if nb.len() < 2 {
        return String::from_str("unknown");
    }
    proof {
        assert(seq_views(nb@)[1] == nb@[1]@);
    }
    let cd = trim_bytes(&nb[1]);
    if cd.len() < 14 {
        return String::from_str("parse error");
    }
    match parse_creation_date(&cd) {
        Some(st) => {
            proof {
                assert(valid_civil(st));
            }
            let secs = uptime_seconds(&st, now);
            format_uptime(secs)
        },
        None => String::from_str("parse error"),
    }
}

/// Relies on `chrono::Local::now` and the `Datelike`/`Timelike` accessors:
/// the month is 1 to 12, the day 1 to 31, the hour below 24, the minute and
/// second below 60. Nothing more is promised of the clock.
#[verifier::external_body]
fn now_local_fields() -> (r: (i64, u64, u64, u64, u64, u64))
    ensures
        1 <= r.1 <= 12,
        1 <= r.2 <= 31,
        r.3 < 24,
        r.4 < 60,
        r.5 < 60,
{
    let now = chrono::Local::now();
    (
        now.year() as i64,
        now.month() as u64,
        now.day() as u64,
        now.hour() as u64,
        now.minute() as u64,
        now.second() as u64,
    )
}

/// The current local time as a plain timestamp, when it falls in the
/// four-digit-year range this library formats; the fields are validated
/// here, not trusted.
pub fn now_civil() -> (r: Option<CivilDateTime>)
    ensures
        r is Some ==> valid_civil(r->0),
{
    let (y, mo, d, h, mi, s) = now_local_fields();
    if y < 1 || y > 9999 {
        return None;
    }
    let t = CivilDateTime { year: y as u64, month: mo, day: d, hour: h, minute: mi, second: s };
    if t.day <= days_in_month_of(t.year, t.month) {
        Some(t)
    } else {
        None
    }
}

} // verus!
