//! Calendar stamps, the textual date layouts that the metadata tool emits,
//! and their reading as local time.
use chrono::{Datelike, TimeZone, Timelike};
use vstd::prelude::*;
use vstd::string::*;

verus! {

/// A wall-clock date and time, to the second.
#[derive(Clone, Copy, Debug, PartialEq, Eq, Structural)]
pub struct Stamp {
    pub year: i32,
    pub month: u32,
    pub day: u32,
    pub hour: u32,
    pub minute: u32,
    pub second: u32,
}

pub open spec fn is_leap_year(y: int) -> bool {
    (y % 4 == 0 && y % 100 != 0) || y % 400 == 0
}

pub open spec fn days_in_month(y: int, m: int) -> int {
    if m == 2 {
        if is_leap_year(y) { 29 } else { 28 }
    } else if m == 4 || m == 6 || m == 9 || m == 11 {
        30
    } else {
        31
    }
}

/// A stamp that names a real calendar day and a time of day.
pub open spec fn valid_stamp(s: Stamp) -> bool {
    &&& 1 <= s.month <= 12
    &&& 1 <= s.day <= days_in_month(s.year as int, s.month as int)
    &&& s.hour < 24
    &&& s.minute < 60
    &&& s.second < 60
}

/// Stamps whose year the tool's layouts can write, with a little room.
pub open spec fn stamp_in_range(s: Stamp) -> bool {
    valid_stamp(s) && -100000 <= s.year <= 100000
}

fn is_leap(y: i32) -> (r: bool)
    ensures
        r == is_leap_year(y as int),
{
    (y % 4 == 0 && y % 100 != 0) || y % 400 == 0
}

fn month_days(y: i32, m: u32) -> (r: u32)
    ensures
        r as int == days_in_month(y as int, m as int),
{
    if m == 2 {
        if is_leap(y) { 29 } else { 28 }
    } else if m == 4 || m == 6 || m == 9 || m == 11 {
        30
    } else {
        31
    }
}

fn check_stamp(s: &Stamp) -> (r: bool)
    ensures
        r == valid_stamp(*s),
{
    if s.month < 1 || s.month > 12 || s.day < 1 || s.hour >= 24 || s.minute >= 60 || s.second
        >= 60 {
        return false;
    }
    s.day <= month_days(s.year, s.month)
}

// ---- the textual layouts ----

pub open spec fn is_digit(c: char) -> bool {
    '0' <= c && c <= '9'
}

pub open spec fn digit_val(c: char) -> int {
    c as int - '0' as int
}

pub open spec fn digits_at(t: Seq<char>, i: int, n: int) -> bool {
    forall|k: int| i <= k < i + n ==> is_digit(#[trigger] t[k])
}

pub open spec fn num2(t: Seq<char>, i: int) -> int {
    10 * digit_val(t[i]) + digit_val(t[i + 1])
}

pub open spec fn num4(t: Seq<char>, i: int) -> int {
    100 * num2(t, i) + num2(t, i + 2)
}

/// `YYYY:MM:DD HH:MM:SS`, `YYYY-MM-DD HH:MM:SS` or `YYYY-MM-DDTHH:MM:SS`
/// at the start of `t`.
pub open spec fn layout_ok(t: Seq<char>) -> bool {
    &&& t.len() >= 19
    &&& digits_at(t, 0, 4) && digits_at(t, 5, 2) && digits_at(t, 8, 2)
    &&& digits_at(t, 11, 2) && digits_at(t, 14, 2) && digits_at(t, 17, 2)
    &&& t[13] == ':' && t[16] == ':'
    &&& ((t[4] == ':' && t[7] == ':' && t[10] == ' ') || (t[4] == '-' && t[7] == '-' && (t[10]
        == ' ' || t[10] == 'T')))
}

pub open spec fn stamp_of(t: Seq<char>) -> Stamp {
    Stamp {
        year: num4(t, 0) as i32,
        month: num2(t, 5) as u32,
        day: num2(t, 8) as u32,
        hour: num2(t, 11) as u32,
        minute: num2(t, 14) as u32,
        second: num2(t, 17) as u32,
    }
}

/// The trailer after the seconds: nothing or a literal `Z` (no offset: the
/// time is read as local), or `+HHMM`, `-HHMM`, `+HH:MM`, `-HH:MM` (an offset
/// east of UTC, in seconds). `None` when the trailer is malformed.
pub open spec fn offset_of(r: Seq<char>) -> Option<Option<i32>> {
    if r.len() == 0 || r =~= seq!['Z'] {
        Some(None)
    } else if (r.len() == 5 || (r.len() == 6 && r[3] == ':')) && (r[0] == '+' || r[0] == '-')
        && digits_at(r, 1, 2) && digits_at(r, r.len() - 2, 2) && num2(r, 1) < 24 && num2(
        r,
        r.len() - 2,
    ) < 60 {
        let secs = num2(r, 1) * 3600 + num2(r, r.len() - 2) * 60;
        Some(Some((if r[0] == '-' { -secs } else { secs }) as i32))
    } else {
        None
    }
}

/// The stamp and offset written in `t`, or `None` when `t` follows none of
/// the layouts or names no real date.
pub open spec fn parse_spec(t: Seq<char>) -> Option<(Stamp, Option<i32>)> {
    if layout_ok(t) && valid_stamp(stamp_of(t)) {
        match offset_of(t.subrange(19, t.len() as int)) {
            Some(o) => Some((stamp_of(t), o)),
            None => None,
        }
    } else {
        None
    }
}

fn digits_at_exec(t: &str, i: usize, n: usize) -> (r: bool)
    requires
        i + n <= t@.len() <= usize::MAX,
    ensures
        r == digits_at(t@, i as int, n as int),
{
    let mut k: usize = i;
    while k < i + n
        invariant
            i <= k <= i + n <= t@.len() <= usize::MAX,
            forall|j: int| i <= j < k ==> is_digit(#[trigger] t@[j]),
        decreases i + n - k,
    {
        let c = t.get_char(k);
        if !('0' <= c && c <= '9') {
            return false;
        }
        k = k + 1;
    }
    true
}

fn num2_exec(t: &str, i: usize) -> (r: u32)
    requires
        i + 2 <= t@.len() <= usize::MAX,
        digits_at(t@, i as int, 2),
    ensures
        r as int == num2(t@, i as int),
        r < 100,
{
    let a = t.get_char(i);
    let b = t.get_char(i + 1);
    assert(is_digit(t@[i as int]) && is_digit(t@[i + 1]));
    10 * (a as u32 - '0' as u32) + (b as u32 - '0' as u32)
}

fn offset_exec(t: &str, from: usize) -> (r: Option<Option<i32>>)
    requires
        from <= t@.len() <= usize::MAX,
    ensures
        r == offset_of(t@.subrange(from as int, t@.len() as int)),
{
    let n = t.unicode_len();
    let ghost rest = t@.subrange(from as int, t@.len() as int);
    let len = n - from;
    if len == 0 {
        return Some(None);
    }
    let first = t.get_char(from);
    if len == 1 && first == 'Z' {
        assert(rest =~= seq!['Z']);
        return Some(None);
    }
    assert(!(rest =~= seq!['Z'])) by {
        if rest =~= seq!['Z'] {
            assert(rest[0] == 'Z');
        }
    }
    if !(len == 5 || (len == 6 && t.get_char(from + 3) == ':')) || !(first == '+' || first
        == '-') {
        return None;
    }
    if !digits_at_exec(t, from + 1, 2) || !digits_at_exec(t, n - 2, 2) {
        assert(forall|k: int| 0 <= k < rest.len() ==> rest[k] == t@[from + k]);
        return None;
    }
    assert(forall|k: int| 0 <= k < rest.len() ==> rest[k] == t@[from + k]);
    assert(digits_at(rest, 1, 2) && digits_at(rest, rest.len() - 2, 2));
    let h = num2_exec(t, from + 1);
    let m = num2_exec(t, n - 2);
    if h >= 24 || m >= 60 {
        return None;
    }
    let secs: i32 = (h * 3600 + m * 60) as i32;
    if first == '-' {
        Some(Some(-secs))
    } else {
        Some(Some(secs))
    }
}

/// Reads a date written in one of the tool's layouts (see `parse_spec`).
pub fn parse_date_fields(t: &str) -> (r: Option<(Stamp, Option<i32>)>)
    ensures
        r == parse_spec(t@),
{
    let n = t.unicode_len();
    if n < 19 {
        return None;
    }
    let shape = digits_at_exec(t, 0, 4) && digits_at_exec(t, 5, 2) && digits_at_exec(t, 8, 2)
        && digits_at_exec(t, 11, 2) && digits_at_exec(t, 14, 2) && digits_at_exec(t, 17, 2);
    if !shape {
        return None;
    }
    let c4 = t.get_char(4);
    let c7 = t.get_char(7);
    let c10 = t.get_char(10);
    let seps = t.get_char(13) == ':' && t.get_char(16) == ':' && ((c4 == ':' && c7 == ':' && c10
        == ' ') || (c4 == '-' && c7 == '-' && (c10 == ' ' || c10 == 'T')));
    if !seps {
        return None;
    }
    let y = 100 * num2_exec(t, 0) + num2_exec(t, 2);
    assert(digits_at(t@, 0, 2) && digits_at(t@, 2, 2));
    let s = Stamp {
        year: y as i32,
        month: num2_exec(t, 5),
        day: num2_exec(t, 8),
        hour: num2_exec(t, 11),
        minute: num2_exec(t, 14),
        second: num2_exec(t, 17),
    };
    assert(s == stamp_of(t@));
    if !check_stamp(&s) {
        return None;
    }
    match offset_exec(t, 19) {
        Some(o) => Some((s, o)),
        None => None,
    }
}

/// Unicode `White_Space`, the set that `str::trim` removes.
pub open spec fn is_white_space(c: char) -> bool {
    let u = c as u32;
    ||| 9 <= u <= 13
    ||| u == 32
    ||| u == 0x85
    ||| u == 0xA0
    ||| u == 0x1680
    ||| 0x2000 <= u <= 0x200A
    ||| u == 0x2028
    ||| u == 0x2029
    ||| u == 0x202F
    ||| u == 0x205F
    ||| u == 0x3000
}

fn is_white_space_exec(c: char) -> (r: bool)
    ensures
        r == is_white_space(c),
{
    let u = c as u32;
    (9 <= u && u <= 13) || u == 32 || u == 0x85 || u == 0xA0 || u == 0x1680 || (0x2000 <= u
        && u <= 0x200A) || u == 0x2028 || u == 0x2029 || u == 0x202F || u == 0x205F || u
        == 0x3000
}

/// `t` without its leading and trailing white space: the characters from
/// the first to the last one that is not white space.
pub open spec fn is_trim_of(r: Seq<char>, t: Seq<char>) -> bool {
    exists|a: int, b: int|
        0 <= a <= b <= t.len() && r == t.subrange(a, b) && (forall|k: int|
            0 <= k < a ==> is_white_space(#[trigger] t[k])) && (forall|k: int|
            b <= k < t.len() ==> is_white_space(#[trigger] t[k])) && (a < b ==> !is_white_space(
            t[a]) && !is_white_space(t[b - 1])) && (a == b ==> a == t.len())
}

/// Removes leading and trailing white space.
pub fn trim_text(t: &str) -> (r: &str)
    ensures
        is_trim_of(r@, t@),
{
    let n = t.unicode_len();
    let mut a: usize = 0;
    while a < n && is_white_space_exec(t.get_char(a))
        invariant
            a <= n == t@.len(),
            forall|k: int| 0 <= k < a ==> is_white_space(#[trigger] t@[k]),
        decreases n - a,
    {
        a = a + 1;
    }
    let mut b: usize = n;
    while b > a && is_white_space_exec(t.get_char(b - 1))
        invariant
            a <= b <= n == t@.len(),
            forall|k: int| b <= k < n ==> is_white_space(#[trigger] t@[k]),
            a < n ==> !is_white_space(t@[a as int]),
        decreases b,
    {
        b = b - 1;
    }
    let r = t.substring_char(a, b);
    assert(is_trim_of(r@, t@)) by {
        let aa = a as int;
        let bb = b as int;
        assert(r@ == t@.subrange(aa, bb));
    }
    r
}

// ---- reading stamps as local time ----

/// Relies on chrono's `TimeZone::from_local_datetime` for `Local`: when the
/// wall-clock time names exactly one instant in the local time zone, the
/// result is that instant, whose local reading is the wall-clock time itself.
#[verifier::external_body]
fn single_local_reading(s: &Stamp) -> (r: Option<Stamp>)
    requires
        stamp_in_range(*s),
    ensures
        r matches Some(l) ==> l == *s,
{
    let d = chrono::NaiveDate::from_ymd_opt(s.year, s.month, s.day)?;
    let n = d.and_hms_opt(s.hour, s.minute, s.second)?;
    let dt = chrono::Local.from_local_datetime(&n).single()?;
    Some(Stamp {
        year: dt.year(),
        month: dt.month(),
        day: dt.day(),
        hour: dt.hour(),
        minute: dt.minute(),
        second: dt.second(),
    })
}

/// `b` falls on the calendar day after `a`.
pub open spec fn day_after(a: Stamp, b: Stamp) -> bool {
    if a.day < days_in_month(a.year as int, a.month as int) {
        b.year == a.year && b.month == a.month && b.day == a.day + 1
    } else if a.month < 12 {
        b.year == a.year && b.month == a.month + 1 && b.day == 1
    } else {
        b.year == a.year + 1 && b.month == 1 && b.day == 1
    }
}

/// `a` and `b` fall on the same calendar day or on two neighbouring days.
pub open spec fn within_a_day(a: Stamp, b: Stamp) -> bool {
    ||| (a.year == b.year && a.month == b.month && a.day == b.day)
    ||| day_after(a, b)
    ||| day_after(b, a)
}

/// Day number of a calendar date, counted from 1970-01-01 in the proleptic
/// Gregorian calendar.
pub open spec fn days_from_civil(y: int, m: int, d: int) -> int {
    let y2 = if m <= 2 { y - 1 } else { y };
    let era = y2 / 400;
    let yoe = y2 - era * 400;
    let mp = (m + 9) % 12;
    let doy = (153 * mp + 2) / 5 + d - 1;
    let doe = yoe * 365 + yoe / 4 - yoe / 100 + doy;
    era * 146097 + doe - 719468
}

/// Seconds from 1970-01-01 00:00:00 to the wall-clock time `s`.
pub open spec fn seconds_of(s: Stamp) -> int {
    days_from_civil(s.year as int, s.month as int, s.day as int) * 86400 + s.hour * 3600
        + s.minute * 60 + s.second
}

/// What the local reading of a parsed date may be, whatever the local time
/// zone: for a date without an offset, a time within a calendar day of the
/// written one (the written time itself included); for a date with an
/// offset, a time within a calendar day of the UTC time, which is the
/// written time moved back by the offset.
pub open spec fn local_reading_fits(parsed: (Stamp, Option<i32>), l: Stamp) -> bool {
    &&& stamp_in_range(l)
    &&& match parsed.1 {
        None => within_a_day(parsed.0, l),
        Some(off) => exists|u: Stamp|
            valid_stamp(u) && seconds_of(u) == seconds_of(parsed.0) - off && within_a_day(
                parsed.0,
                u,
            ) && #[trigger] within_a_day(u, l),
    }
}

/// The local reading of a wall-clock time written without an offset: the
/// time itself where it names exactly one instant here (`single`), else its
/// reading as UTC (`as_utc`).
pub fn choose_local_reading(single: Option<Stamp>, as_utc: Stamp) -> (r: Stamp)
    ensures
        single matches Some(l) ==> r == l,
        single is None ==> r == as_utc,
{
    match single {
        Some(l) => l,
        None => as_utc,
    }
}

/// A date within a day of one between the 2nd and the 27th of a month lies
/// in the same month of the same year.
pub proof fn lemma_near_mid_month(a: Stamp, b: Stamp)
    requires
        valid_stamp(a),
        valid_stamp(b),
        2 <= a.day <= 27,
        within_a_day(a, b),
    ensures
        b.year == a.year,
        b.month == a.month,
{
}

/// Relies on chrono's `TimeZone::from_utc_datetime` for `Local`: the local
/// reading of a UTC wall-clock time always exists, is a real date and time of
/// day, and is less than a day away from it (an offset is under 24 hours).
/// The input is a real date in chrono's range, so building it cannot fail.
#[verifier::external_body]
fn local_reading_of_utc(s: &Stamp) -> (r: Stamp)
    requires
        stamp_in_range(*s),
    ensures
        valid_stamp(r),
        within_a_day(*s, r),
{
    let d = chrono::NaiveDate::from_ymd_opt(s.year, s.month, s.day).unwrap_or_default();
    let n = d.and_hms_opt(s.hour, s.minute, s.second).unwrap_or_default();
    let dt = chrono::Local.from_utc_datetime(&n);
    Stamp {
        year: dt.year(),
        month: dt.month(),
        day: dt.day(),
        hour: dt.hour(),
        minute: dt.minute(),
        second: dt.second(),
    }
}

/// Relies on chrono's `NaiveDateTime::checked_sub_signed`: the wall-clock
/// time exactly `secs` seconds earlier in the proleptic Gregorian calendar
/// (chrono's naive times have no leap seconds), hence a real date and time of
/// day less than a day away. Less than a day from a date in this range stays
/// in chrono's range, so the subtraction cannot fail.
#[verifier::external_body]
fn seconds_earlier(s: &Stamp, secs: i32) -> (r: Stamp)
    requires
        stamp_in_range(*s),
        -86400 < secs < 86400,
    ensures
        valid_stamp(r),
        seconds_of(r) == seconds_of(*s) - secs,
        within_a_day(*s, r),
{
    let d = chrono::NaiveDate::from_ymd_opt(s.year, s.month, s.day).unwrap_or_default();
    let n = d.and_hms_opt(s.hour, s.minute, s.second).unwrap_or_default();
    let u = n.checked_sub_signed(chrono::TimeDelta::seconds(secs as i64)).unwrap_or_default();
    Stamp {
        year: u.year(),
        month: u.month(),
        day: u.day(),
        hour: u.hour(),
        minute: u.minute(),
        second: u.second(),
    }
}

proof fn lemma_within_a_day_years(a: Stamp, b: Stamp)
    requires
        within_a_day(a, b),
    ensures
        a.year - 1 <= b.year <= a.year + 1,
{
}

/// The local date and time that the metadata text `date_str` stands for.
/// Text in none of the layouts gives `None`; text in one of them always gives
/// a date. Text without an offset (or with a literal `Z`) is read as local
/// time; where that reading is not unique in the local time zone it is read
/// as UTC instead (the choice is `choose_local_reading`). Text with an offset
/// is moved back by the offset to UTC and converted to local time.
pub fn parse_exif_date(date_str: &str) -> (r: Option<Stamp>)
    ensures
        parse_spec(date_str@) is None <==> r is None,
        parse_spec(date_str@) matches Some(p) ==> r matches Some(l) && local_reading_fits(p, l),
{
    match parse_date_fields(date_str) {
        None => None,
        Some((s, None)) => {
            let single = single_local_reading(&s);
            let as_utc = local_reading_of_utc(&s);
            let l = choose_local_reading(single, as_utc);
            proof {
                lemma_within_a_day_years(s, l);
            }
            Some(l)
        },
        Some((s, Some(off))) => {
            let u = seconds_earlier(&s, off);
            proof {
                lemma_within_a_day_years(s, u);
            }
            let l = local_reading_of_utc(&u);
            proof {
                lemma_within_a_day_years(u, l);
            }
            Some(l)
        },
    }
}

} // verus!
