//! Timestamps: the calendar fields of stored ISO-8601 text (read with chrono)
//! and their rendering as receipt text.
use vstd::prelude::*;
use crate::text::{nat_digits, padded4, repeat_char, before_first, push_padded4,
    push_repeat, push_nat_digits, push_str, push_all, chars_of, chars_before, string_of,
    pow10, lemma_digits_len_bound, lemma_before_first_len};
use chrono::{Datelike, Timelike};

verus! {

/// Calendar fields of a moment in the local time zone, 12-hour clock.
#[derive(Debug, Clone, Copy)]
pub struct LocalStamp {
    pub year: i32,
    pub month: u32,
    pub day: u32,
    /// 1 to 12.
    pub hour12: u32,
    pub minute: u32,
    pub pm: bool,
}

/// Calendar fields of a date-time without time zone, 24-hour clock:
/// `(year, month, day, hour, minute)`.
pub type NaiveStamp = (i32, u32, u32, u32, u32);

/// Years chrono can represent (`NaiveDate::MIN` to `NaiveDate::MAX`).
pub open spec fn chrono_year(y: int) -> bool {
    -262143 <= y <= 262142
}

pub open spec fn local_in_range(t: LocalStamp) -> bool {
    &&& chrono_year(t.year as int)
    &&& 1 <= t.month <= 12
    &&& 1 <= t.day <= 31
    &&& 1 <= t.hour12 <= 12
    &&& t.minute <= 59
}

pub open spec fn naive_in_range(t: NaiveStamp) -> bool {
    &&& chrono_year(t.0 as int)
    &&& 1 <= t.1 <= 12
    &&& 1 <= t.2 <= 31
    &&& t.3 <= 23
    &&& t.4 <= 59
}

/// What `NaiveDateTime::parse_from_str(s, fmt)` yields, as calendar fields.
pub uninterp spec fn naive_parse(s: Seq<char>, fmt: Seq<char>) -> Option<NaiveStamp>;

/// Calendar fields of `NaiveDateTime::parse_from_str(s, fmt)` (`None` when
/// chrono rejects the text). The fields are named by `naive_parse`; their
/// ranges are those of chrono's `NaiveDateTime` accessors.
#[verifier::external_body]
fn naive_fields(s: &str, fmt: &str) -> (r: Option<NaiveStamp>)
    ensures
        r == naive_parse(s@, fmt@),
        r matches Some(t) ==> naive_in_range(t),
{
    match chrono::NaiveDateTime::parse_from_str(s, fmt) {
        Ok(dt) => Some((dt.year(), dt.month(), dt.day(), dt.hour(), dt.minute())),
        Err(_) => None,
    }
}

/// Whether `DateTime::parse_from_rfc3339` accepts the text.
pub uninterp spec fn rfc3339_accepts(s: Seq<char>) -> bool;

/// The instant that RFC 3339 text denotes, in whole seconds since
/// 1970-01-01 00:00 UTC (`DateTime::timestamp` of what
/// `DateTime::parse_from_rfc3339` reads).
pub uninterp spec fn rfc3339_seconds(s: Seq<char>) -> int;

/// Days from 1970-01-01 to a date of the proleptic Gregorian calendar
/// (negative before it).
pub open spec fn days_from_civil(y: int, m: int, d: int) -> int {
    let yy = if m <= 2 {
        y - 1
    } else {
        y
    };
    let era = yy / 400;
    let yoe = yy - era * 400;
    let mp = if m > 2 {
        m - 3
    } else {
        m + 9
    };
    let doy = (153 * mp + 2) / 5 + d - 1;
    let doe = yoe * 365 + yoe / 4 - yoe / 100 + doy;
    era * 146097 + doe - 719468
}

/// The hour of a 12-hour reading on the 24-hour clock.
pub open spec fn hour24(t: LocalStamp) -> int {
    (t.hour12 % 12) as int + if t.pm {
        12int
    } else {
        0int
    }
}

/// The minute the fields show, in seconds since the epoch as if it were UTC.
pub open spec fn local_minute_seconds(t: LocalStamp) -> int {
    days_from_civil(t.year as int, t.month as int, t.day as int) * 86400 + hour24(t) * 3600 + t.minute * 60
}

/// The fields read the instant `secs` (seconds since the epoch) shifted by
/// the time-zone offset in force, which is less than a day either way: for
/// some second `s` of the shown minute and offset `o` with `|o| < 86400`,
/// minute + `s` == `secs` + `o`.
pub open spec fn local_reading_of(t: LocalStamp, secs: int) -> bool {
    let m = local_minute_seconds(t);
    secs - 86400 < m + 59 && m < secs + 86400
}

/// How a stored timestamp is read in local time: read exactly when chrono
/// accepts it as RFC 3339, and then as that instant in the local zone.
pub open spec fn rfc3339_reading(local: Option<LocalStamp>, s: Seq<char>) -> bool {
    &&& (local is Some <==> rfc3339_accepts(s))
    &&& (local matches Some(t) ==> local_in_range(t) && local_reading_of(t, rfc3339_seconds(s)))
}

/// Calendar fields, in the machine's local time zone, of the instant that
/// `DateTime::parse_from_rfc3339(s)` reads (`None` exactly when it rejects
/// the text, which depends on the text alone). `with_timezone(&Local)`
/// keeps the instant and shifts the fields by the zone's offset, a
/// `FixedOffset` of less than a day; which offset depends on the machine's
/// time zone, so only that bound is stated.
#[verifier::external_body]
pub(crate) fn rfc3339_local_fields(s: &str) -> (r: Option<LocalStamp>)
    ensures
        r is Some <==> rfc3339_accepts(s@),
        r matches Some(t) ==> local_in_range(t),
        r matches Some(t) ==> local_reading_of(t, rfc3339_seconds(s@)),
{
    match chrono::DateTime::parse_from_rfc3339(s) {
        Ok(dt) => {
            let l = dt.with_timezone(&chrono::Local);
            let (pm, hour12) = l.hour12();
            Some(LocalStamp { year: l.year(), month: l.month(), day: l.day(), hour12, minute: l.minute(), pm })
        },
        Err(_) => None,
    }
}

/// Two-digit zero-padded number (`%m`, `%d`, `%H`, `%I`, `%M` for values below 100).
pub open spec fn two_digits(n: int) -> Seq<char> {
    if n < 10 {
        seq!['0'] + nat_digits(n as nat)
    } else {
        nat_digits(n as nat)
    }
}

/// `%Y`: four digits for years 0 to 9999, otherwise a sign and at least four digits.
pub open spec fn year_text(y: int) -> Seq<char> {
    if 0 <= y < 10000 {
        padded4(y)
    } else {
        let m: nat = if y < 0 { (-y) as nat } else { y as nat };
        let d = nat_digits(m);
        seq![if y < 0 { '-' } else { '+' }] + repeat_char('0', if d.len() < 4 { (4 - d.len()) as nat } else { 0 }) + d
    }
}

/// `%Y-%m-%d %I:%M %p`.
pub open spec fn local_text(t: LocalStamp) -> Seq<char> {
    year_text(t.year as int) + seq!['-'] + two_digits(t.month as int) + seq!['-'] + two_digits(t.day as int)
        + seq![' '] + two_digits(t.hour12 as int) + seq![':'] + two_digits(t.minute as int) + (if t.pm {
        seq![' ', 'P', 'M']
    } else {
        seq![' ', 'A', 'M']
    })
}

/// `%Y-%m-%d %H:%M`.
pub open spec fn naive_text(t: NaiveStamp) -> Seq<char> {
    year_text(t.0 as int) + seq!['-'] + two_digits(t.1 as int) + seq!['-'] + two_digits(t.2 as int)
        + seq![' '] + two_digits(t.3 as int) + seq![':'] + two_digits(t.4 as int)
}

proof fn lemma_two_digits_len(n: int)
    requires
        0 <= n < 100,
    ensures
        two_digits(n).len() == 2,
{
    reveal_with_fuel(nat_digits, 3);
}

proof fn lemma_year_text_len(y: int)
    requires
        chrono_year(y),
    ensures
        year_text(y).len() <= 7,
{
    let m: nat = if y < 0 { (-y) as nat } else { y as nat };
    assert(pow10(6) == 1000000) by {
        reveal_with_fuel(pow10, 7);
    }
    lemma_digits_len_bound(m, 6);
    if 0 <= y < 10000 {
        assert(pow10(4) == 10000) by {
            reveal_with_fuel(pow10, 5);
        }
        lemma_digits_len_bound(m, 4);
    }
}

/// A local date and time, as receipts print it, takes at most 22 characters.
pub proof fn lemma_local_text_len(t: LocalStamp)
    requires
        local_in_range(t),
    ensures
        local_text(t).len() <= 22,
{
    lemma_year_text_len(t.year as int);
    lemma_two_digits_len(t.month as int);
    lemma_two_digits_len(t.day as int);
    lemma_two_digits_len(t.hour12 as int);
    lemma_two_digits_len(t.minute as int);
}

/// A date and time without zone, as receipts print it, takes at most 19 characters.
pub proof fn lemma_naive_text_len(t: NaiveStamp)
    requires
        naive_in_range(t),
    ensures
        naive_text(t).len() <= 19,
{
    lemma_year_text_len(t.0 as int);
    lemma_two_digits_len(t.1 as int);
    lemma_two_digits_len(t.2 as int);
    lemma_two_digits_len(t.3 as int);
    lemma_two_digits_len(t.4 as int);
}

/// Receipt text of a stored timestamp, given what the RFC 3339 reading in
/// local time gave (`local`): that reading when there is one; otherwise the
/// time-zone-less readings with and without fractional seconds; otherwise
/// the text before the first `T` (the bare date).
pub open spec fn timestamp_text(local: Option<LocalStamp>, s: Seq<char>) -> Seq<char> {
    match local {
        Some(t) => local_text(t),
        None => match naive_parse(s, "%Y-%m-%dT%H:%M:%S%.f"@) {
            Some(t) => naive_text(t),
            None => match naive_parse(s, "%Y-%m-%dT%H:%M:%S"@) {
                Some(t) => naive_text(t),
                None => before_first(s, 'T'),
            },
        },
    }
}

fn push_two_digits(out: &mut Vec<char>, n: u32)
    requires
        n < 100,
    ensures
        final(out)@ == old(out)@ + two_digits(n as int),
{
    if n < 10 {
        out.push('0');
    }
    push_nat_digits(out, n as u64);
    assert(final(out)@ =~= old(out)@ + two_digits(n as int));
}

fn push_year(out: &mut Vec<char>, y: i32)
    requires
        chrono_year(y as int),
    ensures
        final(out)@ == old(out)@ + year_text(y as int),
{
    if 0 <= y && y < 10000 {
        push_padded4(out, y as i64);
    } else {
        let m: u64 = if y < 0 { (-(y as i64)) as u64 } else { y as u64 };
        out.push(if y < 0 { '-' } else { '+' });
        let mut d: Vec<char> = Vec::new();
        push_nat_digits(&mut d, m);
        assert(d@ =~= nat_digits(m as nat));
        let k = d.len();
        push_repeat(out, '0', if k < 4 { 4 - k } else { 0 });
        push_all(out, &d);
        assert(final(out)@ =~= old(out)@ + year_text(y as int));
    }
}

/// Renders local calendar fields as `%Y-%m-%d %I:%M %p`.
#[verifier::rlimit(30)]
pub fn push_local_text(out: &mut Vec<char>, t: LocalStamp)
    requires
        local_in_range(t),
    ensures
        final(out)@ == old(out)@ + local_text(t),
{
    push_year(out, t.year);
    out.push('-');
    push_two_digits(out, t.month);
    out.push('-');
    push_two_digits(out, t.day);
    out.push(' ');
    push_two_digits(out, t.hour12);
    out.push(':');
    push_two_digits(out, t.minute);
    out.push(' ');
    if t.pm {
        out.push('P');
    } else {
        out.push('A');
    }
    out.push('M');
    assert(final(out)@ =~= old(out)@ + local_text(t));
}

/// Renders naive calendar fields as `%Y-%m-%d %H:%M`.
pub fn push_naive_text(out: &mut Vec<char>, t: NaiveStamp)
    requires
        naive_in_range(t),
    ensures
        final(out)@ == old(out)@ + naive_text(t),
{
    push_year(out, t.0);
    out.push('-');
    push_two_digits(out, t.1);
    out.push('-');
    push_two_digits(out, t.2);
    out.push(' ');
    push_two_digits(out, t.3);
    out.push(':');
    push_two_digits(out, t.4);
    assert(final(out)@ =~= old(out)@ + naive_text(t));
}

/// Receipt text of `created_at` for a given local reading (see `timestamp_text`).
pub fn format_timestamp_with(local: Option<LocalStamp>, created_at: &str) -> (r: String)
    requires
        local matches Some(t) ==> local_in_range(t),
    ensures
        r@ == timestamp_text(local, created_at@),
        r@.len() <= 22 || r@.len() <= created_at@.len(),
{
    let mut v: Vec<char> = Vec::new();
    match local {
        Some(t) => {
            push_local_text(&mut v, t);
            proof {
                lemma_local_text_len(t);
            }
        },
        None => match naive_fields(created_at, "%Y-%m-%dT%H:%M:%S%.f") {
            Some(t) => {
                push_naive_text(&mut v, t);
                proof {
                    lemma_naive_text_len(t);
                }
            },
            None => match naive_fields(created_at, "%Y-%m-%dT%H:%M:%S") {
                Some(t) => {
                    push_naive_text(&mut v, t);
                    proof {
                        lemma_naive_text_len(t);
                    }
                },
                None => {
                    let cs = chars_of(created_at);
                    let b = chars_before(&cs, 'T');
                    push_all(&mut v, &b);
                    proof {
                        lemma_before_first_len(cs@, 'T');
                    }
                },
            },
        },
    }
    assert(v@ =~= timestamp_text(local, created_at@));
    string_of(&v)
}

/// Invoice timestamp as local `YYYY-MM-DD HH:MM AM/PM`; `created_at` is stored
/// ISO-8601. Falls back to the time-zone-less readings, then to the bare date.
pub fn format_timestamp(created_at: &str) -> (r: String)
    ensures
        exists|local: Option<LocalStamp>|
            rfc3339_reading(local, created_at@)
                && r@ == timestamp_text(local, created_at@),
        rfc3339_accepts(created_at@) ==> r@.len() <= 22,
        !rfc3339_accepts(created_at@) ==> r@ == timestamp_text(None, created_at@),
        r@.len() <= 22 || r@.len() <= created_at@.len(),
{
    let local = rfc3339_local_fields(created_at);
    proof {
        if let Some(t) = local {
            lemma_local_text_len(t);
        }
    }
    format_timestamp_with(local, created_at)
}


// ---------------------------------------------------------------------------
// The current UTC time
// ---------------------------------------------------------------------------

/// Calendar fields of an instant in UTC, 24-hour clock.
#[derive(Debug, Clone, Copy)]
pub struct UtcStamp {
    pub year: i32,
    pub month: u32,
    pub day: u32,
    pub hour: u32,
    pub minute: u32,
    pub second: u32,
}

pub open spec fn utc_in_range(t: UtcStamp) -> bool {
    &&& chrono_year(t.year as int)
    &&& 1 <= t.month <= 12
    &&& 1 <= t.day <= 31
    &&& t.hour <= 23
    &&& t.minute <= 59
    &&& t.second <= 60
}

/// Calendar fields of `Utc::now()`. Only their ranges (those of chrono's
/// accessors; a leap second shows as second 60) are known.
#[verifier::external_body]
pub(crate) fn utc_now_fields() -> (t: UtcStamp)
    ensures
        utc_in_range(t),
{
    let n = chrono::Utc::now();
    UtcStamp {
        year: n.year(),
        month: n.month(),
        day: n.day(),
        hour: n.hour(),
        minute: n.minute(),
        second: n.second(),
    }
}

/// A leap year of the proleptic Gregorian calendar.
pub open spec fn leap_year(y: int) -> bool {
    (y % 4 == 0 && y % 100 != 0) || y % 400 == 0
}

/// The number of days in a month (1 to 12) of a year.
pub open spec fn days_in_month(y: int, m: int) -> int {
    if m == 2 {
        if leap_year(y) {
            29
        } else {
            28
        }
    } else if m == 4 || m == 6 || m == 9 || m == 11 {
        30
    } else {
        31
    }
}

/// A real instant as chrono holds it: a calendar date, a time of day with
/// seconds up to 59, and nanoseconds, 1 000 000 000 or more only during a
/// leap second (then the second is 59).
pub open spec fn utc_instant_valid(t: UtcStamp, nano: int) -> bool {
    &&& utc_in_range(t)
    &&& t.second <= 59
    &&& t.day <= days_in_month(t.year as int, t.month as int)
    &&& 0 <= nano < 2_000_000_000
    &&& nano >= 1_000_000_000 ==> t.second == 59
}

/// The current instant, `Utc::now()`, as calendar fields and nanoseconds.
/// Which instant it is depends on the clock; it is a valid instant not
/// before 1970 (chrono refuses a clock set before the Unix epoch).
#[verifier::external_body]
pub(crate) fn utc_now_instant() -> (r: (UtcStamp, u32))
    ensures
        utc_instant_valid(r.0, r.1 as int),
        r.0.year >= 1970,
{
    let n = chrono::Utc::now();
    (UtcStamp {
        year: n.year(),
        month: n.month(),
        day: n.day(),
        hour: n.hour(),
        minute: n.minute(),
        second: n.second(),
    }, n.nanosecond())
}

/// What `(dt - Duration::days(days)).to_rfc3339()` gives for the UTC
/// instant `dt` with these calendar fields and nanoseconds.
pub uninterp spec fn utc_days_before_rfc3339(year: int, month: int, day: int, hour: int, minute: int, second: int, nano: int, days: int) -> Seq<char>;

/// The RFC 3339 text of the instant `days` days before `t` (with `nano`
/// nanoseconds).
pub open spec fn days_before_text(t: UtcStamp, nano: int, days: int) -> Seq<char> {
    utc_days_before_rfc3339(
        t.year as int,
        t.month as int,
        t.day as int,
        t.hour as int,
        t.minute as int,
        t.second as int,
        nano,
        days,
    )
}

/// The instant `days` days before the given one, as chrono's `to_rfc3339`
/// writes it: `DateTime<Utc>` built from the fields, minus
/// `Duration::days(days)`. The text has the RFC 3339 form of some UTC
/// instant. Chrono's earliest year is -262 143 (`chrono_year`); a year
/// from -261 000 on leaves room for the shift.
#[verifier::external_body]
pub(crate) fn rfc3339_days_before(t: UtcStamp, nano: u32, days: i64) -> (r: String)
    requires
        utc_instant_valid(t, nano as int),
        t.year >= -261_000,
        0 <= days <= 100_000,
    ensures
        r@ == utc_days_before_rfc3339(t.year as int, t.month as int, t.day as int, t.hour as int, t.minute as int, t.second as int, nano as int, days as int),
        is_utc_rfc3339(r@),
{
    let date = chrono::NaiveDate::from_ymd_opt(t.year, t.month, t.day).expect("a valid date");
    let dt = date.and_hms_nano_opt(t.hour, t.minute, t.second, nano).expect("a valid time").and_utc();
    (dt - chrono::Duration::days(days)).to_rfc3339()
}

/// `%Y-%m-%d`.
pub open spec fn date_text(t: UtcStamp) -> Seq<char> {
    year_text(t.year as int) + seq!['-'] + two_digits(t.month as int) + seq!['-'] + two_digits(t.day as int)
}

/// `%Y-%m-01`: the first day of the month.
pub open spec fn month_start_text(t: UtcStamp) -> Seq<char> {
    year_text(t.year as int) + seq!['-'] + two_digits(t.month as int) + "-01"@
}

/// `%Y%m%d_%H%M%S`.
pub open spec fn compact_stamp_text(t: UtcStamp) -> Seq<char> {
    year_text(t.year as int) + two_digits(t.month as int) + two_digits(t.day as int) + seq!['_']
        + two_digits(t.hour as int) + two_digits(t.minute as int) + two_digits(t.second as int)
}

pub fn format_date(t: UtcStamp) -> (r: String)
    requires
        utc_in_range(t),
    ensures
        r@ == date_text(t),
{
    let mut v: Vec<char> = Vec::new();
    push_year(&mut v, t.year);
    v.push('-');
    push_two_digits(&mut v, t.month);
    v.push('-');
    push_two_digits(&mut v, t.day);
    assert(v@ =~= date_text(t));
    string_of(&v)
}

pub fn format_month_start(t: UtcStamp) -> (r: String)
    requires
        utc_in_range(t),
    ensures
        r@ == month_start_text(t),
{
    let mut v: Vec<char> = Vec::new();
    push_year(&mut v, t.year);
    v.push('-');
    push_two_digits(&mut v, t.month);
    push_str(&mut v, "-01");
    proof {
        reveal_strlit("-01");
    }
    assert(v@ =~= month_start_text(t));
    string_of(&v)
}

pub fn format_compact_stamp(t: UtcStamp) -> (r: String)
    requires
        utc_in_range(t),
    ensures
        r@ == compact_stamp_text(t),
{
    let mut v: Vec<char> = Vec::new();
    push_year(&mut v, t.year);
    push_two_digits(&mut v, t.month);
    push_two_digits(&mut v, t.day);
    v.push('_');
    push_two_digits(&mut v, t.hour);
    push_two_digits(&mut v, t.minute);
    push_two_digits(&mut v, t.second);
    assert(v@ =~= compact_stamp_text(t));
    string_of(&v)
}

/// `n` in decimal, zero-padded to width `w`.
pub open spec fn zero_padded(n: nat, w: nat) -> Seq<char> {
    let d = nat_digits(n);
    repeat_char('0', if d.len() < w { (w - d.len()) as nat } else { 0 }) + d
}

/// The fraction of a second as an RFC 3339 text from chrono shows it: nothing
/// for a whole second, else a dot and 3, 6 or 9 digits, the fewest that hold
/// the nanoseconds exactly.
pub open spec fn rfc3339_fraction(nano: nat) -> Seq<char> {
    if nano == 0 {
        seq![]
    } else if nano % 1_000_000 == 0 {
        seq!['.'] + zero_padded(nano / 1_000_000, 3)
    } else if nano % 1000 == 0 {
        seq!['.'] + zero_padded(nano / 1000, 6)
    } else {
        seq!['.'] + zero_padded(nano, 9)
    }
}

/// An instant in UTC as RFC 3339 text: `%Y-%m-%dT%H:%M:%S`, the fraction of
/// the second, then the offset `+00:00`.
pub open spec fn utc_rfc3339_text(t: UtcStamp, nano: nat) -> Seq<char> {
    date_text(t) + seq!['T'] + two_digits(t.hour as int) + seq![':'] + two_digits(t.minute as int) + seq![':']
        + two_digits(t.second as int) + rfc3339_fraction(nano) + "+00:00"@
}

/// Text that `to_rfc3339` writes for some instant in UTC.
pub open spec fn is_utc_rfc3339(s: Seq<char>) -> bool {
    exists|t: UtcStamp, nano: nat| utc_in_range(t) && nano < 1_000_000_000 && s == utc_rfc3339_text(t, nano)
}

/// Today's date in UTC as `%Y-%m-%d`.
pub fn today_text() -> (r: String)
    ensures
        exists|t: UtcStamp| utc_in_range(t) && r@ == date_text(t),
{
    let t = utc_now_fields();
    format_date(t)
}

/// The current UTC time as `%Y%m%d_%H%M%S`, as backup files are named.
pub fn timestamp() -> (r: String)
    ensures
        exists|t: UtcStamp| utc_in_range(t) && r@ == compact_stamp_text(t),
{
    let t = utc_now_fields();
    format_compact_stamp(t)
}

} // verus!
