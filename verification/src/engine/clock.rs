//! The present time and random ids, read from the system. Either read may
//! fail (a clock set before 1970, no random source): the callers say what
//! they do then. The texts are written here: RFC 3339 time stamps and the
//! `%Y%m%d_%H%M%S` stamp of plan files.

use vstd::prelude::*;
use chrono::{Datelike, Timelike};
use crate::utils::text::{decimal, decimal2, decimal2_chars, decimal_chars, push_all, push_str, string_of};

verus! {

#[verifier::external_type_specification]
#[verifier::external_body]
pub struct ExSystemTime(std::time::SystemTime);

/// Calls `SystemTime::now`: the system clock's reading. Nothing is claimed
/// of it.
#[verifier::external_body]
fn system_now() -> std::time::SystemTime {
    std::time::SystemTime::now()
}

/// Calls `SystemTime::duration_since` with the Unix epoch: the whole
/// seconds since then and the nanoseconds beyond them (below one billion,
/// as `Duration::subsec_nanos` gives them), or `None` when the reading is
/// before the epoch.
#[verifier::external_body]
fn since_unix_epoch(t: &std::time::SystemTime) -> (r: Option<(u64, u32)>)
    ensures
        r matches Some((_, n)) ==> n < 1_000_000_000,
{
    match t.duration_since(std::time::UNIX_EPOCH) {
        Ok(d) => Some((d.as_secs(), d.subsec_nanos())),
        Err(_) => None,
    }
}

/// The year, month, day, hour, minute, second and nanosecond of the UTC
/// time that `chrono::DateTime::from_timestamp` gives for a Unix time, or
/// `None` when it is out of chrono's range.
pub uninterp spec fn utc_calendar(secs: i64, nanos: u32) -> Option<(i32, u32, u32, u32, u32, u32, u32)>;

/// Calls `chrono::DateTime::from_timestamp` and reads the fields of the
/// result (`Datelike`, `Timelike`): its month is 1 to 12, its day 1 to 31,
/// its hour below 24, its minute and second below 60, and its nanosecond
/// below two billion (above one billion only in a leap second).
#[verifier::external_body]
fn utc_fields(secs: i64, nanos: u32) -> (r: Option<(i32, u32, u32, u32, u32, u32, u32)>)
    ensures
        r == utc_calendar(secs, nanos),
        r matches Some((_, mo, d, h, mi, s, n)) ==> 1 <= mo <= 12 && 1 <= d <= 31 && h < 24 && mi < 60
            && s < 60 && n < 2_000_000_000,
{
    match chrono::DateTime::from_timestamp(secs, nanos) {
        Some(t) => Some((t.year(), t.month(), t.day(), t.hour(), t.minute(), t.second(), t.nanosecond())),
        None => None,
    }
}

/// A UTC date and time, field by field.
#[derive(Debug, Clone, Copy)]
pub struct UtcTime {
    pub year: i32,
    pub month: u32,
    pub day: u32,
    pub hour: u32,
    pub minute: u32,
    pub second: u32,
    /// Nanoseconds; from one billion on, a leap second.
    pub nanosecond: u32,
}

/// The fields are in their ranges.
pub open spec fn utc_time_valid(t: UtcTime) -> bool {
    &&& 1 <= t.month <= 12
    &&& 1 <= t.day <= 31
    &&& t.hour < 24
    &&& t.minute < 60
    &&& t.second < 60
    &&& t.nanosecond < 2_000_000_000
}

/// The present UTC time, or `None` when the clock reads before 1970 or
/// beyond what an `i64` of seconds or chrono's calendar holds. Nothing else
/// is claimed: it depends on the clock.
pub fn utc_now() -> (r: Option<UtcTime>)
    ensures
        r matches Some(t) ==> utc_time_valid(t),
{
    let now = system_now();
    match since_unix_epoch(&now) {
        None => None,
        Some((secs, nanos)) => {
            if secs > 0x7fff_ffff_ffff_ffff {
                return None;
            }
            let s = secs as i64;
            match utc_fields(s, nanos) {
                Some((year, month, day, hour, minute, second, nanosecond)) => Some(
                    UtcTime { year, month, day, hour, minute, second, nanosecond },
                ),
                None => None,
            }
        },
    }
}

/// `n` in decimal, with leading zeros up to `width` digits.
pub open spec fn zero_padded(n: nat, width: nat) -> Seq<char> {
    let d = decimal(n);
    if d.len() >= width {
        d
    } else {
        Seq::new((width - d.len()) as nat, |i: int| '0') + d
    }
}

/// A year as chrono writes it: four digits from 0 to 9999, else a sign
/// and at least four digits.
pub open spec fn year_text(y: int) -> Seq<char> {
    if 0 <= y <= 9999 {
        zero_padded(y as nat, 4)
    } else if y < 0 {
        seq!['-'] + zero_padded((-y) as nat, 4)
    } else {
        seq!['+'] + zero_padded(y as nat, 4)
    }
}

/// The fraction of a second in an RFC 3339 stamp: none, or three, six or
/// nine digits, the fewest that hold the nanoseconds.
pub open spec fn fraction_text(n: nat) -> Seq<char> {
    if n == 0 {
        Seq::empty()
    } else if n % 1_000_000 == 0 {
        seq!['.'] + zero_padded(n / 1_000_000, 3)
    } else if n % 1_000 == 0 {
        seq!['.'] + zero_padded(n / 1_000, 6)
    } else {
        seq!['.'] + zero_padded(n, 9)
    }
}

/// An RFC 3339 stamp of a UTC time, as `DateTime::to_rfc3339` writes it:
/// `YYYY-MM-DDTHH:MM:SS`, the fraction, and `+00:00`; a leap second is
/// written as the next second.
pub open spec fn rfc3339_text(t: UtcTime) -> Seq<char> {
    let leap = t.nanosecond >= 1_000_000_000;
    let sec: nat = if leap {
        (t.second + 1) as nat
    } else {
        t.second as nat
    };
    let nano: nat = if leap {
        (t.nanosecond - 1_000_000_000) as nat
    } else {
        t.nanosecond as nat
    };
    year_text(t.year as int) + seq!['-'] + decimal2(t.month as nat) + seq!['-'] + decimal2(t.day as nat)
        + seq!['T'] + decimal2(t.hour as nat) + seq![':'] + decimal2(t.minute as nat) + seq![':']
        + decimal2(sec) + fraction_text(nano) + "+00:00"@
}

/// The stamp of a plan file, `%Y%m%d_%H%M%S` as chrono writes it.
pub open spec fn stamp_text(t: UtcTime) -> Seq<char> {
    year_text(t.year as int) + decimal2(t.month as nat) + decimal2(t.day as nat) + seq!['_'] + decimal2(
        t.hour as nat,
    ) + decimal2(t.minute as nat) + decimal2((t.second + t.nanosecond / 1_000_000_000) as nat)
}

fn zero_padded_chars(n: u64, width: usize) -> (r: Vec<char>)
    ensures
        r@ == zero_padded(n as nat, width as nat),
{
    let d = decimal_chars(n);
    if d.len() >= width {
        d
    } else {
        let mut v: Vec<char> = Vec::new();
        let k = width - d.len();
        let mut i: usize = 0;
        while i < k
            invariant
                i <= k,
                v@ == Seq::new(i as nat, |j: int| '0'),
            decreases k - i,
        {
            v.push('0');
            assert(v@ =~= Seq::new((i + 1) as nat, |j: int| '0'));
            i = i + 1;
        }
        push_all(&mut v, &d);
        v
    }
}

fn year_chars(y: i32) -> (r: Vec<char>)
    ensures
        r@ == year_text(y as int),
{
    if 0 <= y && y <= 9999 {
        zero_padded_chars(y as u64, 4)
    } else if y < 0 {
        let a: i64 = -(y as i64);
        let mut v: Vec<char> = Vec::new();
        v.push('-');
        push_all(&mut v, &zero_padded_chars(a as u64, 4));
        assert(v@ =~= year_text(y as int));
        v
    } else {
        let mut v: Vec<char> = Vec::new();
        v.push('+');
        push_all(&mut v, &zero_padded_chars(y as u64, 4));
        assert(v@ =~= year_text(y as int));
        v
    }
}

fn fraction_chars(n: u32) -> (r: Vec<char>)
    ensures
        r@ == fraction_text(n as nat),
{
    let mut v: Vec<char> = Vec::new();
    if n == 0 {
    } else if n % 1_000_000 == 0 {
        v.push('.');
        push_all(&mut v, &zero_padded_chars((n / 1_000_000) as u64, 3));
    } else if n % 1_000 == 0 {
        v.push('.');
        push_all(&mut v, &zero_padded_chars((n / 1_000) as u64, 6));
    } else {
        v.push('.');
        push_all(&mut v, &zero_padded_chars(n as u64, 9));
    }
    assert(v@ =~= fraction_text(n as nat));
    v
}

/// The RFC 3339 stamp of a UTC time (see `rfc3339_text`).
pub fn rfc3339_of(t: &UtcTime) -> (r: String)
    requires
        utc_time_valid(*t),
    ensures
        r@ == rfc3339_text(*t),
{
    let leap = t.nanosecond >= 1_000_000_000;
    let sec: u32 = if leap {
        t.second + 1
    } else {
        t.second
    };
    let nano: u32 = if leap {
        t.nanosecond - 1_000_000_000
    } else {
        t.nanosecond
    };
    let mut v = year_chars(t.year);
    v.push('-');
    push_all(&mut v, &decimal2_chars(t.month as u64));
    v.push('-');
    push_all(&mut v, &decimal2_chars(t.day as u64));
    v.push('T');
    push_all(&mut v, &decimal2_chars(t.hour as u64));
    v.push(':');
    push_all(&mut v, &decimal2_chars(t.minute as u64));
    v.push(':');
    push_all(&mut v, &decimal2_chars(sec as u64));
    push_all(&mut v, &fraction_chars(nano));
    push_str(&mut v, "+00:00");
    assert(v@ =~= rfc3339_text(*t));
    string_of(&v)
}

/// The `%Y%m%d_%H%M%S` stamp of a UTC time (see `stamp_text`).
pub fn stamp_of(t: &UtcTime) -> (r: String)
    requires
        utc_time_valid(*t),
    ensures
        r@ == stamp_text(*t),
{
    let mut v = year_chars(t.year);
    push_all(&mut v, &decimal2_chars(t.month as u64));
    push_all(&mut v, &decimal2_chars(t.day as u64));
    v.push('_');
    push_all(&mut v, &decimal2_chars(t.hour as u64));
    push_all(&mut v, &decimal2_chars(t.minute as u64));
    push_all(&mut v, &decimal2_chars((t.second + t.nanosecond / 1_000_000_000) as u64));
    assert(v@ =~= stamp_text(*t));
    string_of(&v)
}

/// The present time as an RFC 3339 stamp, or `None` when the clock cannot
/// be read (see `utc_now`).
pub fn now_rfc3339() -> (r: Option<String>)
    ensures
        r matches Some(s) ==> exists|t: UtcTime| #[trigger] utc_time_valid(t) && s@ == rfc3339_text(t),
{
    match utc_now() {
        Some(t) => Some(rfc3339_of(&t)),
        None => None,
    }
}

/// The present year in UTC, or `None` when the clock cannot be read.
pub fn current_utc_year() -> (r: Option<i32>)
{
    match utc_now() {
        Some(t) => Some(t.year),
        None => None,
    }
}

/// The present UTC year, held to `0..=0xfffe` so that a year after it
/// still fits in a `u16`. When the clock cannot be read it is `0xfffe`:
/// no release year then counts as lying in the future.
pub fn present_year() -> (r: u16)
    ensures
        r < 0xffff,
{
    match current_utc_year() {
        Some(y) => if y < 0 {
            0
        } else if y >= 0xfffe {
            0xfffe
        } else {
            y as u16
        },
        None => 0xfffe,
    }
}

/// Calls `getrandom::fill` on sixteen bytes: random bytes from the
/// operating system, or `None` when it cannot give them. Nothing is
/// claimed of the bytes.
#[verifier::external_body]
fn random_bytes() -> Option<[u8; 16]> {
    let mut b = [0u8; 16];
    match getrandom::fill(&mut b) {
        Ok(()) => Some(b),
        Err(_) => None,
    }
}

/// The hyphenated text of the version 4 UUID that
/// `uuid::Builder::from_random_bytes` builds from sixteen bytes.
pub uninterp spec fn uuid_v4_text(bytes: Seq<u8>) -> Seq<char>;

/// Calls `uuid::Builder::from_random_bytes` and writes the UUID in its
/// hyphenated form; the text is named by `uuid_v4_text`.
#[verifier::external_body]
fn uuid_text(bytes: [u8; 16]) -> (r: String)
    ensures
        r@ == uuid_v4_text(bytes@),
{
    uuid::Builder::from_random_bytes(bytes).into_uuid().to_string()
}

/// A fresh random id (a version 4 UUID), or `None` when the operating
/// system gives no random bytes.
pub fn new_uuid() -> (r: Option<String>)
    ensures
        r matches Some(s) ==> exists|b: Seq<u8>| b.len() == 16 && s@ == #[trigger] uuid_v4_text(b),
{
    match random_bytes() {
        Some(b) => Some(uuid_text(b)),
        None => None,
    }
}

} // verus!
