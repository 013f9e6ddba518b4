use vstd::prelude::*;
use chrono::{Datelike, Timelike};
use crate::text::{decimal, digit_char, digit_text, push_decimal};

verus! {

/// A reading of the local wall clock, as plain values.
#[derive(Debug, Clone, Copy, PartialEq, Eq)]
pub struct LocalTime {
    /// Whole seconds since the Unix epoch.
    pub seconds: i64,
    /// Nanoseconds past `seconds`; a leap second reads from 1,000,000,000 up.
    pub nanos: u32,
    pub year: i32,
    pub month: u32,
    pub day: u32,
    pub hour: u32,
    pub minute: u32,
    pub second: u32,
}

/// Relies on `chrono::Local::now` and the getters of the `DateTime` it
/// returns, for the ranges that chrono documents for each field.
#[verifier::external_body]
pub(crate) fn local_now() -> (r: LocalTime)
    ensures
        1 <= r.month <= 12,
        1 <= r.day <= 31,
        r.hour < 24,
        r.minute < 60,
        r.second < 60,
        r.nanos < 2_000_000_000,
{
    let now = chrono::Local::now();
    LocalTime {
        seconds: now.timestamp(),
        nanos: now.timestamp_subsec_nanos(),
        year: now.year(),
        month: now.month(),
        day: now.day(),
        hour: now.hour(),
        minute: now.minute(),
        second: now.second(),
    }
}

/// Nanoseconds since the epoch, held to the range of `u64`.
pub open spec fn epoch_nanos(seconds: int, nanos: int) -> int {
    let v = seconds * 1_000_000_000 + nanos;
    if v < 0 {
        0
    } else if v > u64::MAX {
        u64::MAX as int
    } else {
        v
    }
}

/// The ledger timestamp of a clock reading: nanoseconds since the epoch,
/// saturated at the ends of `u64`.
pub fn ledger_timestamp(seconds: i64, nanos: u32) -> (r: u64)
    ensures
        r == epoch_nanos(seconds as int, nanos as int),
{
    let v: i128 = (seconds as i128) * 1_000_000_000 + (nanos as i128);
    if v < 0 {
        0
    } else if v > u64::MAX as i128 {
        u64::MAX
    } else {
        v as u64
    }
}

/// Two decimal digits, a leading zero included.
pub open spec fn two_digits(n: nat) -> Seq<char> {
    seq![digit_char((n / 10) as int), digit_char((n % 10) as int)]
}

/// Decimal notation of `n` padded with zeros to at least four digits.
pub open spec fn four_digits(n: nat) -> Seq<char> {
    if n < 10 {
        seq!['0', '0', '0'] + decimal(n)
    } else if n < 100 {
        seq!['0', '0'] + decimal(n)
    } else if n < 1000 {
        seq!['0'] + decimal(n)
    } else {
        decimal(n)
    }
}

/// A year as `%Y` writes it: four digits within 0..=9999, else a sign and
/// at least four digits.
pub open spec fn year_text(year: int) -> Seq<char> {
    if 0 <= year <= 9999 {
        four_digits(year as nat)
    } else if year < 0 {
        seq!['-'] + four_digits((-year) as nat)
    } else {
        seq!['+'] + four_digits(year as nat)
    }
}

/// The `%Y%m%d%H%M%S` stamp of a date and time.
pub open spec fn stamp(year: int, month: nat, day: nat, hour: nat, minute: nat, second: nat) -> Seq<
    char,
> {
    year_text(year) + two_digits(month) + two_digits(day) + two_digits(hour) + two_digits(minute)
        + two_digits(second)
}

fn push_two_digits(out: &mut String, n: u32)
    requires
        n < 100,
    ensures
        final(out)@ == old(out)@ + two_digits(n as nat),
{
    out.append(digit_text((n / 10) as u64));
    out.append(digit_text((n % 10) as u64));
}

fn push_four_digits(out: &mut String, n: u64)
    ensures
        final(out)@ == old(out)@ + four_digits(n as nat),
{
    proof {
        reveal_strlit("000");
        reveal_strlit("00");
        reveal_strlit("0");
    }
    if n < 10 {
        out.append("000");
    } else if n < 100 {
        out.append("00");
    } else if n < 1000 {
        out.append("0");
    }
    push_decimal(out, n);
    assert(final(out)@ =~= old(out)@ + four_digits(n as nat));
}

/// The `%Y%m%d%H%M%S` stamp of a clock reading.
pub open spec fn stamp_of(t: LocalTime) -> Seq<char> {
    stamp(t.year as int, t.month as nat, t.day as nat, t.hour as nat, t.minute as nat, t.second as nat)
}

/// The `%Y%m%d%H%M%S` stamp of a date and time.
pub fn stamp_text(year: i32, month: u32, day: u32, hour: u32, minute: u32, second: u32) -> (r:
    String)
    requires
        month < 100,
        day < 100,
        hour < 100,
        minute < 100,
        second < 100,
    ensures
        r@ == stamp(
            year as int,
            month as nat,
            day as nat,
            hour as nat,
            minute as nat,
            second as nat,
        ),
{
    proof {
        reveal_strlit("-");
        reveal_strlit("+");
    }
    let mut r = String::new();
    let y = year as i64;
    if y < 0 {
        r.append("-");
        push_four_digits(&mut r, (-y) as u64);
    } else if y > 9999 {
        r.append("+");
        push_four_digits(&mut r, y as u64);
    } else {
        push_four_digits(&mut r, y as u64);
    }
    assert(r@ =~= year_text(year as int));
    push_two_digits(&mut r, month);
    push_two_digits(&mut r, day);
    push_two_digits(&mut r, hour);
    push_two_digits(&mut r, minute);
    push_two_digits(&mut r, second);
    r
}

/// The local time now, as a `%Y%m%d%H%M%S` stamp.
pub fn current_stamp() -> (r: String)
    ensures
        exists|t: LocalTime| r@ == #[trigger] stamp_of(t),
{
    let t = local_now();
    let r = stamp_text(t.year, t.month, t.day, t.hour, t.minute, t.second);
    assert(r@ == stamp_of(t));
    r
}

/// The local time now, as a ledger timestamp.
pub fn current_ledger_timestamp() -> (r: u64)
    ensures
        exists|t: LocalTime| r == #[trigger] epoch_nanos(t.seconds as int, t.nanos as int),
{
    let t = local_now();
    ledger_timestamp(t.seconds, t.nanos)
}

/// The stamp after `prev` for a row recorded at clock reading `now`: `now`
/// when it is later than `prev`, else one past `prev` (held at `u64::MAX`).
pub open spec fn stamp_after(prev: Option<u64>, now: u64) -> u64 {
    match prev {
        None => now,
        Some(p) => if now > p {
            now
        } else if p < u64::MAX {
            (p + 1) as u64
        } else {
            u64::MAX
        },
    }
}

/// The stamp after `prev` for a row recorded at clock reading `now`.
pub fn next_stamp(prev: Option<u64>, now: u64) -> (r: u64)
    ensures
        r == stamp_after(prev, now),
        r >= now,
        prev matches Some(p) ==> r > p || r == u64::MAX,
{
    match prev {
        None => now,
        Some(p) => if now > p {
            now
        } else if p < u64::MAX {
            p + 1
        } else {
            u64::MAX
        },
    }
}

} // verus!
