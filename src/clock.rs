//! Instants and calendar days as plain values, and the arithmetic the tracker
//! does on them. Reading the system clock is the only thing left to chrono.
use chrono::Datelike;
use vstd::prelude::*;

verus! {

/// An instant, as milliseconds since the Unix epoch (UTC).
#[derive(Clone, Copy, Debug, PartialEq, Eq, Structural)]
pub struct Timestamp {
    pub millis: i64,
}

/// A calendar day, as the number of days since January 1 of year 1 (which is day 1).
#[derive(Clone, Copy, Debug, PartialEq, Eq, Structural)]
pub struct Date {
    pub days_from_ce: i32,
}

/// Whole minutes from `start` to `now`, rounded toward zero: negative when
/// `now` lies before `start`.
pub open spec fn minutes_between(start: Timestamp, now: Timestamp) -> int {
    let d = now.millis - start.millis;
    if d >= 0 {
        d / 60_000
    } else {
        -((-d) / 60_000)
    }
}

/// Whole minutes from `start` to `now`, floored at zero to tolerate clock skew
/// (and capped at `usize::MAX`, which only a 32-bit target can reach).
pub open spec fn elapsed_minutes(start: Timestamp, now: Timestamp) -> nat {
    if now.millis <= start.millis {
        0
    } else if (now.millis - start.millis) / 60_000 > usize::MAX {
        usize::MAX as nat
    } else {
        ((now.millis - start.millis) / 60_000) as nat
    }
}

/// `a + b`, capped at `usize::MAX`.
pub open spec fn saturating_sum(a: nat, b: nat) -> nat {
    if a + b > usize::MAX {
        usize::MAX as nat
    } else {
        a + b
    }
}

/// Whole minutes in a span of `millis` milliseconds, rounded down.
fn whole_minutes(millis: u128) -> (m: u64)
    requires
        millis <= u64::MAX,
    ensures
        m as int == millis as int / 60_000,
{
    proof {
        vstd::arithmetic::div_mod::lemma_div_is_ordered(millis as int, u64::MAX as int, 60_000);
    }
    (millis / 60_000u128) as u64
}

/// Signed whole minutes from `start` to `now`, rounded toward zero.
pub fn signed_minutes_between(start: Timestamp, now: Timestamp) -> (r: i64)
    ensures
        r as int == minutes_between(start, now),
{
    let d: i128 = now.millis as i128 - start.millis as i128;
    if d >= 0 {
        let m = whole_minutes(d as u128);
        m as i64
    } else {
        let m = whole_minutes((-d) as u128);
        -(m as i64)
    }
}

/// Whole minutes from `start` to `now`, or zero when `now` is not after `start`.
pub fn elapsed_minutes_between(start: Timestamp, now: Timestamp) -> (r: usize)
    ensures
        r as nat == elapsed_minutes(start, now),
{
    if now.millis > start.millis {
        let d: i128 = now.millis as i128 - start.millis as i128;
        let m = whole_minutes(d as u128);
        if m as u128 > usize::MAX as u128 {
            usize::MAX
        } else {
            m as usize
        }
    } else {
        0
    }
}

/// Relies on chrono's `Utc::now`: the current instant and its UTC calendar
/// day, converted with `DateTime::timestamp_millis`, `DateTime::date_naive`
/// and `Datelike::num_days_from_ce`. Nothing is promised of the values.
#[verifier::external_body]
fn read_clock() -> (r: (Timestamp, Date)) {
    let t = chrono::Utc::now();
    (Timestamp { millis: t.timestamp_millis() }, Date { days_from_ce: t.date_naive().num_days_from_ce() })
}

/// The current instant.
pub(crate) fn now() -> (r: Timestamp) {
    read_clock().0
}

/// The current UTC calendar day.
pub(crate) fn today() -> (r: Date) {
    read_clock().1
}

} // verus!
