//! Wall-clock time as the library reads it.
//!
//! Timestamps are milliseconds since the Unix epoch, held as plain `u64`
//! values so that every decision that depends on time is a verified function
//! of a timestamp handed to it. The functions here are the only place that
//! reads the clock.

use vstd::prelude::*;

verus! {

/// The system clock's reading, as std gives it.
#[verifier::external_type_specification]
#[verifier::external_body]
pub struct ExSystemTime(std::time::SystemTime);

/// Reads the system clock.
///
/// Calls `std::time::SystemTime::now`. What it returns depends on the machine's
/// clock at the moment of the call, so nothing is claimed of it.
#[verifier::external_body]
fn system_now() -> (t: std::time::SystemTime) {
    std::time::SystemTime::now()
}

/// The time from the Unix epoch to `t`; `None` when `t` lies before it.
///
/// Calls `std::time::SystemTime::duration_since` with the epoch, which fails
/// exactly when `t` is earlier. The reading is opaque, so nothing is claimed
/// of the result.
#[verifier::external_body]
fn since_epoch(t: std::time::SystemTime) -> (d: Option<std::time::Duration>) {
    match t.duration_since(std::time::UNIX_EPOCH) {
        Ok(d) => Some(d),
        Err(_) => None,
    }
}

/// The whole milliseconds of a duration.
pub uninterp spec fn duration_ms(d: std::time::Duration) -> u128;

/// The whole microseconds of a duration.
pub uninterp spec fn duration_us(d: std::time::Duration) -> u128;

/// The whole milliseconds of a duration.
///
/// Calls `std::time::Duration::as_millis`; the result is a function of the
/// duration alone, named `duration_ms`.
#[verifier::external_body]
pub(crate) fn duration_as_millis(d: std::time::Duration) -> (ms: u128)
    ensures
        ms == duration_ms(d),
{
    d.as_millis()
}

/// The whole microseconds of a duration.
///
/// Calls `std::time::Duration::as_micros`; the result is a function of the
/// duration alone, named `duration_us`.
#[verifier::external_body]
fn duration_as_micros(d: std::time::Duration) -> (us: u128)
    ensures
        us == duration_us(d),
{
    d.as_micros()
}

/// `x` saturated to 64 bits.
pub open spec fn saturate_u64(x: u128) -> u64 {
    if x > u64::MAX as u128 {
        u64::MAX
    } else {
        x as u64
    }
}

/// `x` saturated to 64 bits.
pub(crate) fn saturating_u64(x: u128) -> (r: u64)
    ensures
        r == saturate_u64(x),
{
    if x > u64::MAX as u128 {
        u64::MAX
    } else {
        x as u64
    }
}

/// Milliseconds from the Unix epoch to `t` (0 when `t` lies before it,
/// saturated to 64 bits).
fn millis_since_epoch(t: std::time::SystemTime) -> (ms: u64) {
    match since_epoch(t) {
        Some(d) => saturating_u64(duration_as_millis(d)),
        None => 0,
    }
}

/// Microseconds from the Unix epoch to `t` (0 when `t` lies before it,
/// saturated to 64 bits).
fn micros_since_epoch(t: std::time::SystemTime) -> (us: u64) {
    match since_epoch(t) {
        Some(d) => saturating_u64(duration_as_micros(d)),
        None => 0,
    }
}

/// The current time in milliseconds since the Unix epoch.
pub fn now_millis() -> (ms: u64) {
    millis_since_epoch(system_now())
}

/// The current Unix time in whole seconds (0 when the clock reads before
/// the epoch).
pub fn unix_now_secs() -> (t: i64)
    ensures
        t >= 0,
{
    (now_millis() / 1000) as i64
}

/// The current Unix time in microseconds (0 when the clock reads before the
/// epoch, `i64::MAX` beyond its range).
pub fn unix_now_micros() -> (t: i64)
    ensures
        t >= 0,
{
    let us = micros_since_epoch(system_now());
    if us > i64::MAX as u64 {
        i64::MAX
    } else {
        us as i64
    }
}

/// Milliseconds elapsed from `then` to `now`; 0 when the clock went back.
pub open spec fn elapsed(now: u64, then: u64) -> nat {
    if now >= then {
        (now - then) as nat
    } else {
        0
    }
}

/// Milliseconds elapsed from `then` to `now`; 0 when the clock went back.
pub fn elapsed_millis(now: u64, then: u64) -> (d: u64)
    ensures
        d == elapsed(now, then),
{
    if now >= then {
        now - then
    } else {
        0
    }
}

} // verus!
