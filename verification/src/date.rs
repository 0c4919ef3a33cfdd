//! Dates: whole seconds since the epoch, UTC.

use vstd::prelude::*;

verus! {

/// The host counts time in milliseconds.
pub const MILLIS_PER_SECOND: i64 = 1000;

/// The latest second that the engine can hold in nanoseconds.
pub const MAX_ENGINE_SECONDS: i64 = 9_223_372_036;

/// The earliest second that the engine can hold in nanoseconds.
pub const MIN_ENGINE_SECONDS: i64 = -9_223_372_036;

/// The second of the instant that an RFC 3339 timestamp denotes, or `None`
/// for a text that is no such timestamp.
pub uninterp spec fn rfc3339_timestamp(text: Seq<char>) -> Option<i64>;

/// `x / d` rounded toward zero.
pub open spec fn div_toward_zero(x: int, d: int) -> int
    recommends
        d > 0,
{
    if x >= 0 {
        x / d
    } else {
        -((-x) / d)
    }
}

/// The whole second in which a host time in milliseconds falls, counted
/// toward the epoch.
pub open spec fn millis_to_seconds_spec(millis: i64) -> i64 {
    div_toward_zero(millis as int, MILLIS_PER_SECOND as int) as i64
}

/// Whether the engine can hold the second in nanoseconds.
pub open spec fn in_engine_range(seconds: i64) -> bool {
    MIN_ENGINE_SECONDS <= seconds <= MAX_ENGINE_SECONDS
}

/// `chrono::DateTime::parse_from_rfc3339`, then `timestamp`: the second of
/// the instant, which is a function of the text alone.
#[verifier::external_body]
fn parse_timestamp(text: &str) -> (r: Option<i64>)
    ensures
        r == rfc3339_timestamp(text@),
{
    match chrono::DateTime::parse_from_rfc3339(text) {
        Ok(instant) => Some(instant.timestamp()),
        Err(_) => None,
    }
}

/// The second that an RFC 3339 timestamp denotes.
pub fn parse_rfc3339(text: &str) -> (r: Option<i64>)
    ensures
        r == rfc3339_timestamp(text@),
{
    parse_timestamp(text)
}

/// Host milliseconds in whole seconds, rounded toward zero.
pub fn millis_to_seconds(millis: i64) -> (r: i64)
    ensures
        r == millis_to_seconds_spec(millis),
{
    if millis >= 0 {
        millis / MILLIS_PER_SECOND
    } else if millis == i64::MIN {
        -9_223_372_036_854_775i64
    } else {
        -((-millis) / MILLIS_PER_SECOND)
    }
}

/// Whether the engine can hold the second in nanoseconds.
pub fn is_in_engine_range(seconds: i64) -> (r: bool)
    ensures
        r == in_engine_range(seconds),
{
    MIN_ENGINE_SECONDS <= seconds && seconds <= MAX_ENGINE_SECONDS
}

} // verus!
