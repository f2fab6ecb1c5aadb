//! Timestamps.
use vstd::prelude::*;

verus! {

/// The current UTC time: `chrono::Utc::now().to_rfc3339()`. Nothing is
/// claimed of the text; it depends on the clock.
#[verifier::external_body]
pub(crate) fn utc_now() -> (r: String) {
    chrono::Utc::now().to_rfc3339()
}

/// The current UTC time to the millisecond, with a `Z` suffix:
/// `chrono::Utc::now().to_rfc3339_opts(SecondsFormat::Millis, true)`. Nothing
/// is claimed of the text; it depends on the clock.
#[verifier::external_body]
pub(crate) fn utc_now_millis() -> (r: String) {
    chrono::Utc::now().to_rfc3339_opts(chrono::SecondsFormat::Millis, true)
}

/// The timestamp of a frame.
pub open spec fn stamp_of(since_epoch: Option<u128>) -> u64 {
    match since_epoch {
        Some(ns) => (ns % 0x1_0000_0000_0000_0000) as u64,
        None => 0u64,
    }
}

/// Wall-clock nanoseconds since the epoch, for a frame's `timestamp`, from
/// the time since the epoch that the system clock gives. Zero when the clock
/// is before the epoch: a frame with a bogus timestamp still beats none. Past
/// the year 2554 the low 64 bits are kept.
pub fn now_ns(since_epoch: Option<u128>) -> (r: u64)
    ensures
        r == stamp_of(since_epoch),
{
    match since_epoch {
        Some(ns) => (ns % 0x1_0000_0000_0000_0000) as u64,
        None => 0,
    }
}

/// A time that fits is stamped as it is, a clock before the epoch as zero; a
/// later clock never stamps an earlier time while it fits.
pub proof fn stamps_follow_the_clock(a: u128, b: u128)
    ensures
        stamp_of(None) == 0,
        a <= u64::MAX ==> stamp_of(Some(a)) == a,
        a <= b <= u64::MAX ==> stamp_of(Some(a)) <= stamp_of(Some(b)),
        a + 0x1_0000_0000_0000_0000 == b ==> stamp_of(Some(a)) == stamp_of(Some(b)),
{
}

} // verus!
