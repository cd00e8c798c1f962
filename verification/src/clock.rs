//! The one place where the library asks for the time.

use vstd::prelude::*;

verus! {

/// A moment in time with the offset of the time zone it was taken in.
#[derive(Debug, Clone, Copy, PartialEq, Eq, Structural)]
pub struct Stamp {
    /// Milliseconds since the first of January 1970, UTC.
    pub millis: i64,
    /// Seconds that local time was ahead of UTC.
    pub utc_offset: i32,
}

/// The present moment, as `chrono::Local::now` gives it and
/// `DateTime::fixed_offset` fixes its offset: the milliseconds that
/// `DateTime::timestamp_millis` counts, and the seconds east of UTC that
/// `FixedOffset::local_minus_utc` reports. Nothing is claimed of the values:
/// they depend on the clock and on the time zone of the machine.
#[verifier::external_body]
pub(crate) fn local_now() -> (now: Stamp) {
    let now = chrono::Local::now().fixed_offset();
    Stamp { millis: now.timestamp_millis(), utc_offset: now.offset().local_minus_utc() }
}

} // verus!
