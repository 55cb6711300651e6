pub mod codec;
pub mod errors;
pub mod header;
pub mod pipeline;
pub mod reservoir;
pub mod ring;
pub mod source;

use vstd::prelude::*;

verus! {

/// The firmware's fault policy, called by the platform's panic handler
/// before it parks the core: the pipeline keeps no state worth saving and
/// has no supervisor to report to, so there is nothing to do — the stream
/// simply ends where it stands.
pub fn panic() {
}

/// Calendar fields for stamping filesystem entries, counted the way the
/// storage layer expects them: years since 1970, month and day zero-indexed.
#[derive(Clone, Copy, Debug, PartialEq, Eq, Structural)]
pub struct Timestamp {
    pub year_since_1970: u8,
    pub zero_indexed_month: u8,
    pub zero_indexed_day: u8,
    pub hours: u8,
    pub minutes: u8,
    pub seconds: u8,
}

/// Clock policy for storage metadata: this player has no real-time clock,
/// so every filesystem entry it writes is stamped with the epoch.
pub struct TimeSource;

impl TimeSource {
    /// The fixed timestamp handed to the storage layer: all fields zero.
    pub fn get_timestamp(&self) -> (t: Timestamp)
        ensures
            t.year_since_1970 == 0,
            t.zero_indexed_month == 0,
            t.zero_indexed_day == 0,
            t.hours == 0,
            t.minutes == 0,
            t.seconds == 0,
    {
        Timestamp {
            year_since_1970: 0,
            zero_indexed_month: 0,
            zero_indexed_day: 0,
            hours: 0,
            minutes: 0,
            seconds: 0,
        }
    }
}

} // verus!
