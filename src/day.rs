use vstd::prelude::*;

verus! {

/// Seconds in one day.
pub const SECONDS_PER_DAY: u64 = 86400;

/// A calendar day, counted in whole days since the Unix epoch.
#[derive(Clone, Copy, Debug, PartialEq, Eq, Structural, Hash, PartialOrd, Ord)]
pub struct Day {
    pub day: u64,
}

/// Relies on std's `SystemTime::elapsed` on `UNIX_EPOCH`, then
/// `Duration::as_secs`: whole seconds since the epoch, or `None` where the
/// clock reads earlier than the epoch. The clock is read, so nothing is
/// promised of the value.
#[verifier::external_body]
fn unix_seconds() -> (r: Option<u64>) {
    std::time::UNIX_EPOCH.elapsed().ok().map(|d| d.as_secs())
}

impl Day {
    /// The day that a moment falls on, given in seconds since the epoch.
    pub fn from_unix_secs(secs: u64) -> (r: Day)
        ensures
            r.day == secs / SECONDS_PER_DAY,
    {
        Day { day: secs / SECONDS_PER_DAY }
    }

    /// The day that the clock shows now; `None` where the clock reads
    /// earlier than the epoch.
    pub fn today() -> (r: Option<Day>)
        ensures
            r.is_some() ==> r.unwrap().day <= u64::MAX / SECONDS_PER_DAY,
    {
        match unix_seconds() {
            Some(secs) => Some(Day::from_unix_secs(secs)),
            None => None,
        }
    }
}

} // verus!
