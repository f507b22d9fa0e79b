//! The time window of one scan.

use vstd::prelude::*;

verus! {

/// Milliseconds in one second.
pub const MILLIS_PER_SECOND: i64 = 1000;

/// The times `lower ..= upper`.
#[derive(Clone, Copy, Debug, PartialEq, Eq, Structural)]
pub struct ScanWindow {
    pub lower: i64,
    pub upper: i64,
}

impl ScanWindow {
    /// Whether `time` lies in the window.
    pub open spec fn holds(self, time: i64) -> bool {
        self.lower <= time <= self.upper
    }

    /// The window of `window_seconds` seconds that starts at `now`. It ends
    /// at the latest time that can be represented where `window_seconds`
    /// reaches beyond it.
    pub open spec fn spec_starting_at(now: i64, window_seconds: u32) -> ScanWindow {
        ScanWindow {
            lower: now,
            upper: if now + window_seconds * MILLIS_PER_SECOND <= i64::MAX {
                (now + window_seconds * MILLIS_PER_SECOND) as i64
            } else {
                i64::MAX
            },
        }
    }

    /// The window of `window_seconds` seconds that starts at `now`: it holds
    /// exactly the times from `now` to `window_seconds` seconds later.
    pub fn starting_at(now: i64, window_seconds: u32) -> (window: ScanWindow)
        ensures
            window == ScanWindow::spec_starting_at(now, window_seconds),
            forall|time: i64| #[trigger]
                window.holds(time) <==> now <= time <= now + window_seconds
                    * MILLIS_PER_SECOND,
    {
        let width: i64 = (window_seconds as i64) * MILLIS_PER_SECOND;
        let upper: i64 = match now.checked_add(width) {
            Some(end) => end,
            None => i64::MAX,
        };
        ScanWindow { lower: now, upper }
    }

    /// Whether `time` lies in the window.
    pub fn contains(&self, time: i64) -> (inside: bool)
        ensures
            inside == self.holds(time),
    {
        self.lower <= time && time <= self.upper
    }
}

} // verus!
