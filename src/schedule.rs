use vstd::prelude::*;

verus! {

/// How often one poll loop fires. The interval, in milliseconds, starts
/// counting once the previous iteration's poll and actions have finished.
#[derive(PartialEq, Eq, Structural, Clone, Copy, Debug, Hash)]
pub struct PollingSchedule {
    pub interval_ms: u64,
}

/// The interval of a schedule that was not configured: one second.
pub const DEFAULT_INTERVAL_MS: u64 = 1000;

impl PollingSchedule {
    /// Sets the interval between the end of one iteration and the start of the next.
    pub fn interval(&mut self, interval_ms: u64) -> (r: &mut Self)
        ensures
            r.interval_ms == interval_ms,
            *final(self) == *final(r),
    {
        self.interval_ms = interval_ms;
        self
    }
}

impl Default for PollingSchedule {
    fn default() -> (r: Self)
        ensures
            r.interval_ms == DEFAULT_INTERVAL_MS,
    {
        PollingSchedule { interval_ms: DEFAULT_INTERVAL_MS }
    }
}

} // verus!
