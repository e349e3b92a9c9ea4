use vstd::prelude::*;

verus! {

/// Turns timestamps into elapsed time. Timestamps are whole nanoseconds
/// since an arbitrary fixed origin; where they come from is the
/// caller's concern, so tests can hand in a deterministic sequence.
#[derive(Clone, Copy, PartialEq, Eq, Debug)]
pub struct ClockTracker {
    pub last_sample_time: Option<u64>,
}

impl ClockTracker {
    /// No sample has been seen yet.
    pub fn new() -> (t: ClockTracker)
        ensures
            t.last_sample_time is None,
    {
        ClockTracker { last_sample_time: None }
    }

    /// Nanoseconds elapsed between the stored timestamp and `now` — zero
    /// on the very first call — and then, whatever the outcome, the
    /// stored timestamp is overwritten with `now`. `None` exactly when
    /// `now` lies before the stored timestamp: a clock that went
    /// backwards, which the caller must treat as an unrecoverable fault.
    pub fn elapsed_since_last(&mut self, now: u64) -> (d: Option<u64>)
        ensures
            final(self).last_sample_time == Some(now),
            match old(self).last_sample_time {
                None => d == Some(0u64),
                Some(t) => if now >= t {
                    d == Some((now - t) as u64)
                } else {
                    d is None
                },
            },
    {
        let d = match self.last_sample_time {
            None => Some(0u64),
            Some(t) => if now >= t {
                Some(now - t)
            } else {
                None
            },
        };
        self.last_sample_time = Some(now);
        d
    }
}

/// Relies on std::time::SystemTime::now: the wall clock, read as whole
/// nanoseconds since the Unix epoch (zero if the clock stands before the
/// epoch). The reading depends on the environment, so nothing is
/// promised of the value.
#[verifier::external_body]
pub(crate) fn current_time_nanos() -> (t: u64) {
    match std::time::SystemTime::now().duration_since(std::time::UNIX_EPOCH) {
        Ok(d) => d.as_nanos() as u64,
        Err(_) => 0,
    }
}

} // verus!
