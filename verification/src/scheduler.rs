//! The fixed-timestep scheduler.
//!
//! Wall-clock time is measured in integer nanoseconds. The scheduler banks
//! every measured delta into an accumulator and converts it into zero or
//! more fixed update steps: slow frames trigger several update/draw pairs
//! in a row (catch-up), fast frames may trigger none (starvation), and the
//! remainder below one frame period stays banked for the next draw tick.
use vstd::prelude::*;

use crate::error::EngineError;

verus! {

pub const NANOS_PER_SECOND: u64 = 1_000_000_000;

/// Banked-time state of the fixed-timestep loop.
///
/// Invariant: between draw ticks the accumulator holds strictly less than
/// one frame period — every fully elapsed step has been drained.
#[derive(Debug, Clone, Copy, PartialEq, Eq, Structural)]
pub struct Scheduler {
    /// Duration one update step represents: `1 / frames_per_second` seconds.
    frame_period_nanos: u64,
    /// Measured wall-clock time not yet consumed by update steps.
    accumulator_nanos: u64,
}

impl Scheduler {
    pub closed spec fn wf(self) -> bool {
        &&& self.frame_period_nanos > 0
        &&& self.accumulator_nanos < self.frame_period_nanos
    }

    pub closed spec fn period(self) -> u64 {
        self.frame_period_nanos
    }

    pub closed spec fn accumulator(self) -> u64 {
        self.accumulator_nanos
    }

    /// A scheduler for the given target rate, with an empty accumulator.
    /// A rate of zero frames per second is a configuration error.
    pub fn new(frames_per_second: u32) -> (r: Result<Scheduler, EngineError>)
        ensures
            frames_per_second == 0 <==> r is Err,
            r is Err ==> r->Err_0 == EngineError::InitialisationError,
            r is Ok && NANOS_PER_SECOND as int / frames_per_second as int > 0 ==> r->Ok_0.period()
                == NANOS_PER_SECOND as int / frames_per_second as int,
            r is Ok && NANOS_PER_SECOND as int / frames_per_second as int == 0 ==> r->Ok_0.period()
                == 1,
            r is Ok ==> r->Ok_0.accumulator() == 0,
            r is Ok ==> r->Ok_0.wf(),
    {
        if frames_per_second == 0 {
            Err(EngineError::InitialisationError)
        } else {
            let period: u64 = NANOS_PER_SECOND / (frames_per_second as u64);
            // A rate above one step per nanosecond saturates at the finest
            // period the clock can express.
            let period: u64 = if period == 0 {
                1
            } else {
                period
            };
            Ok(Scheduler { frame_period_nanos: period, accumulator_nanos: 0 })
        }
    }

    /// Bank a measured wall-clock delta and drain it: the result is how many
    /// fixed update steps fully elapsed; what is left below one period stays
    /// in the accumulator.
    pub fn advance(&mut self, delta_nanos: u64) -> (steps: u64)
        requires
            old(self).wf(),
            old(self).accumulator() + delta_nanos <= u64::MAX,
        ensures
            final(self).wf(),
            final(self).period() == old(self).period(),
            steps == (old(self).accumulator() + delta_nanos) as int / old(self).period() as int,
            final(self).accumulator() == (old(self).accumulator() + delta_nanos) as int % old(
                self,
            ).period() as int,
            final(self).accumulator() < final(self).period(),
    {
        let banked: u64 = self.accumulator_nanos + delta_nanos;
        let steps: u64 = banked / self.frame_period_nanos;
        self.accumulator_nanos = banked % self.frame_period_nanos;
        steps
    }

    /// The banked time, for callers that inspect scheduler state.
    pub fn accumulator_nanos(&self) -> (r: u64)
        ensures
            r == self.accumulator(),
    {
        self.accumulator_nanos
    }

    /// The fixed frame period in nanoseconds.
    pub fn frame_period_nanos(&self) -> (r: u64)
        ensures
            r == self.period(),
    {
        self.frame_period_nanos
    }
}

} // verus!
