//! The bookkeeping of the sampling loop: what became of each tick. A failed
//! tick is counted and the loop goes on; nothing is retried out of turn.
use vstd::prelude::*;
use crate::publisher::{Ack, PublishError};
use crate::snapshot::SamplingError;

verus! {

/// What became of one tick.
#[derive(Clone, Copy, Debug)]
pub enum TickOutcome {
    /// A snapshot was taken and its publish ended with this result.
    Published(Result<Ack, PublishError>),
    /// No snapshot could be taken.
    SamplingFailed(SamplingError),
}

/// Counts of the ticks so far, by outcome.
#[derive(Clone, Copy, Debug, PartialEq, Eq, Structural)]
pub struct LoopStats {
    pub ticks: u64,
    pub acks: u64,
    pub unavailable: u64,
    pub delivery_failed: u64,
    pub sampling_failed: u64,
}

impl LoopStats {
    /// Every tick is counted under exactly one outcome.
    pub open spec fn wf(&self) -> bool {
        self.acks + self.unavailable + self.delivery_failed + self.sampling_failed == self.ticks
    }

    /// No tick yet.
    pub fn new() -> (r: LoopStats)
        ensures
            r.wf(),
            r == (LoopStats { ticks: 0, acks: 0, unavailable: 0, delivery_failed: 0, sampling_failed: 0 }),
    {
        LoopStats { ticks: 0, acks: 0, unavailable: 0, delivery_failed: 0, sampling_failed: 0 }
    }

    /// Counts one more tick under its outcome.
    pub fn record(&mut self, outcome: TickOutcome)
        requires
            old(self).wf(),
            old(self).ticks < u64::MAX,
        ensures
            final(self).wf(),
            final(self).ticks == old(self).ticks + 1,
            final(self).acks == old(self).acks + (if outcome matches TickOutcome::Published(Ok(_)) {
                1int
            } else {
                0
            }),
            final(self).unavailable == old(self).unavailable + (if outcome matches TickOutcome::Published(
                Err(PublishError::Unavailable),
            ) {
                1int
            } else {
                0
            }),
            final(self).delivery_failed == old(self).delivery_failed + (
            if outcome matches TickOutcome::Published(Err(PublishError::DeliveryFailed)) {
                1int
            } else {
                0
            }),
            final(self).sampling_failed == old(self).sampling_failed + (
            if outcome matches TickOutcome::SamplingFailed(_) {
                1int
            } else {
                0
            }),
    {
        self.ticks = self.ticks + 1;
        match outcome {
            TickOutcome::Published(Ok(_)) => {
                self.acks = self.acks + 1;
            },
            TickOutcome::Published(Err(PublishError::Unavailable)) => {
                self.unavailable = self.unavailable + 1;
            },
            TickOutcome::Published(Err(PublishError::DeliveryFailed)) => {
                self.delivery_failed = self.delivery_failed + 1;
            },
            TickOutcome::SamplingFailed(_) => {
                self.sampling_failed = self.sampling_failed + 1;
            },
        }
    }
}

} // verus!
