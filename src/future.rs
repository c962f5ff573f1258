//! A delay future: it owns one wake entry from creation until it is released,
//! and is ready once its deadline has passed.

use vstd::prelude::*;
use crate::sharedstate::{after_set, DelayError, SharedState, WakerSlot};

verus! {

/// The outcome of polling a delay.
#[derive(Debug, Clone, Copy, PartialEq, Eq, Structural)]
pub enum DelayPoll {
    /// The deadline has passed.
    Ready,
    /// The deadline lies ahead; the waker was registered in the future's entry.
    Pending,
}

/// A delay that completes at `deadline` (microseconds since the epoch) and owns the
/// wake entry `slot`.
pub struct DelayFuture {
    deadline: u64,
    slot: usize,
}

impl DelayFuture {
    /// The deadline in microseconds since the epoch.
    pub closed spec fn spec_deadline(&self) -> u64 {
        self.deadline
    }

    /// The index of the owned wake entry.
    pub closed spec fn spec_slot(&self) -> usize {
        self.slot
    }

    /// A delay with the given deadline that owns the entry `slot`.
    pub(crate) fn new(deadline: u64, slot: usize) -> (r: Self)
        ensures
            r.spec_deadline() == deadline,
            r.spec_slot() == slot,
    {
        DelayFuture { deadline, slot }
    }

    /// The deadline in microseconds since the epoch.
    pub fn deadline(&self) -> (r: u64)
        ensures
            r == self.spec_deadline(),
    {
        self.deadline
    }

    /// The index of the owned wake entry.
    pub fn slot(&self) -> (r: usize)
        ensures
            r == self.spec_slot(),
    {
        self.slot
    }

    /// Whether the delay is over at time `now`.
    pub fn is_ready(&self, now: u64) -> (r: bool)
        ensures
            r == (now >= self.spec_deadline()),
    {
        now >= self.deadline
    }

    /// Polls the delay at time `now`. When the deadline has passed it is ready and the
    /// pool is left alone; otherwise `waker` replaces whatever the owned entry held, so
    /// that the last registration wins.
    pub fn poll<W>(&self, shared: &mut SharedState<W>, now: u64, waker: W) -> (r: Result<
        DelayPoll,
        DelayError,
    >)
        ensures
            now >= self.spec_deadline() ==> r == Ok::<DelayPoll, DelayError>(DelayPoll::Ready)
                && final(shared)@ == old(shared)@,
            now < self.spec_deadline() && self.spec_slot() < old(shared)@.len() ==> r == Ok::<
                DelayPoll,
                DelayError,
            >(DelayPoll::Pending) && final(shared)@ == old(shared)@.update(
                self.spec_slot() as int,
                (WakerSlot::Pending { waker: waker, deadline: self.spec_deadline() }),
            ),
            now < self.spec_deadline() && self.spec_slot() >= old(shared)@.len() ==> r == Err::<
                DelayPoll,
                DelayError,
            >(DelayError::InvalidIndex) && final(shared)@ == old(shared)@,
            final(shared).spec_interval() == old(shared).spec_interval(),
    {
        if now >= self.deadline {
            return Ok(DelayPoll::Ready);
        }
        match shared.slot(self.slot, WakerSlot::Pending { waker, deadline: self.deadline }) {
            Ok(()) => Ok(DelayPoll::Pending),
            Err(e) => Err(e),
        }
    }

    /// Gives the owned entry back to the pool. This is what dropping or cancelling a
    /// delay does, whatever state it reached.
    pub fn release<W>(&self, shared: &mut SharedState<W>) -> (r: Result<(), DelayError>)
        ensures
            r == (if self.spec_slot() < old(shared)@.len() {
                Ok::<(), DelayError>(())
            } else {
                Err(DelayError::InvalidIndex)
            }),
            final(shared)@ == after_set(old(shared)@, self.spec_slot() as int, WakerSlot::Empty),
            final(shared).spec_interval() == old(shared).spec_interval(),
    {
        shared.slot(self.slot, WakerSlot::Empty)
    }
}

} // verus!
