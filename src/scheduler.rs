//! The scheduler: it sets the sweep interval up and hands out delay futures.

use vstd::prelude::*;
use crate::future::DelayFuture;
use crate::sharedstate::{after_alloc, first_free, DelayError, SharedState};

verus! {

/// Microseconds in a millisecond.
pub const MICROS_PER_MILLI: u64 = 1000;

/// The sweep interval, in microseconds, for a resolution of `resolution_ms`
/// milliseconds; none when it does not fit a `u32`.
pub open spec fn interval_of(resolution_ms: u128) -> Option<u32> {
    if resolution_ms * 1000 <= u32::MAX {
        Some((resolution_ms * 1000) as u32)
    } else {
        None
    }
}

/// The deadline, in microseconds since the epoch, of a timeout of `timeout_ms`
/// milliseconds that starts at `now`; none when it does not fit a `u64`.
pub open spec fn deadline_of(now: u64, timeout_ms: u128) -> Option<u64> {
    if now + timeout_ms * 1000 <= u64::MAX {
        Some((now + timeout_ms * 1000) as u64)
    } else {
        None
    }
}

/// Converts a resolution in milliseconds into the alarm's interval in microseconds.
pub fn interval_micros(resolution_ms: u128) -> (r: Option<u32>)
    ensures
        r == interval_of(resolution_ms),
{
    if resolution_ms > u32::MAX as u128 {
        return None;
    }
    let ms = resolution_ms as u32;
    ms.checked_mul(MICROS_PER_MILLI as u32)
}

/// The deadline of a timeout of `timeout_ms` milliseconds that starts at `now`.
pub fn deadline_after(now: u64, timeout_ms: u128) -> (r: Option<u64>)
    ensures
        r == deadline_of(now, timeout_ms),
{
    if timeout_ms > u64::MAX as u128 {
        return None;
    }
    let ms = timeout_ms as u64;
    match ms.checked_mul(MICROS_PER_MILLI) {
        Some(us) => now.checked_add(us),
        None => None,
    }
}

/// The entry point: a small copyable handle that creates delays.
#[derive(Clone, Copy)]
pub struct DelayScheduler {
    interval: u32,
}

impl DelayScheduler {
    /// The sweep interval in microseconds.
    pub closed spec fn spec_interval(&self) -> u32 {
        self.interval
    }

    /// Sets up a scheduler whose sweep runs every `resolution_ms` milliseconds, with a
    /// pool of `capacity` free entries. Fails when the interval does not fit the alarm's
    /// `u32` count of microseconds.
    pub fn new<W>(resolution_ms: u128, capacity: usize) -> (r: Result<
        (DelayScheduler, SharedState<W>),
        DelayError,
    >)
        ensures
            match interval_of(resolution_ms) {
                Some(us) => r is Ok && r->Ok_0.0.spec_interval() == us
                    && r->Ok_0.1.spec_interval() == us && r->Ok_0.1@.len() == capacity
                    && forall|i: int| 0 <= i < capacity ==> (#[trigger] r->Ok_0.1@[i]) is Empty,
                None => r == Err::<(DelayScheduler, SharedState<W>), DelayError>(
                    DelayError::ResolutionOutOfRange,
                ),
            },
    {
        match interval_micros(resolution_ms) {
            Some(interval) => {
                let shared = SharedState::new(capacity, interval);
                Ok((DelayScheduler { interval }, shared))
            },
            None => Err(DelayError::ResolutionOutOfRange),
        }
    }

    /// The sweep interval in microseconds.
    pub fn interval(&self) -> (r: u32)
        ensures
            r == self.spec_interval(),
    {
        self.interval
    }

    /// Creates a delay of `timeout_ms` milliseconds starting at `now`: it reserves the
    /// lowest free entry and sets the deadline to `now` plus the timeout. Fails with
    /// `PoolExhausted` when no entry is free, else with `TimeoutTooLarge` when the
    /// deadline overflows; the pool is then left as it was.
    pub fn schedule<W>(&self, shared: &mut SharedState<W>, now: u64, timeout_ms: u128) -> (r:
        Result<DelayFuture, DelayError>)
        ensures
            first_free(old(shared)@) is None ==> r == Err::<DelayFuture, DelayError>(
                DelayError::PoolExhausted,
            ) && final(shared)@ == old(shared)@,
            first_free(old(shared)@) is Some && deadline_of(now, timeout_ms) is None ==> r
                == Err::<DelayFuture, DelayError>(DelayError::TimeoutTooLarge) && final(shared)@
                == old(shared)@,
            first_free(old(shared)@) is Some && deadline_of(now, timeout_ms) is Some ==> r is Ok
                && r->Ok_0.spec_slot() == first_free(old(shared)@)->0
                && r->Ok_0.spec_deadline() == deadline_of(now, timeout_ms)->0 && final(shared)@
                == after_alloc(old(shared)@),
            final(shared).spec_interval() == old(shared).spec_interval(),
    {
        match deadline_after(now, timeout_ms) {
            Some(deadline) => match shared.allocate() {
                Ok(slot) => Ok(DelayFuture::new(deadline, slot)),
                Err(e) => Err(e),
            },
            None => match shared.first_free() {
                Some(_) => Err(DelayError::TimeoutTooLarge),
                None => Err(DelayError::PoolExhausted),
            },
        }
    }
}

} // verus!
