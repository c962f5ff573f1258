//! The fixed-capacity pool of wake entries shared by the scheduler, the delay
//! futures and the periodic sweep.

use vstd::prelude::*;

verus! {

/// One entry of the wake pool.
pub enum WakerSlot<W> {
    /// The entry is free.
    Empty,
    /// The entry is held by a future that has not suspended yet.
    Reserved,
    /// A suspended task waits here until `deadline` (microseconds since the epoch).
    Pending { waker: W, deadline: u64 },
}

/// Why an operation on the pool or the scheduler could not be carried out.
#[derive(Debug, Clone, Copy, PartialEq, Eq, Structural)]
pub enum DelayError {
    /// Every entry of the pool is in use.
    PoolExhausted,
    /// A slot index lies outside the pool.
    InvalidIndex,
    /// The resolution cannot be expressed as a `u32` count of microseconds.
    ResolutionOutOfRange,
    /// The deadline of a timeout does not fit the timestamp range.
    TimeoutTooLarge,
}

/// Whether an entry is free.
pub open spec fn is_free<W>(e: WakerSlot<W>) -> bool {
    e is Empty
}

/// Whether an entry holds a registration whose deadline has passed at `now`.
pub open spec fn is_due<W>(e: WakerSlot<W>, now: u64) -> bool {
    match e {
        WakerSlot::Pending { deadline, .. } => deadline <= now,
        _ => false,
    }
}

/// The first free index at or after `k`, if any.
pub open spec fn first_free_from<W>(s: Seq<WakerSlot<W>>, k: int) -> Option<int>
    decreases s.len() - k,
{
    if k < 0 || k >= s.len() {
        None
    } else if is_free(s[k]) {
        Some(k)
    } else {
        first_free_from(s, k + 1)
    }
}

/// The index that allocation picks: the lowest free one.
pub open spec fn first_free<W>(s: Seq<WakerSlot<W>>) -> Option<int> {
    first_free_from(s, 0)
}

/// The pool after an allocation.
pub open spec fn after_alloc<W>(s: Seq<WakerSlot<W>>) -> Seq<WakerSlot<W>> {
    match first_free(s) {
        Some(i) => s.update(i, WakerSlot::Reserved),
        None => s,
    }
}

/// The pool after its entry `i` was replaced by `e` (unchanged for an index out of range).
pub open spec fn after_set<W>(s: Seq<WakerSlot<W>>, i: int, e: WakerSlot<W>) -> Seq<WakerSlot<W>> {
    if 0 <= i < s.len() {
        s.update(i, e)
    } else {
        s
    }
}

/// The indices, ascending, that a sweep at `now` resumes.
pub open spec fn due_indices<W>(s: Seq<WakerSlot<W>>, now: u64, r: Seq<usize>) -> bool {
    &&& forall|a: int, b: int| 0 <= a < b < r.len() ==> r[a] < r[b]
    &&& forall|k: int| 0 <= k < r.len() ==> r[k] < s.len()
    &&& forall|i: int| 0 <= i < s.len() ==> (r.contains(i as usize) <==> is_due(s[i], now))
}

/// What `first_free_from` finds: a free index with only used ones before it, or none at all.
pub proof fn lemma_first_free_from<W>(s: Seq<WakerSlot<W>>, k: int)
    requires
        0 <= k <= s.len(),
    ensures
        match first_free_from(s, k) {
            Some(i) => k <= i < s.len() && is_free(s[i]) && forall|j: int|
                k <= j < i ==> !is_free(#[trigger] s[j]),
            None => forall|j: int| k <= j < s.len() ==> !is_free(#[trigger] s[j]),
        },
    decreases s.len() - k,
{
    if k < s.len() && !is_free(s[k]) {
        lemma_first_free_from(s, k + 1);
    }
}

/// The lowest free index, or none when every entry is in use.
pub proof fn lemma_first_free<W>(s: Seq<WakerSlot<W>>)
    ensures
        match first_free(s) {
            Some(i) => 0 <= i < s.len() && is_free(s[i]) && forall|j: int|
                0 <= j < i ==> !is_free(#[trigger] s[j]),
            None => forall|j: int| 0 <= j < s.len() ==> !is_free(#[trigger] s[j]),
        },
{
    lemma_first_free_from(s, 0);
}

/// The pool of wake entries, with the interval of the periodic sweep.
pub struct SharedState<W> {
    slots: Vec<WakerSlot<W>>,
    interval: u32,
}

impl<W> View for SharedState<W> {
    type V = Seq<WakerSlot<W>>;

    closed spec fn view(&self) -> Seq<WakerSlot<W>> {
        self.slots@
    }
}

impl<W> SharedState<W> {
    /// The sweep interval in microseconds.
    pub closed spec fn spec_interval(&self) -> u32 {
        self.interval
    }

    /// A pool of `capacity` free entries, swept every `interval` microseconds.
    pub fn new(capacity: usize, interval: u32) -> (r: Self)
        ensures
            r@.len() == capacity,
            forall|i: int| 0 <= i < capacity ==> is_free(#[trigger] r@[i]),
            r.spec_interval() == interval,
    {
        let mut slots: Vec<WakerSlot<W>> = Vec::new();
        let mut n: usize = 0;
        while n < capacity
            invariant
                n <= capacity,
                slots@.len() == n,
                forall|i: int| 0 <= i < n ==> is_free(#[trigger] slots@[i]),
            decreases capacity - n,
        {
            slots.push(WakerSlot::Empty);
            n = n + 1;
        }
        SharedState { slots, interval }
    }

    /// The number of entries.
    pub fn capacity(&self) -> (r: usize)
        ensures
            r == self@.len(),
    {
        self.slots.len()
    }

    /// The sweep interval in microseconds.
    pub fn interval(&self) -> (r: u32)
        ensures
            r == self.spec_interval(),
    {
        self.interval
    }

    /// The lowest free index, if any.
    pub fn first_free(&self) -> (r: Option<usize>)
        ensures
            match r {
                Some(i) => first_free(self@) == Some(i as int),
                None => first_free(self@) is None,
            },
    {
        let mut k: usize = 0;
        while k < self.slots.len()
            invariant
                k <= self@.len(),
                self@ == self.slots@,
                first_free_from(self@, 0) == first_free_from(self@, k as int),
            decreases self@.len() - k,
        {
            if let WakerSlot::Empty = &self.slots[k] {
                return Some(k);
            }
            k = k + 1;
        }
        None
    }

    /// Reserves the lowest free entry and returns its index.
    pub fn allocate(&mut self) -> (r: Result<usize, DelayError>)
        ensures
            match r {
                Ok(i) => first_free(old(self)@) == Some(i as int),
                Err(e) => first_free(old(self)@) is None && e == DelayError::PoolExhausted,
            },
            final(self)@ == after_alloc(old(self)@),
            final(self).spec_interval() == old(self).spec_interval(),
    {
        proof {
            lemma_first_free(self@);
        }
        let ghost s0 = self@;
        match self.first_free() {
            Some(i) => {
                self.slots.set(i, WakerSlot::Reserved);
                assert(self@ == s0.update(i as int, WakerSlot::Reserved));
                Ok(i)
            },
            None => Err(DelayError::PoolExhausted),
        }
    }

    /// Replaces the entry at `index` by `entry`.
    pub fn slot(&mut self, index: usize, entry: WakerSlot<W>) -> (r: Result<(), DelayError>)
        ensures
            r == (if index < old(self)@.len() {
                Ok::<(), DelayError>(())
            } else {
                Err(DelayError::InvalidIndex)
            }),
            final(self)@ == after_set(old(self)@, index as int, entry),
            final(self).spec_interval() == old(self).spec_interval(),
    {
        if index < self.slots.len() {
            self.slots.set(index, entry);
            Ok(())
        } else {
            Err(DelayError::InvalidIndex)
        }
    }

    /// The entry at `index`, if the index lies in the pool.
    pub fn entry(&self, index: usize) -> (r: Option<&WakerSlot<W>>)
        ensures
            r == (if index < self@.len() {
                Some(&self@[index as int])
            } else {
                None::<&WakerSlot<W>>
            }),
    {
        if index < self.slots.len() {
            Some(&self.slots[index])
        } else {
            None
        }
    }

    /// The waker registered at `index`, if that entry is pending.
    pub fn pending_waker(&self, index: usize) -> (r: Option<&W>)
        ensures
            r == (if index < self@.len() && self@[index as int] is Pending {
                Some(&self@[index as int]->waker)
            } else {
                None::<&W>
            }),
    {
        if index < self.slots.len() {
            match &self.slots[index] {
                WakerSlot::Pending { waker, .. } => Some(waker),
                _ => None,
            }
        } else {
            None
        }
    }

    /// The indices, ascending, of the pending entries whose deadline has passed at `now`:
    /// the entries that a sweep taking its time snapshot at `now` resumes.
    pub fn wakers(&self, now: u64) -> (r: Vec<usize>)
        ensures
            due_indices(self@, now, r@),
    {
        let mut r: Vec<usize> = Vec::new();
        let mut k: usize = 0;
        while k < self.slots.len()
            invariant
                k <= self@.len(),
                self@ == self.slots@,
                forall|a: int, b: int| 0 <= a < b < r@.len() ==> r@[a] < r@[b],
                forall|m: int| 0 <= m < r@.len() ==> r@[m] < k,
                forall|i: int| 0 <= i < k ==> (r@.contains(i as usize) <==> is_due(self@[i], now)),
            decreases self@.len() - k,
        {
            let due = match &self.slots[k] {
                WakerSlot::Pending { deadline, .. } => *deadline <= now,
                _ => false,
            };
            let ghost before = r@;
            if due {
                r.push(k);
            }
            assert forall|i: int| 0 <= i < k + 1 implies (r@.contains(i as usize) <==> is_due(
                self@[i],
                now,
            )) by {
                if due {
                    assert(r@ == before.push(k));
                    assert(r@[before.len() as int] == k);
                    if r@.contains(i as usize) && i < k {
                        let m = choose|m: int| 0 <= m < r@.len() && r@[m] == i as usize;
                        assert(m < before.len());
                        assert(before.contains(i as usize));
                    }
                    if i < k && before.contains(i as usize) {
                        let m = choose|m: int| 0 <= m < before.len() && before[m] == i as usize;
                        assert(r@[m] == i as usize);
                    }
                }
            }
            k = k + 1;
        }
        r
    }
}

} // verus!
