//! Laws that tie the pool, the delays and the sweep together.

use vstd::prelude::*;
use vstd::set_lib::{lemma_int_range, lemma_len_subset, lemma_subset_equality, set_int_range};
use crate::future::DelayFuture;
use crate::scheduler::deadline_of;
use crate::sharedstate::{
    after_alloc, after_set, due_indices, first_free, is_due, is_free, lemma_first_free,
    WakerSlot,
};

verus! {

/// The entries held by a list of live delays, in the list's order.
pub open spec fn held_slots(live: Seq<DelayFuture>) -> Seq<int> {
    live.map_values(|f: DelayFuture| f.spec_slot() as int)
}

/// The pool agrees with the live delays: no two of them hold the same entry, each
/// holds an entry of the pool, and an entry is in use exactly when a live delay holds it.
pub open spec fn tracks<W>(s: Seq<WakerSlot<W>>, live: Seq<DelayFuture>) -> bool {
    &&& held_slots(live).no_duplicates()
    &&& forall|k: int| 0 <= k < live.len() ==> 0 <= #[trigger] held_slots(live)[k] < s.len()
    &&& forall|i: int| 0 <= i < s.len() ==> (!is_free(s[i]) <==> held_slots(live).contains(i))
}

/// A pool whose entries are all free agrees with an empty list of live delays.
pub proof fn lemma_fresh_pool_tracks<W>(s: Seq<WakerSlot<W>>)
    requires
        forall|i: int| 0 <= i < s.len() ==> is_free(#[trigger] s[i]),
    ensures
        tracks(s, Seq::<DelayFuture>::empty()),
{
    assert(held_slots(Seq::<DelayFuture>::empty()) =~= Seq::<int>::empty());
}

/// Scheduling gives the new delay an entry that no live delay holds, and the pool then
/// agrees with the live delays and the new one.
pub proof fn lemma_schedule_keeps_slots_unique<W>(
    s: Seq<WakerSlot<W>>,
    live: Seq<DelayFuture>,
    f: DelayFuture,
)
    requires
        tracks(s, live),
        first_free(s) == Some(f.spec_slot() as int),
    ensures
        forall|k: int| 0 <= k < live.len() ==> (#[trigger] live[k]).spec_slot() != f.spec_slot(),
        tracks(after_alloc(s), live.push(f)),
{
    lemma_first_free(s);
    let j = f.spec_slot() as int;
    let held = held_slots(live);
    let held2 = held_slots(live.push(f));
    assert(held2 =~= held.push(j));
    assert forall|k: int| 0 <= k < live.len() implies (#[trigger] live[k]).spec_slot()
        != f.spec_slot() by {
        assert(held[k] == live[k].spec_slot() as int);
        if live[k].spec_slot() == f.spec_slot() {
            assert(held.contains(j));
        }
    }
    assert forall|a: int, b: int| 0 <= a < held2.len() && 0 <= b < held2.len() && a != b implies held2[a]
        != held2[b] by {
        if a < held.len() && b < held.len() {
        } else if a < held.len() {
            assert(held[a] == live[a].spec_slot() as int);
        } else {
            assert(held[b] == live[b].spec_slot() as int);
        }
    }
    assert forall|i: int| 0 <= i < s.len() implies (!is_free(after_alloc(s)[i])
        <==> held2.contains(i)) by {
        if i == j {
            assert(held2[held.len() as int] == j);
        } else {
            if held2.contains(i) {
                let m = choose|m: int| 0 <= m < held2.len() && held2[m] == i;
                assert(held[m] == i);
            }
            if held.contains(i) {
                let m = choose|m: int| 0 <= m < held.len() && held[m] == i;
                assert(held2[m] == i);
            }
        }
    }
}

/// Releasing the entry of a live delay frees that entry alone, and the pool then agrees
/// with the other live delays.
pub proof fn lemma_release_keeps_slots_unique<W>(
    s: Seq<WakerSlot<W>>,
    live: Seq<DelayFuture>,
    k: int,
)
    requires
        tracks(s, live),
        0 <= k < live.len(),
    ensures
        tracks(after_set(s, live[k].spec_slot() as int, WakerSlot::Empty), live.remove(k)),
{
    let j = live[k].spec_slot() as int;
    let held = held_slots(live);
    let held2 = held_slots(live.remove(k));
    let s2 = after_set(s, j, WakerSlot::Empty);
    assert(held[k] == j);
    assert(held2 =~= held.remove(k));
    assert forall|i: int| 0 <= i < s.len() implies (!is_free(s2[i]) <==> held2.contains(i)) by {
        if held2.contains(i) {
            let m = choose|m: int| 0 <= m < held2.len() && held2[m] == i;
            if m < k {
                assert(held[m] == i);
            } else {
                assert(held[m + 1] == i);
            }
            assert(held.contains(i));
        }
        if i != j && held.contains(i) {
            let m = choose|m: int| 0 <= m < held.len() && held[m] == i;
            if m < k {
                assert(held2[m] == i);
            } else {
                assert(held2[m - 1] == i);
            }
        }
    }
    assert forall|a: int| 0 <= a < live.remove(k).len() implies 0 <= #[trigger] held2[a]
        < s2.len() by {
        if a < k {
            assert(held2[a] == held[a]);
        } else {
            assert(held2[a] == held[a + 1]);
        }
    }
}

/// Registering a waker in the entry of a live delay keeps the pool in agreement with
/// the live delays.
pub proof fn lemma_poll_keeps_slots_unique<W>(
    s: Seq<WakerSlot<W>>,
    live: Seq<DelayFuture>,
    k: int,
    waker: W,
    deadline: u64,
)
    requires
        tracks(s, live),
        0 <= k < live.len(),
    ensures
        tracks(
            after_set(
                s,
                live[k].spec_slot() as int,
                (WakerSlot::Pending { waker: waker, deadline: deadline }),
            ),
            live,
        ),
{
    let held = held_slots(live);
    assert(held[k] == live[k].spec_slot() as int);
    assert(held.contains(live[k].spec_slot() as int));
}

/// With as many live delays as the pool has entries, no entry is free: the next
/// allocation fails.
pub proof fn lemma_capacity_bound<W>(s: Seq<WakerSlot<W>>, live: Seq<DelayFuture>)
    requires
        tracks(s, live),
        live.len() >= s.len(),
    ensures
        first_free(s) is None,
{
    let held = held_slots(live);
    held.unique_seq_to_set();
    lemma_int_range(0, s.len() as int);
    let range = set_int_range(0, s.len() as int);
    assert(held.to_set().subset_of(range));
    lemma_len_subset(held.to_set(), range);
    lemma_subset_equality(held.to_set(), range);
    lemma_first_free(s);
    if first_free(s) is Some {
        let i = first_free(s)->0;
        assert(range.contains(i));
        assert(held.to_set().contains(i));
    }
}

/// The life of an entry: allocation turns the lowest free entry, and no other, into a
/// reservation; storing anything but `Empty` frees no entry; storing `Empty`, which
/// releasing does, frees only the entry it names.
pub proof fn lemma_entry_lifecycle<W>(s: Seq<WakerSlot<W>>, j: int, e: WakerSlot<W>)
    ensures
        first_free(s) is Some ==> is_free(s[first_free(s)->0]) && after_alloc(s)[first_free(
            s,
        )->0] is Reserved,
        forall|i: int|
            0 <= i < s.len() && Some(i) != first_free(s) ==> #[trigger] after_alloc(s)[i] == s[i],
        !is_free(e) ==> forall|i: int|
            0 <= i < s.len() && !is_free(s[i]) ==> !is_free(#[trigger] after_set(s, j, e)[i]),
        forall|i: int|
            0 <= i < s.len() && i != j ==> #[trigger] after_set(s, j, WakerSlot::Empty)[i] == s[i],
        0 <= j < s.len() ==> is_free(after_set(s, j, WakerSlot::Empty)[j]),
        after_alloc(s).len() == s.len() && after_set(s, j, e).len() == s.len(),
{
    lemma_first_free(s);
}

/// A delay's deadline is `now` plus the timeout, so it is ready at exactly the times at
/// or after that sum.
pub proof fn lemma_ready_iff_deadline_passed(f: DelayFuture, now: u64, timeout_ms: u128, t: u64)
    requires
        deadline_of(now, timeout_ms) == Some(f.spec_deadline()),
    ensures
        (t >= f.spec_deadline()) <==> t >= now + timeout_ms * 1000,
        t == now + timeout_ms * 1000 - 1 ==> !(t >= f.spec_deadline()),
{
}

/// A sweep resumes a registered entry exactly when its snapshot is at or after the
/// entry's deadline: never earlier, and on every sweep from then on.
pub proof fn lemma_sweep_resumes_expired<W>(
    s: Seq<WakerSlot<W>>,
    slot: int,
    waker: W,
    deadline: u64,
    now: u64,
    r: Seq<usize>,
)
    requires
        0 <= slot < s.len(),
        s[slot] == (WakerSlot::Pending { waker: waker, deadline: deadline }),
        due_indices(s, now, r),
    ensures
        r.contains(slot as usize) <==> deadline <= now,
{
    assert(is_due(s[slot], now) <==> deadline <= now);
}

/// Registering twice in the same entry keeps only the second waker: that is the one
/// a sweep at or after the deadline finds there.
pub proof fn lemma_last_registration_wins<W>(
    s: Seq<WakerSlot<W>>,
    slot: int,
    first: W,
    second: W,
    deadline: u64,
    now: u64,
    r: Seq<usize>,
)
    requires
        0 <= slot < s.len(),
        due_indices(
            after_set(
                after_set(s, slot, (WakerSlot::Pending { waker: first, deadline: deadline })),
                slot,
                (WakerSlot::Pending { waker: second, deadline: deadline }),
            ),
            now,
            r,
        ),
    ensures
        after_set(
            after_set(s, slot, (WakerSlot::Pending { waker: first, deadline: deadline })),
            slot,
            (WakerSlot::Pending { waker: second, deadline: deadline }),
        )[slot] == (WakerSlot::Pending { waker: second, deadline: deadline }),
        r.contains(slot as usize) <==> deadline <= now,
{
    let s2 = after_set(
        after_set(s, slot, (WakerSlot::Pending { waker: first, deadline: deadline })),
        slot,
        (WakerSlot::Pending { waker: second, deadline: deadline }),
    );
    assert(s2[slot] == (WakerSlot::Pending { waker: second, deadline: deadline }));
    assert(is_due(s2[slot], now) <==> deadline <= now);
}

} // verus!
