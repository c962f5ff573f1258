use async_delay::scheduler::{deadline_after, interval_micros};
use async_delay::{DelayError, DelayPoll, DelayScheduler, SharedState, WakerSlot};

fn setup(resolution_ms: u128, capacity: usize) -> (DelayScheduler, SharedState<u32>) {
    DelayScheduler::new::<u32>(resolution_ms, capacity).unwrap()
}

#[test]
fn resolution_ten_millis_is_ten_thousand_micros() {
    let (sched, shared) = setup(10, 4);
    assert_eq!(sched.interval(), 10_000);
    assert_eq!(shared.interval(), 10_000);
    assert_eq!(shared.capacity(), 4);
    for i in 0..4 {
        assert!(matches!(shared.entry(i), Some(WakerSlot::Empty)));
    }
    assert!(shared.entry(4).is_none());
}

#[test]
fn resolution_out_of_range_is_rejected() {
    assert_eq!(interval_micros(4_294_967), Some(4_294_967_000));
    assert_eq!(interval_micros(4_294_968), None);
    assert_eq!(interval_micros(u128::MAX), None);
    assert_eq!(interval_micros(0), Some(0));
    assert!(matches!(
        DelayScheduler::new::<u32>(4_294_968, 2),
        Err(DelayError::ResolutionOutOfRange)
    ));
}

#[test]
fn deadline_is_now_plus_timeout_in_micros() {
    assert_eq!(deadline_after(500, 25), Some(25_500));
    assert_eq!(deadline_after(0, 0), Some(0));
    assert_eq!(deadline_after(u64::MAX - 1000, 1), Some(u64::MAX));
    assert_eq!(deadline_after(u64::MAX - 999, 1), None);
    assert_eq!(deadline_after(0, u128::from(u64::MAX)), None);
}

#[test]
fn timeout_too_large_leaves_pool_untouched() {
    let (sched, mut shared) = setup(10, 1);
    let r = sched.schedule(&mut shared, u64::MAX, 1);
    assert!(matches!(r, Err(DelayError::TimeoutTooLarge)));
    assert!(matches!(shared.entry(0), Some(WakerSlot::Empty)));
}

#[test]
fn exhaustion_wins_over_timeout_too_large() {
    let (sched, mut shared) = setup(10, 1);
    let _f = sched.schedule(&mut shared, 0, 1).unwrap();
    let r = sched.schedule(&mut shared, u64::MAX, 1);
    assert!(matches!(r, Err(DelayError::PoolExhausted)));
}

#[test]
fn capacity_two_reuses_freed_slot() {
    let (sched, mut shared) = setup(10, 2);
    let f0 = sched.schedule(&mut shared, 0, 5).unwrap();
    let f1 = sched.schedule(&mut shared, 0, 5).unwrap();
    assert_eq!(f0.slot(), 0);
    assert_eq!(f1.slot(), 1);
    assert!(matches!(sched.schedule(&mut shared, 0, 5), Err(DelayError::PoolExhausted)));
    assert_eq!(f0.release(&mut shared), Ok(()));
    let f2 = sched.schedule(&mut shared, 0, 5).unwrap();
    assert_eq!(f2.slot(), 0);
}

#[test]
fn live_delays_hold_distinct_slots() {
    let (sched, mut shared) = setup(10, 4);
    let mut live = Vec::new();
    for _ in 0..4 {
        live.push(sched.schedule(&mut shared, 0, 1).unwrap());
    }
    let b = live.remove(2);
    b.release(&mut shared).unwrap();
    let a = live.remove(0);
    a.release(&mut shared).unwrap();
    live.push(sched.schedule(&mut shared, 0, 1).unwrap());
    live.push(sched.schedule(&mut shared, 0, 1).unwrap());
    let mut slots: Vec<usize> = live.iter().map(|f| f.slot()).collect();
    slots.sort();
    assert_eq!(slots, vec![0, 1, 2, 3]);
    assert!(matches!(sched.schedule(&mut shared, 0, 1), Err(DelayError::PoolExhausted)));
}

#[test]
fn slot_lifecycle_empty_reserved_pending_empty() {
    let (sched, mut shared) = setup(10, 1);
    assert!(matches!(shared.entry(0), Some(WakerSlot::Empty)));
    let f = sched.schedule(&mut shared, 0, 25).unwrap();
    assert!(matches!(shared.entry(0), Some(WakerSlot::Reserved)));
    assert_eq!(f.poll(&mut shared, 0, 7), Ok(DelayPoll::Pending));
    assert!(matches!(shared.entry(0), Some(WakerSlot::Pending { waker: 7, deadline: 25_000 })));
    assert_eq!(shared.wakers(30_000), vec![0]);
    assert!(matches!(shared.entry(0), Some(WakerSlot::Pending { .. })));
    assert_eq!(f.poll(&mut shared, 30_000, 8), Ok(DelayPoll::Ready));
    assert!(matches!(shared.entry(0), Some(WakerSlot::Pending { waker: 7, .. })));
    f.release(&mut shared).unwrap();
    assert!(matches!(shared.entry(0), Some(WakerSlot::Empty)));
}

#[test]
fn cancelled_delay_frees_its_slot() {
    let (sched, mut shared) = setup(10, 1);
    let f = sched.schedule(&mut shared, 0, 1000).unwrap();
    assert_eq!(f.poll(&mut shared, 10, 1), Ok(DelayPoll::Pending));
    f.release(&mut shared).unwrap();
    assert!(matches!(shared.entry(0), Some(WakerSlot::Empty)));
    assert!(shared.wakers(u64::MAX).is_empty());
}

#[test]
fn ready_exactly_at_deadline() {
    let (sched, mut shared) = setup(10, 1);
    let t: u64 = 1_000_000;
    let f = sched.schedule(&mut shared, t, 25).unwrap();
    assert_eq!(f.deadline(), t + 25_000);
    assert!(!f.is_ready(t + 25_000 - 1));
    assert!(f.is_ready(t + 25_000));
    assert_eq!(f.poll(&mut shared, t + 25_000 - 1, 1), Ok(DelayPoll::Pending));
    assert_eq!(f.poll(&mut shared, t + 25_000, 1), Ok(DelayPoll::Ready));
}

#[test]
fn zero_timeout_is_ready_at_once_without_registering() {
    let (sched, mut shared) = setup(10, 1);
    let f = sched.schedule(&mut shared, 40, 0).unwrap();
    assert_eq!(f.poll(&mut shared, 40, 3), Ok(DelayPoll::Ready));
    assert!(matches!(shared.entry(0), Some(WakerSlot::Reserved)));
}

#[test]
fn sweep_resumes_only_expired_entries() {
    let (sched, mut shared) = setup(10, 3);
    let a = sched.schedule(&mut shared, 0, 10).unwrap();
    let _b = sched.schedule(&mut shared, 0, 5).unwrap();
    let c = sched.schedule(&mut shared, 0, 30).unwrap();
    a.poll(&mut shared, 0, 100).unwrap();
    c.poll(&mut shared, 0, 300).unwrap();
    assert_eq!(shared.wakers(9_999), Vec::<usize>::new());
    assert_eq!(shared.wakers(10_000), vec![0]);
    assert_eq!(shared.wakers(30_000), vec![0, 2]);
    assert_eq!(shared.pending_waker(2), Some(&300));
    assert_eq!(shared.pending_waker(1), None);
    assert_eq!(shared.pending_waker(9), None);
}

#[test]
fn last_registration_wins() {
    let (sched, mut shared) = setup(10, 1);
    let f = sched.schedule(&mut shared, 0, 25).unwrap();
    assert_eq!(f.poll(&mut shared, 0, 1), Ok(DelayPoll::Pending));
    assert_eq!(f.poll(&mut shared, 5_000, 2), Ok(DelayPoll::Pending));
    let due = shared.wakers(25_000);
    let woken: Vec<u32> = due.iter().map(|&i| *shared.pending_waker(i).unwrap()).collect();
    assert_eq!(woken, vec![2]);
}

#[test]
fn ten_millis_resolution_wakes_at_thirty() {
    let (sched, mut shared) = setup(10, 4);
    let step = u64::from(sched.interval());
    let f = sched.schedule(&mut shared, 0, 25).unwrap();
    let mut woken_at: Vec<u64> = Vec::new();
    assert_eq!(f.poll(&mut shared, 0, 1), Ok(DelayPoll::Pending));
    for k in 1..=3u64 {
        let now = k * step;
        for i in shared.wakers(now) {
            if shared.pending_waker(i).is_some() {
                woken_at.push(now);
            }
        }
        if woken_at.is_empty() {
            assert_eq!(f.poll(&mut shared, now, 1), Ok(DelayPoll::Pending));
        } else {
            assert_eq!(f.poll(&mut shared, now, 1), Ok(DelayPoll::Ready));
            f.release(&mut shared).unwrap();
            break;
        }
    }
    assert_eq!(woken_at, vec![30_000]);
    assert!(matches!(shared.entry(0), Some(WakerSlot::Empty)));
}

#[test]
fn invalid_index_is_reported() {
    let (sched, mut big) = setup(10, 3);
    let (_, mut small) = setup(10, 1);
    let _a = sched.schedule(&mut big, 0, 1).unwrap();
    let _b = sched.schedule(&mut big, 0, 1).unwrap();
    let c = sched.schedule(&mut big, 0, 1).unwrap();
    assert_eq!(c.slot(), 2);
    assert_eq!(c.release(&mut small), Err(DelayError::InvalidIndex));
    assert_eq!(c.poll(&mut small, 0, 1), Err(DelayError::InvalidIndex));
    assert_eq!(small.slot(1, WakerSlot::Reserved), Err(DelayError::InvalidIndex));
    assert_eq!(small.slot(0, WakerSlot::Reserved), Ok(()));
    assert!(matches!(small.entry(0), Some(WakerSlot::Reserved)));
}

#[test]
fn allocate_picks_lowest_free_index() {
    let mut shared: SharedState<u32> = SharedState::new(3, 1000);
    assert_eq!(shared.allocate(), Ok(0));
    assert_eq!(shared.allocate(), Ok(1));
    shared.slot(0, WakerSlot::Empty).unwrap();
    assert_eq!(shared.first_free(), Some(0));
    assert_eq!(shared.allocate(), Ok(0));
    assert_eq!(shared.allocate(), Ok(2));
    assert_eq!(shared.first_free(), None);
    assert_eq!(shared.allocate(), Err(DelayError::PoolExhausted));
}

#[test]
fn zero_capacity_pool_always_exhausted() {
    let (sched, mut shared) = setup(1, 0);
    assert!(matches!(sched.schedule(&mut shared, 0, 1), Err(DelayError::PoolExhausted)));
}
