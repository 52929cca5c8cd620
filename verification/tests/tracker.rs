use aerugo_render::error::Error;
use aerugo_render::tracker::AllocationTracker;

#[test]
fn live_count_never_exceeds_the_ceiling() {
    let mut t = AllocationTracker::new(2);
    assert_eq!(t.live_count(), 0);
    let a = t.allocate().unwrap();
    let b = t.allocate().unwrap();
    assert_ne!(a, b);
    assert_eq!(t.live_count(), 2);

    // A request that would exceed the ceiling fails and changes nothing.
    let denied = t.allocate();
    assert_eq!(denied, Err(Error::AllocationLimitExceeded(2)));
    assert_eq!(t.live_count(), 2);

    // Freeing makes room again.
    t.free(a);
    assert_eq!(t.live_count(), 1);
    let c = t.allocate().unwrap();
    assert_ne!(b, c);
    assert_eq!(t.live_count(), 2);
}

#[test]
fn a_zero_ceiling_denies_the_first_request() {
    let mut t = AllocationTracker::new(0);
    assert_eq!(t.allocate(), Err(Error::AllocationLimitExceeded(0)));
    assert_eq!(t.live_count(), 0);
    assert_eq!(t.max_allocations(), 0);
}
