use gfx_core::descriptor::{DescriptorError, DescriptorPool};

#[test]
fn allocation_hands_out_sequential_handles() {
    let mut pool = DescriptorPool::new(8);
    let ids = pool.allocate(3).unwrap();
    assert_eq!(ids, vec![0, 1, 2]);
    assert_eq!(pool.outstanding(), 3);
    let more = pool.allocate(2).unwrap();
    assert_eq!(more, vec![3, 4]);
    assert_eq!(pool.outstanding(), 5);
}

#[test]
fn exceeding_capacity_fails_and_does_not_raise_the_count() {
    let mut pool = DescriptorPool::new(3);
    let ids = pool.allocate(2).unwrap();
    assert_eq!(ids, vec![0, 1]);
    assert_eq!(pool.outstanding(), 2);
    assert_eq!(pool.allocate(2), Err(DescriptorError::CapacityExceeded));
    assert_eq!(pool.outstanding(), 2);
    assert_eq!(pool.allocate(1), Ok(vec![2]));
    assert_eq!(pool.outstanding(), 3);
}

#[test]
fn release_defers_and_allocate_reclaims_first() {
    let mut pool = DescriptorPool::new(2);
    let ids = pool.allocate(2).unwrap();
    assert_eq!(pool.outstanding(), 2);
    // Releasing does not lower the outstanding count by itself.
    pool.release(ids[0]);
    assert_eq!(pool.outstanding(), 2);
    assert_eq!(pool.pending(), 1);
    // The next allocation batch reclaims the pending handle first, making
    // room for one more.
    let next = pool.allocate(1).unwrap();
    assert_eq!(next, vec![2]);
    assert_eq!(pool.outstanding(), 2);
    assert_eq!(pool.pending(), 0);
}

#[test]
fn reclaim_drains_every_pending_handle_at_once() {
    let mut pool = DescriptorPool::new(4);
    let ids = pool.allocate(4).unwrap();
    pool.release(ids[1]);
    pool.release(ids[3]);
    pool.release(ids[0]);
    assert_eq!(pool.pending(), 3);
    assert_eq!(pool.outstanding(), 4);
    pool.reclaim();
    assert_eq!(pool.pending(), 0);
    assert_eq!(pool.outstanding(), 1);
}

#[test]
fn a_pool_may_be_destroyed_only_when_nothing_is_outstanding() {
    let mut pool = DescriptorPool::new(2);
    assert!(pool.can_destroy());
    let ids = pool.allocate(2).unwrap();
    assert!(!pool.can_destroy());
    pool.release(ids[0]);
    pool.release(ids[1]);
    // Pending handles still count as outstanding until reclaimed.
    assert!(!pool.can_destroy());
    pool.reclaim();
    assert!(pool.can_destroy());
}

#[test]
fn a_full_batch_into_an_empty_pool_succeeds_exactly_once() {
    let mut pool = DescriptorPool::new(4);
    let ids = pool.allocate(4).unwrap();
    assert_eq!(ids.len(), 4);
    assert_eq!(pool.allocate(1), Err(DescriptorError::CapacityExceeded));
}

#[test]
fn an_empty_batch_succeeds_and_only_reclaims() {
    let mut pool = DescriptorPool::new(1);
    let ids = pool.allocate(1).unwrap();
    pool.release(ids[0]);
    let none = pool.allocate(0).unwrap();
    assert!(none.is_empty());
    assert_eq!(pool.outstanding(), 0);
    assert!(pool.can_destroy());
}
