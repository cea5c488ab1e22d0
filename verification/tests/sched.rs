use gfx_core::sched::{PollOutcome, YieldOnce};
use gfx_core::Owned;
use std::sync::Arc;

#[test]
fn the_first_poll_yields_and_the_second_is_ready() {
    let mut task = YieldOnce::new();
    assert!(!task.yielded);
    assert_eq!(task.poll_step(), PollOutcome::Pending);
    assert!(task.yielded);
    assert_eq!(task.poll_step(), PollOutcome::Ready);
    assert_eq!(task.poll_step(), PollOutcome::Ready);
}

#[test]
fn owned_reaches_plain_and_shared_values() {
    let direct: u32 = 5;
    assert_eq!(*direct.inner(), 5);
    let shared = Arc::new(7u32);
    assert_eq!(*Owned::<u32>::inner(&shared), 7);
}
