use gfx_core::frame::{
    AcquireResult, AcquireStep, BeginAction, FramePacer, Phase, PresentResult,
};

fn run_one_good_frame(pacer: &mut FramePacer, fence: u64) {
    assert_eq!(pacer.begin_frame(), BeginAction::Acquire);
    let step = pacer.on_acquire(AcquireResult::Ready { image: 0, suboptimal: false });
    assert_eq!(step, AcquireStep::Proceed);
    let _ = pacer.slot_fence_to_wait();
    let _ = pacer.record_slot();
    pacer.on_submit(fence);
    pacer.on_present(PresentResult::Presented { suboptimal: false });
}

#[test]
fn out_of_date_acquire_aborts_and_defers_a_rebuild() {
    let mut pacer = FramePacer::new();
    assert_eq!(pacer.begin_frame(), BeginAction::Acquire);
    // The surface reports out of date: the frame aborts with no submission
    // and no present, and the rebuild flag stays set for the next call.
    let step = pacer.on_acquire(AcquireResult::OutOfDate);
    assert_eq!(step, AcquireStep::Abort);
    assert_eq!(pacer.phase, Phase::Idle);
    assert!(pacer.recreate);
    assert!(pacer.fence_a.is_none() && pacer.fence_b.is_none());
    // The next draw call performs the rebuild first.
    assert_eq!(pacer.begin_frame(), BeginAction::Rebuild);
    // Nothing is in flight yet, so there is no fence to wait for.
    assert_eq!(pacer.rebuild_fence_to_wait(), None);
    pacer.finish_rebuild();
    assert!(!pacer.recreate);
    assert_eq!(pacer.phase, Phase::Acquire);
}

#[test]
fn slot_fences_gate_command_pool_reuse_two_frames_later() {
    let mut pacer = FramePacer::new();
    // Frame 1 on slot 0: nothing stored yet, no wait needed.
    assert_eq!(pacer.begin_frame(), BeginAction::Acquire);
    pacer.on_acquire(AcquireResult::Ready { image: 0, suboptimal: false });
    assert_eq!(pacer.slot_fence_to_wait(), None);
    assert_eq!(pacer.record_slot(), false);
    pacer.on_submit(100);
    pacer.on_present(PresentResult::Presented { suboptimal: false });
    // Frame 2 on slot 1: still no wait needed.
    assert_eq!(pacer.begin_frame(), BeginAction::Acquire);
    pacer.on_acquire(AcquireResult::Ready { image: 1, suboptimal: false });
    assert_eq!(pacer.slot_fence_to_wait(), None);
    assert_eq!(pacer.record_slot(), true);
    pacer.on_submit(101);
    pacer.on_present(PresentResult::Presented { suboptimal: false });
    // Frame 3 reuses slot 0: its stored fence must be waited before the
    // pool is reset.
    assert_eq!(pacer.begin_frame(), BeginAction::Acquire);
    pacer.on_acquire(AcquireResult::Ready { image: 0, suboptimal: false });
    assert_eq!(pacer.slot_fence_to_wait(), Some(100));
    assert_eq!(pacer.record_slot(), false);
    pacer.on_submit(102);
    pacer.on_present(PresentResult::Presented { suboptimal: false });
}

#[test]
fn rebuild_waits_on_the_other_slots_fence() {
    let mut pacer = FramePacer::new();
    run_one_good_frame(&mut pacer, 100);
    // Frame 2 presents a suboptimal surface: the rebuild is deferred, never
    // an error, and the frame still completes.
    assert_eq!(pacer.begin_frame(), BeginAction::Acquire);
    pacer.on_acquire(AcquireResult::Ready { image: 1, suboptimal: false });
    let _ = pacer.slot_fence_to_wait();
    pacer.on_submit(101);
    pacer.on_present(PresentResult::Presented { suboptimal: true });
    assert!(pacer.recreate);
    // Frame 3 rebuilds first; the other slot (slot 1, fence 101) may still
    // be in flight and must be waited before the swap-chain is torn down.
    assert_eq!(pacer.begin_frame(), BeginAction::Rebuild);
    assert_eq!(pacer.rebuild_fence_to_wait(), Some(101));
    pacer.finish_rebuild();
    assert!(!pacer.recreate);
}

#[test]
fn suboptimal_acquire_proceeds_but_defers_a_rebuild() {
    let mut pacer = FramePacer::new();
    assert_eq!(pacer.begin_frame(), BeginAction::Acquire);
    let step = pacer.on_acquire(AcquireResult::Ready { image: 2, suboptimal: true });
    assert_eq!(step, AcquireStep::Proceed);
    assert_eq!(pacer.phase, Phase::SlotWait { image: 2 });
    assert!(pacer.recreate);
    let _ = pacer.slot_fence_to_wait();
    pacer.on_submit(7);
    pacer.on_present(PresentResult::Presented { suboptimal: false });
    // The flag set during acquire survives to the next call.
    assert!(pacer.recreate);
    assert_eq!(pacer.begin_frame(), BeginAction::Rebuild);
}

#[test]
fn out_of_date_present_defers_a_rebuild_and_toggles_parity() {
    let mut pacer = FramePacer::new();
    assert!(!pacer.parity);
    assert_eq!(pacer.begin_frame(), BeginAction::Acquire);
    pacer.on_acquire(AcquireResult::Ready { image: 0, suboptimal: false });
    let _ = pacer.slot_fence_to_wait();
    pacer.on_submit(9);
    pacer.on_present(PresentResult::OutOfDate);
    assert!(pacer.recreate);
    assert!(pacer.parity);
    assert_eq!(pacer.phase, Phase::Idle);
}
