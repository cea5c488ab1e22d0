//! Double-buffered frame pacing and swap-chain rebuild sequencing.
//!
//! The pacer is the decision core of the per-frame loop. The surrounding
//! driver loop performs each instructed action — block on a fence, reset the
//! slot's command pool, record and submit, present, rebuild the swap-chain —
//! and hands the outcome back; the pacer's contracts sequence those actions.
//! Two frame slots alternate, so at most two frames are in flight. A slot's
//! command pool is reused only after the fence stored in the slot has been
//! handed out for waiting, and the swap-chain is rebuilt only after the
//! other slot's fence has been handed out for waiting: the caller must block
//! on a fence it receives before taking the next step, which is the one
//! obligation the types cannot carry.

use vstd::prelude::*;

verus! {

/// Where the pacer stands within one `draw` call.
#[derive(Clone, Copy, PartialEq, Eq, Structural, Debug)]
pub enum Phase {
    /// Between draw calls.
    Idle,
    /// A rebuild is due; the other slot's fence must be waited first.
    RebuildWait,
    /// The other slot is idle; the swap-chain may be torn down and rebuilt.
    RebuildDo,
    /// A presentable image must be acquired.
    Acquire,
    /// The current slot's fence, if any, must be waited before its pool is
    /// reused.
    SlotWait { image: u32 },
    /// The current slot's pool may be reset and the frame recorded and
    /// submitted.
    Record { image: u32 },
    /// The frame was submitted and must be presented.
    Present { image: u32 },
}

/// What a draw call starts with.
#[derive(Clone, Copy, PartialEq, Eq, Structural, Debug)]
pub enum BeginAction {
    /// Run the rebuild protocol first.
    Rebuild,
    /// Acquire an image right away.
    Acquire,
}

/// What the driver reported for an image acquisition. Out-of-date and
/// suboptimal surfaces are the only conditions handled here: any other
/// driver failure is fatal and terminates the process before the pacer is
/// consulted.
#[derive(Clone, Copy, PartialEq, Eq, Structural, Debug)]
pub enum AcquireResult {
    /// An image was acquired; `suboptimal` asks for a rebuild on the next
    /// call.
    Ready { image: u32, suboptimal: bool },
    /// The surface is out of date; nothing was acquired.
    OutOfDate,
}

/// Whether the frame goes on after an acquisition.
#[derive(Clone, Copy, PartialEq, Eq, Structural, Debug)]
pub enum AcquireStep {
    Proceed,
    Abort,
}

/// What the driver reported for a presentation.
#[derive(Clone, Copy, PartialEq, Eq, Structural, Debug)]
pub enum PresentResult {
    /// The image was queued for presentation; `suboptimal` asks for a
    /// rebuild on the next call.
    Presented { suboptimal: bool },
    /// The surface is out of date; a rebuild is due on the next call.
    OutOfDate,
}

/// The frame-pacing state machine: current phase, slot parity, the deferred
/// rebuild flag, and per-slot stored fences with their in-flight marks.
pub struct FramePacer {
    pub phase: Phase,
    pub parity: bool,
    pub recreate: bool,
    pub fence_a: Option<u64>,
    pub fence_b: Option<u64>,
    pub in_flight_a: bool,
    pub in_flight_b: bool,
}

impl FramePacer {
    /// The fence stored in slot `s`.
    pub open spec fn fence_of(self, s: bool) -> Option<u64> {
        if s {
            self.fence_b
        } else {
            self.fence_a
        }
    }

    /// Slot `s` may still have GPU work reading its command buffers.
    pub open spec fn in_flight_of(self, s: bool) -> bool {
        if s {
            self.in_flight_b
        } else {
            self.in_flight_a
        }
    }

    /// Well-formedness: an in-flight slot holds a fence; recording happens
    /// only with the current slot idle; the rebuild runs only with the other
    /// slot idle.
    pub open spec fn wf(self) -> bool {
        &&& (self.in_flight_a ==> self.fence_a is Some)
        &&& (self.in_flight_b ==> self.fence_b is Some)
        &&& match self.phase {
            Phase::Record { .. } => !self.in_flight_of(self.parity),
            Phase::RebuildDo => !self.in_flight_of(!self.parity),
            _ => true,
        }
    }

    /// A fresh pacer: idle, nothing in flight, no rebuild due.
    pub fn new() -> (p: FramePacer)
        ensures
            p.wf(),
            p.phase == Phase::Idle,
            p.parity == false,
            p.recreate == false,
            p.fence_a is None && p.fence_b is None,
            !p.in_flight_a && !p.in_flight_b,
    {
        FramePacer {
            phase: Phase::Idle,
            parity: false,
            recreate: false,
            fence_a: None,
            fence_b: None,
            in_flight_a: false,
            in_flight_b: false,
        }
    }

    /// Start a draw call: run the rebuild protocol exactly when the previous
    /// call deferred one, otherwise go straight to acquiring an image.
    pub fn begin_frame(&mut self) -> (r: BeginAction)
        requires
            old(self).wf(),
            old(self).phase == Phase::Idle,
        ensures
            final(self).wf(),
            (r == BeginAction::Rebuild) <==> old(self).recreate,
            final(self).phase == (if old(self).recreate {
                Phase::RebuildWait
            } else {
                Phase::Acquire
            }),
            final(self).parity == old(self).parity,
            final(self).recreate == old(self).recreate,
            final(self).fence_a == old(self).fence_a,
            final(self).fence_b == old(self).fence_b,
            final(self).in_flight_a == old(self).in_flight_a,
            final(self).in_flight_b == old(self).in_flight_b,
    {
        if self.recreate {
            self.phase = Phase::RebuildWait;
            BeginAction::Rebuild
        } else {
            self.phase = Phase::Acquire;
            BeginAction::Acquire
        }
    }

    /// First step of the rebuild protocol: hand out the other slot's fence.
    /// The caller must block on the returned fence before touching the
    /// doomed swap-chain; once the wait is handed out, the other slot counts
    /// as idle and the rebuild may proceed.
    pub fn rebuild_fence_to_wait(&mut self) -> (r: Option<u64>)
        requires
            old(self).wf(),
            old(self).phase == Phase::RebuildWait,
        ensures
            final(self).wf(),
            final(self).phase == Phase::RebuildDo,
            r == (if old(self).in_flight_of(!old(self).parity) {
                old(self).fence_of(!old(self).parity)
            } else {
                None::<u64>
            }),
            !final(self).in_flight_of(!final(self).parity),
            final(self).in_flight_of(final(self).parity) == old(self).in_flight_of(
                old(self).parity,
            ),
            final(self).parity == old(self).parity,
            final(self).recreate == old(self).recreate,
            final(self).fence_a == old(self).fence_a,
            final(self).fence_b == old(self).fence_b,
    {
        self.phase = Phase::RebuildDo;
        if self.parity {
            if self.in_flight_a {
                self.in_flight_a = false;
                self.fence_a
            } else {
                None
            }
        } else {
            if self.in_flight_b {
                self.in_flight_b = false;
                self.fence_b
            } else {
                None
            }
        }
    }

    /// Last step of the rebuild protocol, after the swap-chain, its views,
    /// the pipeline and the framebuffers were recreated: the deferred-rebuild
    /// flag clears and the frame goes on to acquire an image.
    pub fn finish_rebuild(&mut self)
        requires
            old(self).wf(),
            old(self).phase == Phase::RebuildDo,
        ensures
            final(self).wf(),
            final(self).phase == Phase::Acquire,
            final(self).recreate == false,
            final(self).parity == old(self).parity,
            final(self).fence_a == old(self).fence_a,
            final(self).fence_b == old(self).fence_b,
            final(self).in_flight_a == old(self).in_flight_a,
            final(self).in_flight_b == old(self).in_flight_b,
    {
        self.recreate = false;
        self.phase = Phase::Acquire;
    }

    /// React to the driver's acquisition report. An out-of-date surface
    /// aborts the frame — no slot wait, no submission, no present — and
    /// defers a rebuild to the next call. A suboptimal acquisition proceeds
    /// with this frame but also defers a rebuild.
    pub fn on_acquire(&mut self, res: AcquireResult) -> (r: AcquireStep)
        requires
            old(self).wf(),
            old(self).phase == Phase::Acquire,
        ensures
            final(self).wf(),
            final(self).parity == old(self).parity,
            final(self).fence_a == old(self).fence_a,
            final(self).fence_b == old(self).fence_b,
            final(self).in_flight_a == old(self).in_flight_a,
            final(self).in_flight_b == old(self).in_flight_b,
            res == AcquireResult::OutOfDate ==> {
                &&& r == AcquireStep::Abort
                &&& final(self).phase == Phase::Idle
                &&& final(self).recreate == true
            },
            res matches AcquireResult::Ready { image, suboptimal } ==> {
                &&& r == AcquireStep::Proceed
                &&& final(self).phase == (Phase::SlotWait { image })
                &&& final(self).recreate == (old(self).recreate || suboptimal)
            },
    {
        match res {
            AcquireResult::OutOfDate => {
                self.recreate = true;
                self.phase = Phase::Idle;
                AcquireStep::Abort
            },
            AcquireResult::Ready { image, suboptimal } => {
                if suboptimal {
                    self.recreate = true;
                }
                self.phase = Phase::SlotWait { image };
                AcquireStep::Proceed
            },
        }
    }

    /// Hand out the current slot's stored fence, emptying the slot. The
    /// caller must block on the returned fence before reusing the slot's
    /// command pool; only then does the pacer allow recording.
    pub fn slot_fence_to_wait(&mut self) -> (r: Option<u64>)
        requires
            old(self).wf(),
            old(self).phase matches Phase::SlotWait { .. },
        ensures
            final(self).wf(),
            old(self).phase matches Phase::SlotWait { image } ==> final(self).phase == (
            Phase::Record { image }),
            r == old(self).fence_of(old(self).parity),
            final(self).fence_of(final(self).parity) is None,
            !final(self).in_flight_of(final(self).parity),
            final(self).fence_of(!final(self).parity) == old(self).fence_of(!old(self).parity),
            final(self).in_flight_of(!final(self).parity) == old(self).in_flight_of(
                !old(self).parity,
            ),
            final(self).parity == old(self).parity,
            final(self).recreate == old(self).recreate,
    {
        let image = match self.phase {
            Phase::SlotWait { image } => image,
            _ => 0,
        };
        self.phase = Phase::Record { image };
        if self.parity {
            let r = self.fence_b;
            self.fence_b = None;
            self.in_flight_b = false;
            r
        } else {
            let r = self.fence_a;
            self.fence_a = None;
            self.in_flight_a = false;
            r
        }
    }

    /// Which slot's command pool may now be reset and recorded into. The
    /// slot is guaranteed idle: its previous fence was handed out for
    /// waiting before the pacer reached this phase.
    pub fn record_slot(&self) -> (r: bool)
        requires
            self.wf(),
            self.phase matches Phase::Record { .. },
        ensures
            r == self.parity,
            !self.in_flight_of(self.parity),
    {
        self.parity
    }

    /// Record that the frame was submitted, with `fence` signaled by the
    /// submission: the fence is stored in the current slot, which counts as
    /// in flight until that fence is handed out for waiting.
    pub fn on_submit(&mut self, fence: u64)
        requires
            old(self).wf(),
            old(self).phase matches Phase::Record { .. },
        ensures
            final(self).wf(),
            old(self).phase matches Phase::Record { image } ==> final(self).phase == (
            Phase::Present { image }),
            final(self).fence_of(final(self).parity) == Some(fence),
            final(self).in_flight_of(final(self).parity),
            final(self).fence_of(!final(self).parity) == old(self).fence_of(!old(self).parity),
            final(self).in_flight_of(!final(self).parity) == old(self).in_flight_of(
                !old(self).parity,
            ),
            final(self).parity == old(self).parity,
            final(self).recreate == old(self).recreate,
    {
        let image = match self.phase {
            Phase::Record { image } => image,
            _ => 0,
        };
        self.phase = Phase::Present { image };
        if self.parity {
            self.fence_b = Some(fence);
            self.in_flight_b = true;
        } else {
            self.fence_a = Some(fence);
            self.in_flight_a = true;
        }
    }

    /// React to the driver's presentation report and end the frame: an
    /// out-of-date or suboptimal surface defers a rebuild to the next call,
    /// never an error, and the slot parity toggles.
    pub fn on_present(&mut self, res: PresentResult)
        requires
            old(self).wf(),
            old(self).phase matches Phase::Present { .. },
        ensures
            final(self).wf(),
            final(self).phase == Phase::Idle,
            final(self).parity == !old(self).parity,
            final(self).recreate == (old(self).recreate || res == PresentResult::OutOfDate || res
                == (PresentResult::Presented { suboptimal: true })),
            final(self).fence_a == old(self).fence_a,
            final(self).fence_b == old(self).fence_b,
            final(self).in_flight_a == old(self).in_flight_a,
            final(self).in_flight_b == old(self).in_flight_b,
    {
        match res {
            PresentResult::OutOfDate => {
                self.recreate = true;
            },
            PresentResult::Presented { suboptimal } => {
                if suboptimal {
                    self.recreate = true;
                }
            },
        }
        self.parity = !self.parity;
        self.phase = Phase::Idle;
    }
}

/// A frame slot's command pool is never reset while its GPU work may still
/// be in flight: recording — which begins by resetting the slot's pool — is
/// reachable only with the current slot idle, and the only step that marks a
/// slot idle is the one that hands its stored fence out for waiting.
pub proof fn lemma_pool_reset_safe(p: FramePacer)
    requires
        p.wf(),
        p.phase matches Phase::Record { .. },
    ensures
        !p.in_flight_of(p.parity),
{
}

/// The swap-chain is never rebuilt while the other frame slot's GPU work may
/// still be in flight: the rebuild phase is reachable only with the other
/// slot idle, and the only step that marks it idle is the one that hands its
/// stored fence out for waiting.
pub proof fn lemma_rebuild_waits_other_slot(p: FramePacer)
    requires
        p.wf(),
        p.phase == Phase::RebuildDo,
    ensures
        !p.in_flight_of(!p.parity),
{
}

} // verus!
