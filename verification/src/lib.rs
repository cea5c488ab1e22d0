//! A verified core for a low-level rendering layer.
//!
//! The crate models and verifies the parts of such a layer that are pure
//! logic: a rectangle-packing texture atlas, a composable completion-token
//! algebra for pending GPU work, descriptor-pool capacity accounting, the
//! double-buffered frame-pacing state machine, and the small decision
//! procedures used while setting a surface up (format, present mode, extent,
//! queue family). The driver calls themselves (submission, presentation,
//! window plumbing) live outside the library and are steered by the state
//! machines defined here.

use vstd::prelude::*;

pub mod atlas;
pub mod descriptor;
pub mod frame;
pub mod rect;
pub mod sched;
pub mod select;
pub mod token;
pub mod words;

verus! {

/// Uniform access to a value whether it is held directly or behind a
/// shared-ownership handle.
pub trait Owned<T> {
    fn inner(&self) -> &T;
}

impl<T> Owned<T> for T {
    fn inner(&self) -> &T {
        self
    }
}

impl<T> Owned<T> for std::sync::Arc<T> {
    fn inner(&self) -> &T {
        self
    }
}

} // verus!
