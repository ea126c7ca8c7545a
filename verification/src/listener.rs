//! The handle that a caller holds for its listener.

use vstd::prelude::*;

verus! {

/// The ticket of a listener whose insertion is still in the intake queue.
/// The record behind it says whether the listener has got its key, and
/// keeps a task that was registered in the meantime.
#[derive(Debug, Clone, Copy, PartialEq, Eq, Structural)]
pub struct TaskWaiting {
    /// The number of the record.
    pub ticket: usize,
}

/// A caller's handle for its listener.
#[derive(Debug, PartialEq, Eq, Structural)]
pub enum Listener {
    /// The listener has a slot in the slab, under this key.
    HasNode(usize),
    /// The listener's insertion is in the intake queue.
    Queued(TaskWaiting),
}

} // verus!
