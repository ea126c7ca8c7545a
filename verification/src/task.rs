//! Handles of the tasks that wait for a notification.

use std::task::Waker;
use vstd::prelude::*;

verus! {

/// `std::task::Waker`, carried through as an opaque value.
#[verifier::external_type_specification]
#[verifier::external_body]
pub struct ExWaker(std::task::Waker);

/// `Waker::wake` wakes the task behind the handle and consumes the handle.
/// What the task then does is outside this library, so nothing is stated.
pub assume_specification[ std::task::Waker::wake ](handle: std::task::Waker);

/// `Waker::will_wake` answers on a best-effort basis whether two handles wake
/// the same task. The answer rests on the handles' addresses, so nothing is
/// stated of it.
pub assume_specification[ std::task::Waker::will_wake ](
    handle: &std::task::Waker,
    other: &std::task::Waker,
) -> (same: bool);

/// A task to be woken when its listener is notified.
#[derive(Debug)]
pub enum Task {
    /// A waker that wakes up a future.
    Waker(Waker),
}

impl Task {
    /// Wakes the task.
    pub fn wake(self) {
        match self {
            Task::Waker(waker) => waker.wake(),
        }
    }

    /// Whether waking `self` is known to wake the same task as waking `other`.
    /// The answer is that of `Waker::will_wake`, which goes by the handles'
    /// addresses and may deny what is true, so nothing is promised of it;
    /// what is done with either answer is stated where the answer is used.
    pub fn will_wake(&self, other: &Task) -> (same: bool) {
        match (self, other) {
            (Task::Waker(a), Task::Waker(b)) => a.will_wake(b),
        }
    }
}

/// Wakes the tasks, first to last.
pub fn wake_all(tasks: Vec<Task>) {
    for task in tasks {
        task.wake();
    }
}

impl PartialEq for Task {
    fn eq(&self, other: &Self) -> (r: bool) {
        self.will_wake(other)
    }
}

/// Equality of tasks is `will_wake`, which has no mathematical counterpart.
impl vstd::std_specs::cmp::PartialEqSpecImpl for Task {
    open spec fn obeys_eq_spec() -> bool {
        false
    }

    open spec fn eq_spec(&self, other: &Self) -> bool {
        *self == *other
    }
}

} // verus!
