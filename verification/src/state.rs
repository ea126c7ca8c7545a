//! The state of one listener.

use crate::task::Task;
use vstd::prelude::*;

verus! {

/// The state of a listener.
#[derive(Debug)]
pub enum State {
    /// The listener was just created.
    Created,
    /// The listener has received a notification. The flag says whether it
    /// came from an additional notification.
    Notified(bool),
    /// A task is waiting for the notification.
    Task(Task),
    /// The notification has been seen by the listener's owner.
    NotifiedTaken,
}

impl State {
    /// A listener is notified once a notification has reached it, seen or not.
    pub open spec fn notified(self) -> bool {
        self is Notified || self is NotifiedTaken
    }

    /// Whether the listener has been notified.
    pub fn is_notified(&self) -> (r: bool)
        ensures
            r == self.notified(),
    {
        match self {
            State::Notified(_) | State::NotifiedTaken => true,
            _ => false,
        }
    }

    /// Compares two states. Two waiting states are equal if their tasks are,
    /// which only `Task::will_wake` can tell; every other pair is decided by
    /// the variants and their flags.
    pub fn same(&self, other: &State) -> (r: bool)
        ensures
            !(self is Task && other is Task) ==> r == (*self == *other),
    {
        match (self, other) {
            (State::Created, State::Created) => true,
            (State::Notified(a), State::Notified(b)) => *a == *b,
            (State::Task(a), State::Task(b)) => a.will_wake(b),
            (State::NotifiedTaken, State::NotifiedTaken) => true,
            _ => false,
        }
    }
}

impl PartialEq for State {
    fn eq(&self, other: &Self) -> (r: bool) {
        self.same(other)
    }
}

/// Equality of states goes through the equality of tasks.
impl vstd::std_specs::cmp::PartialEqSpecImpl for State {
    open spec fn obeys_eq_spec() -> bool {
        false
    }

    open spec fn eq_spec(&self, other: &Self) -> bool {
        *self == *other
    }
}

} // verus!
