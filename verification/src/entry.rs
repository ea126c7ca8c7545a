//! One slot of the slab.

use crate::state::State;
use vstd::prelude::*;

verus! {

/// One slot of the slab. A slot's index is its key; keys are never zero,
/// because slot zero holds the sentinel.
#[derive(Debug)]
pub enum Entry {
    /// A listener, with its neighbours in the list of listeners.
    Listener {
        /// The state of the listener.
        state: State,
        /// The listener inserted just before this one, if any is left.
        prev: Option<usize>,
        /// The listener inserted just after this one, if any is left.
        next: Option<usize>,
    },
    /// A hole. It holds the key of the next hole, or the number of slots if
    /// it is the last one.
    Empty(usize),
    /// The occupant of slot zero.
    Sentinel,
}

impl Entry {
    /// The state of a listener.
    pub fn state(&self) -> (state: &State)
        requires
            self is Listener,
        ensures
            *state == self->state,
    {
        match self {
            Entry::Listener { state, .. } => state,
            _ => vstd::pervasive::unreached(),
        }
    }

    /// The key of the listener before this one.
    pub fn prev(&self) -> (prev: Option<usize>)
        requires
            self is Listener,
        ensures
            prev == self->prev,
    {
        match self {
            Entry::Listener { prev, .. } => *prev,
            _ => vstd::pervasive::unreached(),
        }
    }

    /// The key of the listener after this one.
    pub fn next(&self) -> (next: Option<usize>)
        requires
            self is Listener,
        ensures
            next == self->next,
    {
        match self {
            Entry::Listener { next, .. } => *next,
            _ => vstd::pervasive::unreached(),
        }
    }

    /// Whether both entries are listeners with a task waiting. Only then
    /// does their comparison depend on `Task::will_wake`.
    pub open spec fn both_waiting(self, other: Entry) -> bool {
        &&& self is Listener
        &&& other is Listener
        &&& self->state is Task
        &&& other->state is Task
    }

    /// Compares two entries field by field.
    pub fn same(&self, other: &Entry) -> (r: bool)
        ensures
            !self.both_waiting(*other) ==> r == (*self == *other),
            self.both_waiting(*other) && r ==> self->prev == other->prev && self->next
                == other->next,
            self.both_waiting(*other) && !(self->prev == other->prev && self->next == other->next)
                ==> !r,
    {
        match (self, other) {
            (
                Entry::Listener { state: state1, prev: prev1, next: next1 },
                Entry::Listener { state: state2, prev: prev2, next: next2 },
            ) => {
                if !state1.same(state2) {
                    return false;
                }
                *prev1 == *prev2 && *next1 == *next2
            },
            (Entry::Empty(next1), Entry::Empty(next2)) => *next1 == *next2,
            (Entry::Sentinel, Entry::Sentinel) => true,
            _ => false,
        }
    }
}

impl PartialEq for Entry {
    fn eq(&self, other: &Self) -> (r: bool) {
        self.same(other)
    }
}

/// Equality of entries goes through the equality of tasks.
impl vstd::std_specs::cmp::PartialEqSpecImpl for Entry {
    open spec fn obeys_eq_spec() -> bool {
        false
    }

    open spec fn eq_spec(&self, other: &Self) -> bool {
        *self == *other
    }
}

} // verus!
