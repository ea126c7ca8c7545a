//! The mathematical model of the slab: which listeners it holds, in which
//! order, in which states, and which holes it will fill next.

use crate::entry::Entry;
use crate::state::State;
use crate::task::Task;
use vstd::prelude::*;
use vstd::set_lib::{lemma_int_range, lemma_subset_equality, set_int_range};

verus! {

/// What a slab holds.
pub struct SlabView {
    /// The number of slots, the sentinel's included.
    pub slots: nat,
    /// The keys of the listeners, oldest first.
    pub keys: Seq<usize>,
    /// The states of the listeners, in the order of `keys`.
    pub states: Seq<State>,
    /// The keys of the holes, the one to be filled next first.
    pub free: Seq<usize>,
    /// The number of notified listeners.
    pub notified: nat,
}

/// The tasks waiting in `states[from..to]`, in order.
pub open spec fn tasks_in(states: Seq<State>, from: int, to: int) -> Seq<Task>
    decreases to - from,
{
    if from >= to {
        Seq::empty()
    } else {
        let before = tasks_in(states, from, to - 1);
        match states[to - 1] {
            State::Task(task) => before.push(task),
            _ => before,
        }
    }
}

/// The number of notified states in `states`.
pub open spec fn count_notified(states: Seq<State>) -> nat
    decreases states.len(),
{
    if states.len() == 0 {
        0
    } else {
        count_notified(states.drop_last()) + (if states.last().notified() {
            1nat
        } else {
            0nat
        })
    }
}

impl SlabView {
    /// The slab without listeners and without holes.
    pub open spec fn empty() -> SlabView {
        SlabView {
            slots: 1,
            keys: Seq::empty(),
            states: Seq::empty(),
            free: Seq::empty(),
            notified: 0,
        }
    }

    /// Every slot but the sentinel's holds either a listener or a hole, each
    /// key once, and the notified listeners are exactly the oldest ones.
    pub open spec fn wf(self) -> bool {
        &&& self.keys.len() == self.states.len()
        &&& self.keys.len() + self.free.len() + 1 == self.slots
        &&& self.slots <= usize::MAX
        &&& self.keys.no_duplicates()
        &&& self.free.no_duplicates()
        &&& forall|p: int| 0 <= p < self.keys.len() ==> 1 <= #[trigger] self.keys[p] < self.slots
        &&& forall|q: int| 0 <= q < self.free.len() ==> 1 <= #[trigger] self.free[q] < self.slots
        &&& forall|p: int, q: int|
            0 <= p < self.keys.len() && 0 <= q < self.free.len() ==> #[trigger] self.keys[p]
                != #[trigger] self.free[q]
        &&& self.notified <= self.keys.len()
        &&& forall|p: int|
            0 <= p < self.states.len() ==> (#[trigger] self.states[p].notified() <==> p
                < self.notified)
    }

    /// The number of listeners.
    pub open spec fn len(self) -> nat {
        self.keys.len()
    }

    /// Whether `key` is the key of a listener.
    pub open spec fn contains(self, key: usize) -> bool {
        self.keys.contains(key)
    }

    /// How many listeners are older than the one with this key.
    pub open spec fn position(self, key: usize) -> int {
        choose|p: int| 0 <= p < self.keys.len() && self.keys[p] == key
    }

    /// The state of the listener with this key.
    pub open spec fn state(self, key: usize) -> State {
        self.states[self.position(key)]
    }

    /// The key that the next listener gets: the first hole, or a new slot.
    pub open spec fn next_key(self) -> nat {
        if self.free.len() > 0 {
            self.free[0] as nat
        } else {
            self.slots
        }
    }

    /// The oldest listener.
    pub open spec fn head(self) -> Option<usize> {
        if self.keys.len() > 0 {
            Some(self.keys[0])
        } else {
            None
        }
    }

    /// The youngest listener.
    pub open spec fn tail(self) -> Option<usize> {
        if self.keys.len() > 0 {
            Some(self.keys[self.keys.len() - 1])
        } else {
            None
        }
    }

    /// The oldest listener that has not been notified.
    pub open spec fn start(self) -> Option<usize> {
        if self.notified < self.keys.len() {
            Some(self.keys[self.notified as int])
        } else {
            None
        }
    }

    /// The number that is published for the slab: how many listeners are
    /// notified, or `usize::MAX` if none is left that is not.
    pub open spec fn published(self) -> usize {
        if self.notified < self.keys.len() {
            self.notified as usize
        } else {
            usize::MAX
        }
    }

    /// The link that the listener at position `p` holds to its elder.
    pub open spec fn prev_at(self, p: int) -> Option<usize> {
        if p > 0 {
            Some(self.keys[p - 1])
        } else {
            None
        }
    }

    /// The link that the listener at position `p` holds to its junior.
    pub open spec fn next_at(self, p: int) -> Option<usize> {
        if p + 1 < self.keys.len() {
            Some(self.keys[p + 1])
        } else {
            None
        }
    }

    /// The link that the hole at position `q` of the free list holds.
    pub open spec fn link_at(self, q: int) -> nat {
        if q + 1 < self.free.len() {
            self.free[q + 1] as nat
        } else {
            self.slots
        }
    }

    /// What slot `i` holds.
    pub open spec fn entry(self, i: int) -> Entry {
        if i == 0 {
            Entry::Sentinel
        } else if self.keys.contains(i as usize) {
            let p = self.position(i as usize);
            Entry::Listener { state: self.states[p], prev: self.prev_at(p), next: self.next_at(p) }
        } else {
            let q = choose|q: int| 0 <= q < self.free.len() && self.free[q] == i;
            Entry::Empty(self.link_at(q) as usize)
        }
    }

    /// The slab after a listener in state `state` has joined.
    pub open spec fn insert(self, state: State) -> SlabView {
        SlabView {
            slots: if self.free.len() > 0 {
                self.slots
            } else {
                self.slots + 1
            },
            keys: self.keys.push(self.next_key() as usize),
            states: self.states.push(state),
            free: if self.free.len() > 0 {
                self.free.drop_first()
            } else {
                self.free
            },
            notified: self.notified,
        }
    }

    /// The slab after the listener with this key has left, its slot now the
    /// first hole.
    pub open spec fn unlink(self, key: usize) -> SlabView {
        let p = self.position(key);
        SlabView {
            slots: self.slots,
            keys: self.keys.remove(p),
            states: self.states.remove(p),
            free: seq![key] + self.free,
            notified: if p < self.notified {
                (self.notified - 1) as nat
            } else {
                self.notified
            },
        }
    }

    /// How many listeners a notification of `n` reaches: an additional one
    /// asks for `n` more, a plain one for `n` in all, and neither can reach
    /// more than are left.
    pub open spec fn reach(self, n: nat, additional: bool) -> nat {
        let wanted = if additional {
            n
        } else if n <= self.notified {
            0
        } else {
            (n - self.notified) as nat
        };
        let left = (self.keys.len() - self.notified) as nat;
        if wanted <= left {
            wanted
        } else {
            left
        }
    }

    /// The slab after the `count` oldest listeners that were not notified yet
    /// have been notified.
    pub open spec fn mark(self, count: nat, additional: bool) -> SlabView {
        let upto = self.notified + count;
        SlabView {
            slots: self.slots,
            keys: self.keys,
            states: Seq::new(
                self.states.len(),
                |p: int|
                    if self.notified <= p < upto {
                        State::Notified(additional)
                    } else {
                        self.states[p]
                    },
            ),
            free: self.free,
            notified: upto,
        }
    }

    /// The slab after a notification of `n`: the listeners it reaches are the
    /// oldest that were not notified yet.
    pub open spec fn notify(self, n: nat, additional: bool) -> SlabView {
        self.mark(self.reach(n, additional), additional)
    }

    /// The tasks that a notification of `n` wakes, oldest listener first.
    pub open spec fn woken(self, n: nat, additional: bool) -> Seq<Task> {
        tasks_in(
            self.states,
            self.notified as int,
            (self.notified + self.reach(n, additional)) as int,
        )
    }

    /// Whether the removal of this listener passes its notification on.
    pub open spec fn passes_on(self, key: usize, propagate: bool) -> bool {
        propagate && self.state(key) is Notified
    }

    /// The slab after the listener with this key has been removed. A
    /// listener that leaves with a notification it has not taken passes it
    /// on, if asked to.
    pub open spec fn remove(self, key: usize, propagate: bool) -> SlabView {
        if self.passes_on(key, propagate) {
            self.unlink(key).notify(1, self.state(key)->Notified_0)
        } else {
            self.unlink(key)
        }
    }

    /// The tasks that the removal of this listener wakes.
    pub open spec fn woken_by_remove(self, key: usize, propagate: bool) -> Seq<Task> {
        if self.passes_on(key, propagate) {
            self.unlink(key).woken(1, self.state(key)->Notified_0)
        } else {
            Seq::empty()
        }
    }

    /// The slab after `task` has been registered for the listener with this
    /// key, where `same` says whether the listener already waits with a task
    /// that wakes the same one: then it keeps the task it has.
    pub open spec fn registered(self, key: usize, task: Task, same: bool) -> SlabView {
        if self.state(key) is Task && same {
            self
        } else {
            self.set_state(key, State::Task(task))
        }
    }

    /// The slab with the state of one listener replaced.
    pub open spec fn set_state(self, key: usize, state: State) -> SlabView {
        SlabView { states: self.states.update(self.position(key), state), ..self }
    }
}

/// Slot `v.keys[p]` holds the listener at position `p`.
pub open spec fn holds_listener(slots: Seq<Entry>, v: SlabView, p: int) -> bool {
    slots[v.keys[p] as int] == Entry::Listener {
        state: v.states[p],
        prev: v.prev_at(p),
        next: v.next_at(p),
    }
}

/// Slot `v.free[q]` holds the hole at position `q` of the free list.
pub open spec fn holds_hole(slots: Seq<Entry>, v: SlabView, q: int) -> bool {
    slots[v.free[q] as int] == Entry::Empty(v.link_at(q) as usize)
}

/// The slots hold what the view says: the sentinel in slot zero, each
/// listener linked to its neighbours, each hole linked to the next.
pub open spec fn linked(slots: Seq<Entry>, v: SlabView) -> bool {
    &&& slots.len() == v.slots
    &&& slots[0] is Sentinel
    &&& forall|p: int| 0 <= p < v.keys.len() ==> #[trigger] holds_listener(slots, v, p)
    &&& forall|q: int| 0 <= q < v.free.len() ==> #[trigger] holds_hole(slots, v, q)
}

/// In a valid slab a key names one position.
pub proof fn lemma_position(v: SlabView, p: int)
    requires
        v.wf(),
        0 <= p < v.keys.len(),
    ensures
        v.contains(v.keys[p]),
        v.position(v.keys[p]) == p,
{
}

/// In a valid slab every slot but the sentinel's is a listener's or a hole.
pub proof fn lemma_covered(v: SlabView, i: int)
    requires
        v.wf(),
        1 <= i < v.slots,
    ensures
        v.keys.contains(i as usize) || v.free.contains(i as usize),
{
    let all = Seq::new(
        (v.slots - 1) as nat,
        |j: int|
            if j < v.keys.len() {
                v.keys[j] as int
            } else {
                v.free[j - v.keys.len()] as int
            },
    );
    assert forall|a: int, b: int| 0 <= a < all.len() && 0 <= b < all.len() && a != b implies all[a]
        != all[b] by {
    }
    all.unique_seq_to_set();
    let range = set_int_range(1, v.slots as int);
    lemma_int_range(1, v.slots as int);
    assert forall|k: int| all.to_set().contains(k) implies range.contains(k) by {
    }
    lemma_subset_equality(all.to_set(), range);
    assert(all.to_set().contains(i));
}

/// What the view says of a slot is what the slot holds.
pub proof fn lemma_entry(slots: Seq<Entry>, v: SlabView, i: int)
    requires
        v.wf(),
        linked(slots, v),
        0 <= i < v.slots,
    ensures
        slots[i] == v.entry(i),
{
    if i == 0 {
    } else if v.keys.contains(i as usize) {
        assert(holds_listener(slots, v, v.position(i as usize)));
    } else {
        lemma_covered(v, i);
        let q = choose|q: int| 0 <= q < v.free.len() && v.free[q] == i;
        assert(holds_hole(slots, v, q));
    }
}

} // verus!
