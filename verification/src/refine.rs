//! Each change to the slots keeps them in step with the model.

use crate::entry::Entry;
use crate::model::{holds_hole, holds_listener, linked, SlabView};
use crate::state::State;
use vstd::prelude::*;

verus! {

/// A slab stays valid when a listener that is not notified joins.
pub proof fn lemma_insert_wf(v: SlabView, state: State)
    requires
        v.wf(),
        !state.notified(),
        v.insert(state).slots <= usize::MAX,
    ensures
        v.insert(state).wf(),
        !v.contains(v.next_key() as usize),
{
}

/// Writing the new listener into the slot of the next key, and its key into
/// the link of the listener that was youngest, gives the slots of the slab
/// with the listener inserted.
pub proof fn lemma_insert(slots: Seq<Entry>, after: Seq<Entry>, v: SlabView, state: State)
    requires
        v.wf(),
        linked(slots, v),
        !state.notified(),
        after.len() == v.insert(state).slots,
        after.len() <= usize::MAX,
        forall|i: int|
            0 <= i < slots.len() && i != v.next_key() && Some(i as usize) != v.tail()
                ==> #[trigger] after[i] == slots[i],
        after[v.next_key() as int] == (Entry::Listener { state, prev: v.tail(), next: None }),
        v.tail() matches Some(t) ==> after[t as int] == (Entry::Listener {
            state: slots[t as int]->state,
            prev: slots[t as int]->prev,
            next: Some(v.next_key() as usize),
        }),
    ensures
        v.insert(state).wf(),
        linked(after, v.insert(state)),
{
    let w = v.insert(state);
    lemma_insert_wf(v, state);
    assert forall|p: int| 0 <= p < w.keys.len() implies #[trigger] holds_listener(after, w, p) by {
        if p < v.keys.len() {
            assert(holds_listener(slots, v, p));
        }
    }
    assert forall|q: int| 0 <= q < w.free.len() implies #[trigger] holds_hole(after, w, q) by {
        assert(holds_hole(slots, v, q + 1));
    }
}

/// A slab stays valid when a listener leaves.
pub proof fn lemma_unlink_wf(v: SlabView, key: usize)
    requires
        v.wf(),
        v.contains(key),
    ensures
        v.unlink(key).wf(),
        0 <= v.position(key) < v.keys.len(),
        v.keys[v.position(key)] == key,
        forall|i: int|
            0 <= i < v.unlink(key).keys.len() ==> #[trigger] v.unlink(key).keys[i] == v.keys[if i
                < v.position(key) {
                i
            } else {
                i + 1
            }],
{
    let w = v.unlink(key);
    assert forall|i: int, j: int| 0 <= i < w.keys.len() && 0 <= j < w.keys.len() && i != j implies
        w.keys[i] != w.keys[j] by {
    }
    assert forall|i: int, q: int| 0 <= i < w.keys.len() && 0 <= q < w.free.len() implies #[trigger]
        w.keys[i] != #[trigger] w.free[q] by {
    }
}

/// Joining the neighbours of a listener to each other, and turning its slot
/// into the first hole, gives the slots of the slab with the listener
/// unlinked.
pub proof fn lemma_unlink(slots: Seq<Entry>, after: Seq<Entry>, v: SlabView, key: usize)
    requires
        v.wf(),
        linked(slots, v),
        v.contains(key),
        after.len() == slots.len(),
        after[key as int] == Entry::Empty(v.next_key() as usize),
        forall|i: int|
            0 <= i < slots.len() && i != key && Some(i as usize) != v.prev_at(v.position(key))
                && Some(i as usize) != v.next_at(v.position(key)) ==> #[trigger] after[i]
                == slots[i],
        v.prev_at(v.position(key)) matches Some(a) ==> after[a as int] == (Entry::Listener {
            state: slots[a as int]->state,
            prev: slots[a as int]->prev,
            next: v.next_at(v.position(key)),
        }),
        v.next_at(v.position(key)) matches Some(b) ==> after[b as int] == (Entry::Listener {
            state: slots[b as int]->state,
            prev: v.prev_at(v.position(key)),
            next: slots[b as int]->next,
        }),
    ensures
        v.unlink(key).wf(),
        linked(after, v.unlink(key)),
{
    let w = v.unlink(key);
    let p = v.position(key);
    lemma_unlink_wf(v, key);
    assert forall|i: int| 0 <= i < w.keys.len() implies #[trigger] holds_listener(after, w, i) by {
        let a = if i < p { i } else { i + 1 };
        assert(holds_listener(slots, v, a));
    }
    assert forall|q: int| 0 <= q < w.free.len() implies #[trigger] holds_hole(after, w, q) by {
        if q > 0 {
            assert(holds_hole(slots, v, q - 1));
        }
    }
}

/// Replacing the state in the slot of a listener gives the slots of a slab
/// that differs in that state alone.
pub proof fn lemma_restate(
    slots: Seq<Entry>,
    after: Seq<Entry>,
    v: SlabView,
    w: SlabView,
    key: usize,
    state: State,
)
    requires
        v.wf(),
        linked(slots, v),
        v.contains(key),
        after == slots.update(
            key as int,
            Entry::Listener {
                state,
                prev: slots[key as int]->prev,
                next: slots[key as int]->next,
            },
        ),
        w.slots == v.slots,
        w.keys == v.keys,
        w.free == v.free,
        w.states == v.states.update(v.position(key), state),
    ensures
        linked(after, w),
{
    assert forall|i: int| 0 <= i < w.keys.len() implies #[trigger] holds_listener(after, w, i) by {
        assert(holds_listener(slots, v, i));
    }
    assert forall|q: int| 0 <= q < w.free.len() implies #[trigger] holds_hole(after, w, q) by {
        assert(holds_hole(slots, v, q));
    }
}

/// Notifying listeners one after the other is notifying them together.
pub proof fn lemma_mark_more(v: SlabView, count: nat, additional: bool)
    requires
        v.wf(),
        v.notified + count < v.keys.len(),
    ensures
        v.mark(count, additional).mark(1, additional) == v.mark(count + 1, additional),
        v.mark(count + 1, additional).states == v.mark(count, additional).states.update(
            (v.notified + count) as int,
            State::Notified(additional),
        ),
        v.mark(count, additional).states[(v.notified + count) as int] == v.states[(v.notified
            + count) as int],
{
    let one = v.mark(count, additional);
    assert(one.mark(1, additional).states =~= v.mark(count + 1, additional).states);
    assert(v.mark(count + 1, additional).states =~= one.states.update(
        (v.notified + count) as int,
        State::Notified(additional),
    ));
}

/// Notifying the oldest listeners that were not notified yet keeps the slab
/// valid.
pub proof fn lemma_mark_wf(v: SlabView, count: nat, additional: bool)
    requires
        v.wf(),
        v.notified + count <= v.keys.len(),
    ensures
        v.mark(count, additional).wf(),
        v.mark(0, additional) == v,
{
    assert(v.mark(0, additional).states =~= v.states);
}

} // verus!
