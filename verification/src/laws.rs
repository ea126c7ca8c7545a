//! What holds of every valid slab, whatever was done to it before.

use crate::entry::Entry;
use crate::model::{count_notified, lemma_position, tasks_in, SlabView};
use crate::refine::lemma_mark_wf;
use crate::state::State;
use vstd::prelude::*;

verus! {

/// The slab after listeners in the states `states` have joined, one after
/// the other.
pub open spec fn insert_all(v: SlabView, states: Seq<State>) -> SlabView
    decreases states.len(),
{
    if states.len() == 0 {
        v
    } else {
        insert_all(v, states.drop_last()).insert(states.last())
    }
}

/// The keys that those listeners were given, in the order in which they
/// joined.
pub open spec fn keys_given(v: SlabView, states: Seq<State>) -> Seq<usize>
    decreases states.len(),
{
    if states.len() == 0 {
        Seq::empty()
    } else {
        keys_given(v, states.drop_last()).push(
            insert_all(v, states.drop_last()).next_key() as usize,
        )
    }
}

/// The slab after `times` plain notifications of `n`.
pub open spec fn notify_times(v: SlabView, n: nat, times: nat) -> SlabView
    decreases times,
{
    if times == 0 {
        v
    } else {
        notify_times(v, n, (times - 1) as nat).notify(n, false)
    }
}

/// The slot that is reached from the first hole by following `steps` links
/// of the free list.
pub open spec fn hole_after(v: SlabView, steps: nat) -> nat
    decreases steps,
{
    if steps == 0 {
        v.next_key()
    } else {
        match v.entry(hole_after(v, (steps - 1) as nat) as int) {
            Entry::Empty(next) => next as nat,
            _ => 0,
        }
    }
}

/// The listener that is reached from the oldest one by following `steps`
/// links to the junior, if the list is that long.
pub open spec fn listener_after(v: SlabView, steps: nat) -> Option<usize>
    decreases steps,
{
    if steps == 0 {
        v.head()
    } else {
        match listener_after(v, (steps - 1) as nat) {
            Some(key) => match v.entry(key as int) {
                Entry::Listener { next, .. } => next,
                _ => None,
            },
            None => None,
        }
    }
}

/// The smaller of two numbers.
pub open spec fn least(a: int, b: int) -> int {
    if a <= b {
        a
    } else {
        b
    }
}

/// Listeners that join one after the other stand behind those that were
/// there, in the order in which they joined, and a slab stays valid.
pub proof fn law_insertion_order(v: SlabView, states: Seq<State>)
    requires
        v.wf(),
        forall|i: int| 0 <= i < states.len() ==> !(#[trigger] states[i]).notified(),
        v.slots + states.len() <= usize::MAX,
    ensures
        insert_all(v, states).wf(),
        insert_all(v, states).keys == v.keys + keys_given(v, states),
        insert_all(v, states).states == v.states + states,
        insert_all(v, states).notified == v.notified,
        insert_all(v, states).slots <= v.slots + states.len(),
    decreases states.len(),
{
    if states.len() > 0 {
        law_insertion_order(v, states.drop_last());
    }
}

/// After any listeners have joined, a plain notification of at least as many
/// as there are listeners leaves every one of them notified, and wakes the
/// tasks that waited, in the order in which their listeners joined.
pub proof fn law_notify_reaches_all(v: SlabView, states: Seq<State>, m: nat)
    requires
        v.wf(),
        forall|i: int| 0 <= i < states.len() ==> !(#[trigger] states[i]).notified(),
        v.slots + states.len() <= usize::MAX,
        m >= v.len() + states.len(),
    ensures
        ({
            let joined = insert_all(v, states);
            let after = joined.notify(m, false);
            &&& after.wf()
            &&& after.keys == v.keys + keys_given(v, states)
            &&& after.notified == after.len()
            &&& forall|p: int| 0 <= p < after.len() ==> (#[trigger] after.states[p]).notified()
            &&& forall|p: int|
                v.notified <= p < after.len() ==> #[trigger] after.states[p] == State::Notified(
                    false,
                )
            &&& joined.woken(m, false) == tasks_in(
                v.states + states,
                v.notified as int,
                (v.len() + states.len()) as int,
            )
        }),
{
    law_insertion_order(v, states);
}

/// A plain notification of `n` leaves as many listeners notified as the
/// larger of what there was and what `n` asks for, the latter never more
/// than there are listeners.
pub proof fn law_notify_count(v: SlabView, n: nat)
    requires
        v.wf(),
    ensures
        v.notify(n, false).wf(),
        v.notify(n, false).notified == if v.notified >= least(n as int, v.len() as int) {
            v.notified as int
        } else {
            least(n as int, v.len() as int)
        },
{
}

/// To repeat a plain notification of `n` changes nothing: where no more
/// than `n` listeners were notified before, the smaller of `n` and the number
/// of listeners are notified after one such notification, and after any
/// number of them.
pub proof fn law_notify_repeated(v: SlabView, n: nat, times: nat)
    requires
        v.wf(),
        v.notified <= n,
        times >= 1,
    ensures
        notify_times(v, n, times) == v.notify(n, false),
        notify_times(v, n, times).notified == least(n as int, v.len() as int),
    decreases times,
{
    if times == 1 {
        assert(notify_times(v, n, 0) == v);
    } else {
        law_notify_repeated(v, n, (times - 1) as nat);
        lemma_mark_wf(v.notify(n, false), 0, false);
    }
}

/// An additional notification of `k` raises the number of notified
/// listeners by `k`, or by the number of listeners that were not notified if
/// that is less.
pub proof fn law_additional_count(v: SlabView, k: nat)
    requires
        v.wf(),
    ensures
        v.notify(k, true).wf(),
        v.notify(k, true).notified == v.notified + least(k as int, v.len() - v.notified),
{
}

/// When a listener leaves with a notification that it has not taken, and
/// the notification is passed on, the number of notified listeners stays as
/// it was if a listener is left that was not notified, and falls by one if
/// none is. This is stated of an additional notification, and of a plain one
/// held by the only notified listener: a plain notification is not passed on
/// while another listener is still notified.
pub proof fn law_propagation(v: SlabView, key: usize)
    requires
        v.wf(),
        v.contains(key),
        v.state(key) is Notified,
        v.state(key)->Notified_0 || v.notified == 1,
    ensures
        v.remove(key, true).wf(),
        v.notified < v.len() ==> v.remove(key, true).notified == v.notified,
        v.notified == v.len() ==> v.remove(key, true).notified == v.notified - 1,
{
    assert(v.states[v.position(key)].notified());
}

/// A listener that joins and leaves again, without a notification in
/// between, leaves the list of listeners, their states and the number of
/// notified ones as they were. Its slot is the first hole again.
pub proof fn law_round_trip(v: SlabView)
    requires
        v.wf(),
        v.insert(State::Created).slots <= usize::MAX,
    ensures
        ({
            let key = v.next_key() as usize;
            let joined = v.insert(State::Created);
            let back = joined.remove(key, false);
            &&& joined.contains(key)
            &&& joined.state(key) == State::Created
            &&& back.wf()
            &&& back.keys == v.keys
            &&& back.states == v.states
            &&& back.notified == v.notified
            &&& back.head() == v.head()
            &&& back.tail() == v.tail()
            &&& back.start() == v.start()
            &&& back.next_key() == key
            &&& back.free.len() + back.len() + 1 == back.slots
        }),
{
    lemma_position(v.insert(State::Created), v.keys.len() as int);
}

/// The free list, followed from the first hole, visits the holes one by
/// one and ends at the number of slots. There are as many holes as there are
/// slots that hold neither the sentinel nor a listener.
pub proof fn law_free_list(v: SlabView, steps: nat)
    requires
        v.wf(),
        steps <= v.free.len(),
    ensures
        v.free.len() == v.slots - 1 - v.len(),
        steps < v.free.len() ==> hole_after(v, steps) == v.free[steps as int],
        steps == v.free.len() ==> hole_after(v, steps) == v.slots,
    decreases steps,
{
    if steps > 0 {
        law_free_list(v, (steps - 1) as nat);
    }
}

/// The links to the junior, followed from the oldest listener, visit the
/// listeners in the order in which they joined and end behind the youngest.
/// The link that each holds to its elder leads one step back. An empty list
/// has neither an oldest nor a youngest listener.
pub proof fn law_chain(v: SlabView, steps: nat)
    requires
        v.wf(),
        steps <= v.len(),
    ensures
        steps < v.len() ==> listener_after(v, steps) == Some(v.keys[steps as int]),
        steps == v.len() ==> listener_after(v, steps) == None::<usize>,
        0 < steps < v.len() ==> v.entry(v.keys[steps as int] as int)->prev == Some(
            v.keys[steps - 1],
        ),
        steps + 1 == v.len() ==> v.tail() == Some(v.keys[steps as int]),
        (v.head() is None) == (v.len() == 0),
        (v.tail() is None) == (v.len() == 0),
        v.entry(0) is Sentinel,
    decreases steps,
{
    if steps > 0 {
        law_chain(v, (steps - 1) as nat);
    }
}

/// A listener that is found notified when a task is registered for it
/// leaves the slab, and one notified listener less is counted.
pub proof fn law_consumed(v: SlabView, key: usize)
    requires
        v.wf(),
        v.contains(key),
        v.state(key).notified(),
    ensures
        v.unlink(key).wf(),
        v.unlink(key).notified == v.notified - 1,
        v.unlink(key).len() == v.len() - 1,
        !v.unlink(key).contains(key),
{
}

/// The number of notified listeners is the number of listeners whose state
/// is a notified one, and they are the oldest.
pub proof fn law_notified_count(v: SlabView)
    requires
        v.wf(),
    ensures
        count_notified(v.states) == v.notified,
        forall|p: int| 0 <= p < v.len() ==> ((#[trigger] v.states[p]).notified() <==> p < v.notified),
{
    lemma_count(v.states, v.notified);
}

/// Where the notified states of a sequence are its first `k`, there are `k`.
proof fn lemma_count(states: Seq<State>, k: nat)
    requires
        k <= states.len(),
        forall|p: int| 0 <= p < states.len() ==> ((#[trigger] states[p]).notified() <==> p < k),
    ensures
        count_notified(states) == k,
    decreases states.len(),
{
    if states.len() > 0 {
        lemma_count(states.drop_last(), least(k as int, states.len() - 1) as nat);
    }
}

} // verus!
