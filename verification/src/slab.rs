//! The slab of listeners.

use crate::entry::Entry;
use crate::listener::Listener;
use crate::model::{holds_hole, holds_listener, lemma_entry, linked, tasks_in, SlabView};
use crate::refine::{lemma_insert, lemma_mark_more, lemma_mark_wf, lemma_restate, lemma_unlink};
use crate::state::State;
use crate::task::{wake_all, Task};
use vstd::prelude::*;

verus! {

/// A list of listeners, oldest first, kept in a vector of slots.
pub struct ListenerSlab {
    /// The slots. Slot zero holds the sentinel.
    listeners: Vec<Entry>,
    /// The oldest listener.
    head: Option<usize>,
    /// The youngest listener.
    tail: Option<usize>,
    /// The oldest listener that has not been notified.
    start: Option<usize>,
    /// The number of notified listeners.
    notified: usize,
    /// The number of listeners.
    len: usize,
    /// The first hole, or the number of slots if there is none.
    first_empty: usize,
    /// What the slots hold.
    model: Ghost<SlabView>,
}

impl ListenerSlab {
    /// What the slab holds.
    pub closed spec fn view(&self) -> SlabView {
        self.model@
    }

    /// The slots hold what the view says, and the fields beside them agree
    /// with it.
    pub closed spec fn wf(&self) -> bool {
        let v = self.model@;
        &&& v.wf()
        &&& linked(self.listeners@, v)
        &&& self.len == v.len()
        &&& self.notified == v.notified
        &&& self.head == v.head()
        &&& self.tail == v.tail()
        &&& self.start == v.start()
        &&& self.first_empty == v.next_key()
    }

    /// The view of a valid slab is valid.
    pub proof fn lemma_view_wf(&self)
        requires
            self.wf(),
        ensures
            self@.wf(),
    {
    }

    /// Creates a slab without listeners.
    pub fn new() -> (slab: ListenerSlab)
        ensures
            slab.wf(),
            slab@ == SlabView::empty(),
    {
        let mut listeners = Vec::new();
        listeners.push(Entry::Sentinel);
        let slab = ListenerSlab {
            listeners,
            head: None,
            tail: None,
            start: None,
            notified: 0,
            len: 0,
            first_empty: 1,
            model: Ghost(SlabView::empty()),
        };
        slab
    }

    /// The number of listeners.
    pub fn len(&self) -> (len: usize)
        requires
            self.wf(),
        ensures
            len == self@.len(),
    {
        self.len
    }

    /// The number of notified listeners.
    pub fn notified(&self) -> (notified: usize)
        requires
            self.wf(),
        ensures
            notified == self@.notified,
    {
        self.notified
    }

    /// The oldest listener.
    pub fn head(&self) -> (head: Option<usize>)
        requires
            self.wf(),
        ensures
            head == self@.head(),
    {
        self.head
    }

    /// The youngest listener.
    pub fn tail(&self) -> (tail: Option<usize>)
        requires
            self.wf(),
        ensures
            tail == self@.tail(),
    {
        self.tail
    }

    /// The oldest listener that has not been notified.
    pub fn start(&self) -> (start: Option<usize>)
        requires
            self.wf(),
        ensures
            start == self@.start(),
    {
        self.start
    }

    /// The key that the next listener gets.
    pub fn first_empty(&self) -> (key: usize)
        requires
            self.wf(),
        ensures
            key == self@.next_key(),
    {
        self.first_empty
    }

    /// The number of slots, the sentinel's included.
    pub fn slots(&self) -> (slots: usize)
        requires
            self.wf(),
        ensures
            slots == self@.slots,
    {
        self.listeners.len()
    }

    /// The number to publish for the slab: how many listeners are notified,
    /// or `usize::MAX` if none is left that is not.
    pub fn published(&self) -> (count: usize)
        requires
            self.wf(),
        ensures
            count == self@.published(),
    {
        if self.notified < self.len {
            self.notified
        } else {
            usize::MAX
        }
    }

    /// What slot `index` holds.
    pub fn entry(&self, index: usize) -> (entry: &Entry)
        requires
            self.wf(),
            index < self@.slots,
        ensures
            *entry == self@.entry(index as int),
    {
        proof {
            lemma_entry(self.listeners@, self.model@, index as int);
        }
        &self.listeners[index]
    }

    /// Whether `key` is the key of a listener.
    pub fn holds(&self, key: usize) -> (held: bool)
        requires
            self.wf(),
        ensures
            held == self@.contains(key),
    {
        if key < self.listeners.len() {
            proof {
                lemma_entry(self.listeners@, self.model@, key as int);
            }
            match &self.listeners[key] {
                Entry::Listener { .. } => true,
                _ => false,
            }
        } else {
            false
        }
    }

    /// Adds a listener in state `state` behind all others and returns its
    /// key: the first hole, or a new slot where there is none. A key is never
    /// zero. A listener cannot join in a notified state.
    pub fn insert(&mut self, state: State) -> (key: usize)
        requires
            old(self).wf(),
            !state.notified(),
        ensures
            final(self).wf(),
            final(self)@ == old(self)@.insert(state),
            key == old(self)@.next_key(),
            key >= 1,
            final(self)@.contains(key),
    {
        let ghost before = self.model@;
        let ghost slots = self.listeners@;
        let key = self.first_empty;
        let entry = Entry::Listener { state, prev: self.tail, next: None };
        if self.first_empty == self.listeners.len() {
            self.listeners.push(entry);
            self.first_empty = self.listeners.len();
        } else {
            assert(holds_hole(slots, before, 0));
            let mut slot = entry;
            std::mem::swap(&mut self.listeners[key], &mut slot);
            match slot {
                Entry::Empty(next) => {
                    self.first_empty = next;
                },
                _ => {
                    assert(false);
                },
            }
        }
        match self.tail {
            None => {
                self.head = Some(key);
            },
            Some(tail) => {
                assert(holds_listener(slots, before, before.keys.len() - 1));
                self.set_next(tail, Some(key));
            },
        }
        self.tail = Some(key);
        if self.start.is_none() {
            self.start = Some(key);
        }
        self.len += 1;
        self.model = Ghost(before.insert(state));
        proof {
            lemma_insert(slots, self.listeners@, before, state);
        }
        key
    }

    /// Removes the listener with this key from the list and returns its
    /// state. Its slot becomes the first hole.
    pub fn unlink(&mut self, key: usize) -> (state: State)
        requires
            old(self).wf(),
            old(self)@.contains(key),
        ensures
            final(self).wf(),
            final(self)@ == old(self)@.unlink(key),
            state == old(self)@.state(key),
    {
        let ghost before = self.model@;
        let ghost slots = self.listeners@;
        let ghost p = before.position(key);
        proof {
            assert(holds_listener(slots, before, p));
            if p > 0 {
                assert(holds_listener(slots, before, p - 1));
            }
            if p + 1 < before.keys.len() {
                assert(holds_listener(slots, before, p + 1));
            }
        }
        let prev = self.listeners[key].prev();
        let next = self.listeners[key].next();
        match prev {
            None => {
                self.head = next;
            },
            Some(elder) => {
                self.set_next(elder, next);
            },
        }
        match next {
            None => {
                self.tail = prev;
            },
            Some(junior) => {
                self.set_prev(junior, prev);
            },
        }
        if self.start == Some(key) {
            self.start = next;
        }
        let mut entry = Entry::Empty(self.first_empty);
        std::mem::swap(&mut self.listeners[key], &mut entry);
        self.first_empty = key;
        let state = match entry {
            Entry::Listener { state, .. } => state,
            _ => vstd::pervasive::unreached(),
        };
        if state.is_notified() {
            self.notified = self.notified.saturating_sub(1);
        }
        self.len -= 1;
        self.model = Ghost(before.unlink(key));
        proof {
            lemma_unlink(slots, self.listeners@, before, key);
        }
        state
    }

    /// Removes the listener with this key and returns its state. If it
    /// leaves with a notification that it has not taken and `propagate` is
    /// set, the notification is passed on as a notification of one; the
    /// task that this reaches is returned, not woken.
    pub fn remove_deferred(&mut self, key: usize, propagate: bool) -> (out: (State, Vec<Task>))
        requires
            old(self).wf(),
            old(self)@.contains(key),
        ensures
            final(self).wf(),
            final(self)@ == old(self)@.remove(key, propagate),
            out.0 == old(self)@.state(key),
            out.1@ == old(self)@.woken_by_remove(key, propagate),
    {
        let state = self.unlink(key);
        let tasks = if propagate {
            match &state {
                State::Notified(additional) => self.notify_deferred(1, *additional),
                _ => Vec::new(),
            }
        } else {
            Vec::new()
        };
        (state, tasks)
    }

    /// Removes the listener with this key and returns its state. If it
    /// leaves with a notification that it has not taken and `propagate` is
    /// set, the notification is passed on as a notification of one.
    pub fn remove(&mut self, key: usize, propagate: bool) -> (state: Option<State>)
        requires
            old(self).wf(),
            old(self)@.contains(key),
        ensures
            final(self).wf(),
            final(self)@ == old(self)@.remove(key, propagate),
            state == Some(old(self)@.state(key)),
    {
        let (state, tasks) = self.remove_deferred(key, propagate);
        wake_all(tasks);
        Some(state)
    }

    /// Notifies listeners, oldest first, and returns the tasks that waited
    /// in them, in the same order, without waking them. An additional
    /// notification reaches `n` listeners that were not notified; a plain one
    /// only as many as are missing for `n` to be notified in all.
    pub fn notify_deferred(&mut self, n: usize, additional: bool) -> (tasks: Vec<Task>)
        requires
            old(self).wf(),
        ensures
            final(self).wf(),
            final(self)@ == old(self)@.notify(n as nat, additional),
            tasks@ == old(self)@.woken(n as nat, additional),
    {
        let ghost before = self.model@;
        let mut tasks: Vec<Task> = Vec::new();
        let mut n = n;
        proof {
            lemma_mark_wf(before, 0, additional);
        }
        if !additional {
            if n <= self.notified {
                return tasks;
            }
            n -= self.notified;
        }
        let ghost wanted = n as nat;
        let ghost mut count: nat = 0;
        while n > 0 && self.start.is_some()
            invariant
                self.wf(),
                before.wf(),
                count + n == wanted,
                before.notified + count <= before.keys.len(),
                self.model@ == before.mark(count, additional),
                tasks@ == tasks_in(
                    before.states,
                    before.notified as int,
                    (before.notified + count) as int,
                ),
            decreases n,
        {
            let ghost current = self.model@;
            let ghost slots = self.listeners@;
            n -= 1;
            if let Some(key) = self.start {
                proof {
                    assert(holds_listener(slots, current, current.notified as int));
                    lemma_mark_more(before, count, additional);
                }
                self.start = self.listeners[key].next();
                let previous = self.replace_state(key, State::Notified(additional));
                match previous {
                    State::Task(task) => {
                        tasks.push(task);
                    },
                    _ => {},
                }
                self.notified += 1;
                proof {
                    count = count + 1;
                }
                self.model = Ghost(before.mark(count, additional));
                proof {
                    lemma_restate(
                        slots,
                        self.listeners@,
                        current,
                        self.model@,
                        key,
                        State::Notified(additional),
                    );
                }
            }
        }
        tasks
    }

    /// Notifies listeners, oldest first, and wakes the tasks that waited in
    /// them. An additional notification reaches `n` listeners that were not
    /// notified; a plain one only as many as are missing for `n` to be
    /// notified in all.
    pub fn notify(&mut self, n: usize, additional: bool)
        requires
            old(self).wf(),
        ensures
            final(self).wf(),
            final(self)@ == old(self)@.notify(n as nat, additional),
    {
        let tasks = self.notify_deferred(n, additional);
        wake_all(tasks);
    }

    /// Puts `task` in the listener with this key, unless `same` says that
    /// the listener already waits with a task that wakes the same one.
    pub fn install(&mut self, key: usize, task: Task, same: bool)
        requires
            old(self).wf(),
            old(self)@.contains(key),
            !old(self)@.state(key).notified(),
        ensures
            final(self).wf(),
            final(self)@ == old(self)@.registered(key, task, same),
    {
        let ghost before = self.model@;
        let ghost slots = self.listeners@;
        proof {
            assert(holds_listener(slots, before, before.position(key)));
        }
        let keep = match self.listeners[key].state() {
            State::Task(_) => same,
            _ => false,
        };
        if !keep {
            let _ = self.replace_state(key, State::Task(task));
            self.model = Ghost(before.set_state(key, State::Task(task)));
            proof {
                lemma_restate(slots, self.listeners@, before, self.model@, key, State::Task(task));
            }
        }
    }

    /// Registers `task` to be woken when the listener behind the handle is
    /// notified. If the listener has been notified already, it is removed,
    /// the handle is emptied and the answer is `Some(true)`; otherwise the
    /// task is kept, unless the listener already holds one that wakes the
    /// same task, and the answer is `Some(false)`. A handle without a key
    /// gets `None`.
    pub fn register(&mut self, listener: &mut Option<Listener>, task: Task) -> (r: Option<bool>)
        requires
            old(self).wf(),
            *old(listener) matches Some(Listener::HasNode(key)) ==> old(self)@.contains(key),
        ensures
            final(self).wf(),
            match *old(listener) {
                Some(Listener::HasNode(key)) => {
                    if old(self)@.state(key).notified() {
                        &&& r == Some(true)
                        &&& *final(listener) == None::<Listener>
                        &&& final(self)@ == old(self)@.unlink(key)
                        &&& final(self)@.notified == old(self)@.notified - 1
                    } else {
                        &&& r == Some(false)
                        &&& *final(listener) == *old(listener)
                        &&& (final(self)@ == old(self)@.registered(key, task, false)
                            || final(self)@ == old(self)@.registered(key, task, true))
                    }
                },
                _ => {
                    &&& r == None::<bool>
                    &&& *final(listener) == *old(listener)
                    &&& final(self)@ == old(self)@
                },
            },
    {
        let key = match listener {
            Some(Listener::HasNode(key)) => *key,
            _ => {
                return None;
            },
        };
        proof {
            assert(holds_listener(self.listeners@, self.model@, self.model@.position(key)));
        }
        match self.listeners[key].state() {
            State::Notified(_) | State::NotifiedTaken => {
                let _ = self.unlink(key);
                *listener = None;
                Some(true)
            },
            State::Task(existing) => {
                let same = task.will_wake(existing);
                self.install(key, task, same);
                Some(false)
            },
            State::Created => {
                self.install(key, task, false);
                Some(false)
            },
        }
    }

    /// Sets the link that the listener in slot `key` holds to its junior.
    fn set_next(&mut self, key: usize, next: Option<usize>)
        requires
            key < old(self).listeners@.len(),
            old(self).listeners@[key as int] is Listener,
        ensures
            final(self).listeners@ == old(self).listeners@.update(
                key as int,
                Entry::Listener {
                    state: old(self).listeners@[key as int]->state,
                    prev: old(self).listeners@[key as int]->prev,
                    next,
                },
            ),
            final(self).head == old(self).head,
            final(self).tail == old(self).tail,
            final(self).start == old(self).start,
            final(self).notified == old(self).notified,
            final(self).len == old(self).len,
            final(self).first_empty == old(self).first_empty,
            final(self).model == old(self).model,
    {
        match &mut self.listeners[key] {
            Entry::Listener { next: link, .. } => {
                *link = next;
            },
            _ => {},
        }
    }

    /// Sets the link that the listener in slot `key` holds to its elder.
    fn set_prev(&mut self, key: usize, prev: Option<usize>)
        requires
            key < old(self).listeners@.len(),
            old(self).listeners@[key as int] is Listener,
        ensures
            final(self).listeners@ == old(self).listeners@.update(
                key as int,
                Entry::Listener {
                    state: old(self).listeners@[key as int]->state,
                    prev,
                    next: old(self).listeners@[key as int]->next,
                },
            ),
            final(self).head == old(self).head,
            final(self).tail == old(self).tail,
            final(self).start == old(self).start,
            final(self).notified == old(self).notified,
            final(self).len == old(self).len,
            final(self).first_empty == old(self).first_empty,
            final(self).model == old(self).model,
    {
        match &mut self.listeners[key] {
            Entry::Listener { prev: link, .. } => {
                *link = prev;
            },
            _ => {},
        }
    }

    /// Puts `state` in the slot of the listener `key` and returns the state
    /// that was there.
    fn replace_state(&mut self, key: usize, state: State) -> (previous: State)
        requires
            key < old(self).listeners@.len(),
            old(self).listeners@[key as int] is Listener,
        ensures
            previous == old(self).listeners@[key as int]->state,
            final(self).listeners@ == old(self).listeners@.update(
                key as int,
                Entry::Listener {
                    state,
                    prev: old(self).listeners@[key as int]->prev,
                    next: old(self).listeners@[key as int]->next,
                },
            ),
            final(self).head == old(self).head,
            final(self).tail == old(self).tail,
            final(self).start == old(self).start,
            final(self).notified == old(self).notified,
            final(self).len == old(self).len,
            final(self).first_empty == old(self).first_empty,
            final(self).model == old(self).model,
    {
        let mut state = state;
        match &mut self.listeners[key] {
            Entry::Listener { state: slot, .. } => {
                std::mem::swap(slot, &mut state);
            },
            _ => {},
        }
        state
    }
}

} // verus!
