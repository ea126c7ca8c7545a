//! The list of listeners behind its lock, with the intake queue beside it.
//!
//! Every operation first tries the lock. With the lock it works on the slab
//! at once; without it, it leaves a node in the intake queue. Whoever gives
//! the lock back applies every queued node first, so the queue is empty
//! whenever the lock is free.

use crate::listener::{Listener, TaskWaiting};
use crate::model::SlabView;
use crate::mutex::{Mutex, MutexGuard};
use crate::node::Node;
use crate::queue::Queue;
use crate::slab::ListenerSlab;
use crate::state::State;
use crate::task::{wake_all, Task};
use crate::waiting::{Waiting, WaitingList};
use vstd::prelude::*;

verus! {

/// What stands behind an event: the slab in its lock, the intake queue and
/// the records of the insertions that wait in it.
pub struct List {
    /// The slab of listeners.
    inner: Mutex<ListenerSlab>,
    /// The operations that found the lock taken.
    queue: Queue,
    /// The records of the queued insertions.
    waiting: WaitingList,
}

/// The lock on the list, held: the slab is with the holder.
pub struct ListGuard {
    /// The guard of the slab.
    guard: MutexGuard<ListenerSlab>,
}

/// The coordinator: it sends each operation to the slab or to the queue.
pub struct Inner {
    /// The list.
    list: List,
    /// The number of notified listeners as of the last release of the lock,
    /// or `usize::MAX` if every listener was notified.
    notified: usize,
}

/// What the coordinator holds.
pub struct InnerView {
    /// The slab, unless the lock is held and the slab is with the holder.
    pub slab: Option<SlabView>,
    /// The queued operations, in the order in which they were pushed.
    pub queue: Seq<Node>,
    /// The records of the queued insertions, by ticket.
    pub waiting: Seq<Waiting>,
    /// The published number of notified listeners.
    pub notified: usize,
}

/// Whether every queued operation can be applied when its turn comes. The
/// operation pushed last is applied first.
pub open spec fn drainable(v: SlabView, records: Seq<Waiting>, nodes: Seq<Node>) -> bool
    decreases nodes.len(),
{
    nodes.len() == 0 || {
        let node = nodes.last();
        &&& node.applicable(v, records)
        &&& drainable(node.slab_after(v), node.records_after(v, records), nodes.drop_last())
    }
}

/// The slab after every queued operation has been applied.
pub open spec fn drained_slab(v: SlabView, nodes: Seq<Node>) -> SlabView
    decreases nodes.len(),
{
    if nodes.len() == 0 {
        v
    } else {
        drained_slab(nodes.last().slab_after(v), nodes.drop_last())
    }
}

/// The records after every queued operation has been applied.
pub open spec fn drained_records(v: SlabView, records: Seq<Waiting>, nodes: Seq<Node>) -> Seq<
    Waiting,
>
    decreases nodes.len(),
{
    if nodes.len() == 0 {
        records
    } else {
        let node = nodes.last();
        drained_records(node.slab_after(v), node.records_after(v, records), nodes.drop_last())
    }
}

/// The tasks that the queued operations leave to be woken, in the order in
/// which the operations are applied.
pub open spec fn drained_tasks(v: SlabView, records: Seq<Waiting>, nodes: Seq<Node>) -> Seq<Task>
    decreases nodes.len(),
{
    if nodes.len() == 0 {
        Seq::empty()
    } else {
        let node = nodes.last();
        let first = match node.task_after(records) {
            Some(task) => seq![task],
            None => Seq::empty(),
        };
        first + drained_tasks(
            node.slab_after(v),
            node.records_after(v, records),
            nodes.drop_last(),
        )
    }
}

/// The operations that are still to be applied: those in the queue, and
/// after them the one in hand.
pub open spec fn pending(queue: Seq<Node>, current: Option<Node>) -> Seq<Node> {
    match current {
        Some(node) => queue.push(node),
        None => queue,
    }
}

impl List {
    /// The lock and what is in it.
    pub closed spec fn lock(&self) -> Mutex<ListenerSlab> {
        self.inner
    }

    /// The queued operations, in the order in which they were pushed.
    pub closed spec fn queue(&self) -> Seq<Node> {
        self.queue@
    }

    /// The records of the queued insertions, by ticket.
    pub closed spec fn records(&self) -> Seq<Waiting> {
        self.waiting@
    }

    /// Creates a list without listeners: the lock free, the queue empty.
    pub fn new() -> (list: List)
        ensures
            !list.lock().is_locked(),
            list.lock().content().wf(),
            list.lock().content()@ == SlabView::empty(),
            list.queue() == Seq::<Node>::empty(),
            list.records() == Seq::<Waiting>::empty(),
    {
        List { inner: Mutex::new(ListenerSlab::new()), queue: Queue::new(), waiting: WaitingList::new() }
    }
}

impl ListGuard {
    /// The slab that the holder has.
    pub closed spec fn slab(&self) -> ListenerSlab {
        self.guard@
    }

    /// What the slab holds.
    pub open spec fn view(&self) -> SlabView {
        self.slab()@
    }

    /// The slab is valid.
    pub open spec fn wf(&self) -> bool {
        self.slab().wf()
    }

    /// Reads the slab.
    pub fn get(&self) -> (slab: &ListenerSlab)
        ensures
            *slab == self.slab(),
    {
        self.guard.get()
    }

    /// Gives access to the slab.
    pub fn get_mut(&mut self) -> (slab: &mut ListenerSlab)
        ensures
            *slab == old(self).slab(),
            final(self).slab() == *final(slab),
    {
        self.guard.get_mut()
    }

    /// Applies `start_node` and then every operation in the queue, the one
    /// pushed last first, until the queue is empty. The tasks that the
    /// operations leave to be woken are added to `tasks`.
    pub fn process_nodes_slow(&mut self, start_node: Node, tasks: &mut Vec<Task>, list: &mut List)
        requires
            old(self).wf(),
            drainable(old(self)@, old(list).records(), old(list).queue().push(start_node)),
        ensures
            final(self).wf(),
            final(self)@ == drained_slab(old(self)@, old(list).queue().push(start_node)),
            final(list).records() == drained_records(
                old(self)@,
                old(list).records(),
                old(list).queue().push(start_node),
            ),
            final(tasks)@ == old(tasks)@ + drained_tasks(
                old(self)@,
                old(list).records(),
                old(list).queue().push(start_node),
            ),
            final(list).queue().len() == 0,
            final(list).lock() == old(list).lock(),
    {
        let ghost all = list.queue@.push(start_node);
        let ghost slab0 = self@;
        let ghost records0 = list.waiting@;
        let ghost tasks0 = tasks@;
        let mut current: Option<Node> = Some(start_node);
        while current.is_some()
            invariant
                self.wf(),
                current is None ==> list.queue@.len() == 0,
                drainable(self@, list.waiting@, pending(list.queue@, current)),
                drained_slab(self@, pending(list.queue@, current)) == drained_slab(slab0, all),
                drained_records(self@, list.waiting@, pending(list.queue@, current))
                    == drained_records(slab0, records0, all),
                tasks@ + drained_tasks(self@, list.waiting@, pending(list.queue@, current))
                    == tasks0 + drained_tasks(slab0, records0, all),
                list.inner == old(list).inner,
            decreases pending(list.queue@, current).len(),
        {
            let ghost before = pending(list.queue@, current);
            let ghost queued = list.queue@;
            let node = current.unwrap();
            assert(before.drop_last() =~= queued);
            let task = node.apply(self.guard.get_mut(), &mut list.waiting);
            if let Some(task) = task {
                tasks.push(task);
            }
            current = list.queue.pop();
            assert(pending(list.queue@, current) =~= queued);
        }
    }

    /// Gives the lock back: applies every queued operation, publishes the
    /// number of notified listeners, frees the lock, and then wakes the tasks
    /// that the operations left to be woken.
    pub fn release(self, inner: &mut Inner)
        requires
            self.wf(),
            old(inner).wf(),
            old(inner)@.slab is None,
            drainable(self@, old(inner)@.waiting, old(inner)@.queue),
        ensures
            final(inner).wf(),
            final(inner)@ == (InnerView {
                slab: Some(drained_slab(self@, old(inner)@.queue)),
                queue: Seq::empty(),
                waiting: drained_records(self@, old(inner)@.waiting, old(inner)@.queue),
                notified: drained_slab(self@, old(inner)@.queue).published(),
            }),
    {
        let mut guard = self;
        let ghost queued = inner.list.queue@;
        let mut tasks: Vec<Task> = Vec::new();
        let start = inner.list.queue.pop();
        if let Some(start_node) = start {
            assert(inner.list.queue@.push(start_node) =~= queued);
            guard.process_nodes_slow(start_node, &mut tasks, &mut inner.list);
        }
        inner.notified = guard.guard.get().published();
        inner.list.inner.unlock(guard.guard);
        proof {
            assert(inner@.queue =~= Seq::<Node>::empty());
        }
        wake_all(tasks);
    }
}

impl Inner {
    /// What the coordinator holds.
    pub closed spec fn view(&self) -> InnerView {
        InnerView {
            slab: if self.list.inner.is_locked() {
                None
            } else {
                Some(self.list.inner.content()@)
            },
            queue: self.list.queue@,
            waiting: self.list.waiting@,
            notified: self.notified,
        }
    }

    /// While the lock is free the slab is valid, the queue is empty and the
    /// published number is that of the slab.
    pub closed spec fn wf(&self) -> bool {
        !self.list.inner.is_locked() ==> {
            &&& self.list.inner.content().wf()
            &&& self.list.queue@.len() == 0
            &&& self.notified == self.list.inner.content()@.published()
        }
    }

    /// What `wf` means for the view.
    pub proof fn lemma_view_wf(&self)
        requires
            self.wf(),
        ensures
            self@.slab matches Some(v) ==> v.wf() && self@.queue.len() == 0 && self@.notified
                == v.published(),
    {
        if !self.list.inner.is_locked() {
            self.list.inner.content().lemma_view_wf();
        }
    }

    /// Creates a coordinator without listeners.
    pub fn new() -> (inner: Inner)
        ensures
            inner.wf(),
            inner@ == (InnerView {
                slab: Some(SlabView::empty()),
                queue: Seq::empty(),
                waiting: Seq::empty(),
                notified: usize::MAX,
            }),
    {
        Inner { list: List::new(), notified: usize::MAX }
    }

    /// The published number of notified listeners: `usize::MAX` if every
    /// listener was notified when the lock was last given back.
    pub fn notified(&self) -> (notified: usize)
        ensures
            notified == self@.notified,
    {
        self.notified
    }

    /// Whether the ticket has a record.
    pub fn knows(&self, ticket: &TaskWaiting) -> (known: bool)
        ensures
            known == (ticket.ticket < self@.waiting.len()),
    {
        self.list.waiting.holds(ticket)
    }

    /// The key of the listener behind a ticket, if its insertion has been
    /// applied.
    pub fn status(&self, ticket: &TaskWaiting) -> (status: Option<usize>)
        requires
            ticket.ticket < self@.waiting.len(),
        ensures
            status == self@.waiting[ticket.ticket as int].status,
    {
        self.list.waiting.status(ticket)
    }

    /// Tries to take the lock on the list.
    pub fn try_lock(&mut self) -> (guard: Option<ListGuard>)
        requires
            old(self).wf(),
        ensures
            final(self).wf(),
            match old(self)@.slab {
                Some(v) => {
                    &&& guard is Some
                    &&& guard->0.wf()
                    &&& guard->0@ == v
                    &&& final(self)@ == (InnerView { slab: None, ..old(self)@ })
                },
                None => guard is None && final(self)@ == old(self)@,
            },
    {
        match self.list.inner.try_lock() {
            Some(guard) => Some(ListGuard { guard }),
            None => None,
        }
    }

    /// Adds a listener to the list and fills the handle: with the key, or
    /// with the ticket of the queued insertion if the lock is taken. Does
    /// nothing to a handle that is filled already.
    pub fn insert(&mut self, listener: &mut Option<Listener>)
        requires
            old(self).wf(),
        ensures
            final(self).wf(),
            *old(listener) is Some ==> *final(listener) == *old(listener) && final(self)@ == old(
                self,
            )@,
            *old(listener) is None ==> match old(self)@.slab {
                Some(v) => {
                    &&& *final(listener) == Some(Listener::HasNode(v.next_key() as usize))
                    &&& final(self)@ == (InnerView {
                        slab: Some(v.insert(State::Created)),
                        notified: v.insert(State::Created).published(),
                        ..old(self)@
                    })
                },
                None => {
                    let ticket = TaskWaiting {
                        ticket: old(self)@.waiting.len() as usize,
                    };
                    &&& *final(listener) == Some(Listener::Queued(ticket))
                    &&& final(self)@ == (InnerView {
                        queue: old(self)@.queue.push(Node::Insert(ticket)),
                        waiting: old(self)@.waiting.push(Waiting { status: None, task: None }),
                        ..old(self)@
                    })
                },
            },
    {
        if listener.is_some() {
            return;
        }
        match self.try_lock() {
            Some(mut lock) => {
                let key = lock.get_mut().insert(State::Created);
                *listener = Some(Listener::HasNode(key));
                lock.release(self);
                proof {
                    assert(self@.queue =~= old(self)@.queue);
                }
            },
            None => {
                let (node, task_waiting) = Node::listener(&mut self.list.waiting);
                self.list.queue.push(node);
                *listener = Some(Listener::Queued(task_waiting));
            },
        }
    }

    /// Removes the listener behind the handle and empties the handle. With
    /// the lock, the answer is the state in which the listener left; without
    /// it the removal is queued and the answer is `None`. A listener whose
    /// insertion is still queued is given up, not removed.
    pub fn remove(&mut self, listener: &mut Option<Listener>, propagate: bool) -> (state: Option<
        State,
    >)
        requires
            old(self).wf(),
            *old(listener) matches Some(Listener::HasNode(key)) ==> (old(self)@.slab matches Some(v)
                ==> v.contains(key)),
        ensures
            final(self).wf(),
            *final(listener) == None::<Listener>,
            match (*old(listener), old(self)@.slab) {
                (Some(Listener::HasNode(key)), Some(v)) => {
                    &&& state == Some(v.state(key))
                    &&& final(self)@ == (InnerView {
                        slab: Some(v.remove(key, propagate)),
                        notified: v.remove(key, propagate).published(),
                        ..old(self)@
                    })
                },
                (Some(Listener::HasNode(key)), None) => {
                    &&& state == None::<State>
                    &&& final(self)@ == (InnerView {
                        queue: old(self)@.queue.push(
                            Node::RemoveListener { listener: key, propagate },
                        ),
                        ..old(self)@
                    })
                },
                _ => state == None::<State> && final(self)@ == old(self)@,
            },
    {
        match listener.take() {
            Some(Listener::HasNode(key)) => {
                match self.try_lock() {
                    Some(mut list) => {
                        let state = list.get_mut().remove(key, propagate);
                        list.release(self);
                        proof {
                            assert(self@.queue =~= old(self)@.queue);
                        }
                        state
                    },
                    None => {
                        self.list.queue.push(Node::RemoveListener { listener: key, propagate });
                        None
                    },
                }
            },
            Some(Listener::Queued(_)) => None,
            None => None,
        }
    }

    /// Notifies listeners, or queues the notification if the lock is taken.
    pub fn notify(&mut self, n: usize, additional: bool)
        requires
            old(self).wf(),
        ensures
            final(self).wf(),
            match old(self)@.slab {
                Some(v) => final(self)@ == (InnerView {
                    slab: Some(v.notify(n as nat, additional)),
                    notified: v.notify(n as nat, additional).published(),
                    ..old(self)@
                }),
                None => final(self)@ == (InnerView {
                    queue: old(self)@.queue.push(Node::Notify { count: n, additional }),
                    ..old(self)@
                }),
            },
    {
        match self.try_lock() {
            Some(mut guard) => {
                guard.get_mut().notify(n, additional);
                guard.release(self);
                proof {
                    assert(self@.queue =~= old(self)@.queue);
                }
            },
            None => {
                self.list.queue.push(Node::Notify { count: n, additional });
            },
        }
    }

    /// The handle as it stands once a queued insertion that has been applied
    /// is taken note of.
    pub open spec fn promoted(v: InnerView, listener: Option<Listener>) -> Option<Listener> {
        match listener {
            Some(Listener::Queued(ticket)) => match v.waiting[ticket.ticket as int].status {
                Some(key) => Some(Listener::HasNode(key)),
                None => listener,
            },
            _ => listener,
        }
    }

    /// Whether the handle can be used to register a task: its ticket has a
    /// record, and its key, if the slab is at hand, is that of a listener.
    pub open spec fn admits(v: InnerView, listener: Option<Listener>) -> bool {
        &&& listener matches Some(Listener::Queued(ticket)) ==> ticket.ticket < v.waiting.len()
        &&& Self::promoted(v, listener) matches Some(Listener::HasNode(key)) ==> (
        v.slab matches Some(slab) ==> slab.contains(key))
    }

    /// Registers `task` to be woken when the listener behind the handle is
    /// notified.
    ///
    /// A handle with a ticket whose insertion has been applied is given its
    /// key first. With a key and the lock, a listener that has been notified
    /// already is removed, the handle is emptied and the answer is
    /// `Some(true)`; one that has not keeps the task, unless it holds one
    /// that wakes the same task, and the answer is `Some(false)`. With a key
    /// and without the lock, the task is queued to be woken when the lock is
    /// given back, and the answer is `Some(false)`. With a ticket whose
    /// insertion is still queued, the task is left in its record and the
    /// answer is `None`, as it is for an empty handle.
    pub fn register(&mut self, listener: &mut Option<Listener>, task: Task) -> (r: Option<bool>)
        requires
            old(self).wf(),
            Self::admits(old(self)@, *old(listener)),
        ensures
            final(self).wf(),
            match (Self::promoted(old(self)@, *old(listener)), old(self)@.slab) {
                (Some(Listener::HasNode(key)), Some(v)) => {
                    if v.state(key).notified() {
                        &&& r == Some(true)
                        &&& *final(listener) == None::<Listener>
                        &&& final(self)@ == (InnerView {
                            slab: Some(v.unlink(key)),
                            notified: v.unlink(key).published(),
                            ..old(self)@
                        })
                    } else {
                        &&& r == Some(false)
                        &&& *final(listener) == Some(Listener::HasNode(key))
                        &&& exists|same: bool|
                            final(self)@ == (InnerView {
                                slab: Some(#[trigger] v.registered(key, task, same)),
                                notified: v.registered(key, task, same).published(),
                                ..old(self)@
                            })
                    }
                },
                (Some(Listener::HasNode(key)), None) => {
                    &&& r == Some(false)
                    &&& *final(listener) == Some(Listener::HasNode(key))
                    &&& final(self)@ == (InnerView {
                        queue: old(self)@.queue.push(Node::Waiting(task)),
                        ..old(self)@
                    })
                },
                (Some(Listener::Queued(ticket)), _) => {
                    &&& r == None::<bool>
                    &&& *final(listener) == *old(listener)
                    &&& final(self)@ == (InnerView {
                        waiting: old(self)@.waiting.update(
                            ticket.ticket as int,
                            Waiting { status: None, task: Some(task) },
                        ),
                        ..old(self)@
                    })
                },
                (None, _) => {
                    &&& r == None::<bool>
                    &&& *final(listener) == *old(listener)
                    &&& final(self)@ == old(self)@
                },
            },
    {
        if let Some(Listener::Queued(task_waiting)) = listener {
            match self.list.waiting.status(task_waiting) {
                Some(key) => {
                    *listener = Some(Listener::HasNode(key));
                },
                None => {
                    let _ = self.list.waiting.register(task_waiting, task);
                    return None;
                },
            }
        }
        match listener {
            Some(Listener::HasNode(_)) => {
                match self.try_lock() {
                    Some(mut guard) => {
                        let r = guard.get_mut().register(listener, task);
                        guard.release(self);
                        proof {
                            assert(self@.queue =~= old(self)@.queue);
                        }
                        r
                    },
                    None => {
                        self.list.queue.push(Node::Waiting(task));
                        Some(false)
                    },
                }
            },
            _ => None,
        }
    }
}

} // verus!
