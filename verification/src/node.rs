//! The operations that can wait in the intake queue.

use crate::listener::TaskWaiting;
use crate::model::SlabView;
use crate::slab::ListenerSlab;
use crate::state::State;
use crate::task::Task;
use crate::waiting::{Waiting, WaitingList};
use vstd::prelude::*;

verus! {

/// An operation that found the list busy.
#[derive(Debug)]
pub enum Node {
    /// A listener is to be inserted, and its key recorded under the ticket.
    Insert(TaskWaiting),
    /// The listener with this key is to be removed.
    RemoveListener {
        /// The key of the listener.
        listener: usize,
        /// Whether a notification that it has not taken is passed on.
        propagate: bool,
    },
    /// Listeners are to be notified.
    Notify {
        /// The number of listeners to notify.
        count: usize,
        /// Whether the notification is an additional one.
        additional: bool,
    },
    /// A task wants to be woken once the queue has been applied.
    Waiting(Task),
}

impl Node {
    /// Whether the operation can be applied to this slab, with these
    /// records: a removal needs its listener, an insertion its record.
    pub open spec fn applicable(self, v: SlabView, records: Seq<Waiting>) -> bool {
        match self {
            Node::Insert(ticket) => ticket.ticket < records.len(),
            Node::RemoveListener { listener, .. } => v.contains(listener),
            _ => true,
        }
    }

    /// The slab after the operation.
    pub open spec fn slab_after(self, v: SlabView) -> SlabView {
        match self {
            Node::Insert(_) => v.insert(State::Created),
            Node::RemoveListener { listener, propagate } => v.remove(listener, propagate),
            Node::Notify { count, additional } => v.notify(count as nat, additional),
            Node::Waiting(_) => v,
        }
    }

    /// The records after the operation: an insertion records the key that
    /// the listener got and takes out the task that was left for it.
    pub open spec fn records_after(self, v: SlabView, records: Seq<Waiting>) -> Seq<Waiting> {
        match self {
            Node::Insert(ticket) => records.update(
                ticket.ticket as int,
                Waiting { status: Some(v.next_key() as usize), task: None },
            ),
            _ => records,
        }
    }

    /// The task that is to be woken once the list is free again.
    pub open spec fn task_after(self, records: Seq<Waiting>) -> Option<Task> {
        match self {
            Node::Insert(ticket) => records[ticket.ticket as int].task,
            Node::Waiting(task) => Some(task),
            _ => None,
        }
    }

    /// Opens a record for a listener and makes the operation that will
    /// insert it.
    pub fn listener(waiting: &mut WaitingList) -> (out: (Node, TaskWaiting))
        ensures
            out.1.ticket == old(waiting)@.len(),
            out.0 == Node::Insert(out.1),
            final(waiting)@ == old(waiting)@.push(Waiting { status: None, task: None }),
    {
        let ticket = waiting.open();
        (Node::Insert(ticket), ticket)
    }

    /// Applies the operation to the slab and returns the task that is to be
    /// woken once the list is free again. Tasks that a notification reaches
    /// are woken at once.
    pub fn apply(self, slab: &mut ListenerSlab, waiting: &mut WaitingList) -> (task: Option<Task>)
        requires
            old(slab).wf(),
            self.applicable(old(slab)@, old(waiting)@),
        ensures
            final(slab).wf(),
            final(slab)@ == self.slab_after(old(slab)@),
            final(waiting)@ == self.records_after(old(slab)@, old(waiting)@),
            task == self.task_after(old(waiting)@),
    {
        match self {
            Node::Insert(ticket) => {
                let key = slab.insert(State::Created);
                waiting.publish(&ticket, key)
            },
            Node::RemoveListener { listener, propagate } => {
                let _ = slab.remove(listener, propagate);
                None
            },
            Node::Notify { count, additional } => {
                slab.notify(count, additional);
                None
            },
            Node::Waiting(task) => Some(task),
        }
    }
}

} // verus!
