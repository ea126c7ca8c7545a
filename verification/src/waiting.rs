//! The records of the listeners whose insertion waits in the intake queue.

use crate::listener::TaskWaiting;
use crate::task::Task;
use vstd::prelude::*;

verus! {

/// What is known of a listener whose insertion was put in the intake queue.
#[derive(Debug)]
pub struct Waiting {
    /// The key of the listener, once the insertion has been applied.
    pub status: Option<usize>,
    /// The task to wake when the insertion is applied.
    pub task: Option<Task>,
}

/// The records of all queued insertions, found by their tickets.
pub struct WaitingList {
    /// The records, each at the index that its ticket names.
    records: Vec<Waiting>,
}

impl WaitingList {
    /// The records, in the order of their tickets.
    pub closed spec fn view(&self) -> Seq<Waiting> {
        self.records@
    }

    /// Creates a list without records.
    pub fn new() -> (list: WaitingList)
        ensures
            list@ == Seq::<Waiting>::empty(),
    {
        WaitingList { records: Vec::new() }
    }

    /// Opens a record for a listener whose insertion is about to be queued:
    /// no key yet, no task.
    pub fn open(&mut self) -> (ticket: TaskWaiting)
        ensures
            ticket.ticket == old(self)@.len(),
            final(self)@ == old(self)@.push(Waiting { status: None, task: None }),
    {
        let ticket = TaskWaiting { ticket: self.records.len() };
        self.records.push(Waiting { status: None, task: None });
        ticket
    }

    /// Whether the ticket has a record.
    pub fn holds(&self, ticket: &TaskWaiting) -> (held: bool)
        ensures
            held == (ticket.ticket < self@.len()),
    {
        ticket.ticket < self.records.len()
    }

    /// The key of the listener, if its insertion has been applied.
    pub fn status(&self, ticket: &TaskWaiting) -> (status: Option<usize>)
        requires
            ticket.ticket < self@.len(),
        ensures
            status == self@[ticket.ticket as int].status,
    {
        self.records[ticket.ticket].status
    }

    /// Leaves `task` to be woken when the insertion is applied, in place of
    /// any task left before. Once the insertion has been applied nothing is
    /// left any more: the answer says whether the task was taken.
    pub fn register(&mut self, ticket: &TaskWaiting, task: Task) -> (taken: bool)
        requires
            ticket.ticket < old(self)@.len(),
        ensures
            taken == (old(self)@[ticket.ticket as int].status is None),
            taken ==> final(self)@ == old(self)@.update(
                ticket.ticket as int,
                Waiting { status: None, task: Some(task) },
            ),
            !taken ==> final(self)@ == old(self)@,
    {
        if self.records[ticket.ticket].status.is_none() {
            self.records[ticket.ticket].task = Some(task);
            true
        } else {
            false
        }
    }

    /// Records the key that the listener has been given, and hands out the
    /// task that was left for this moment.
    pub fn publish(&mut self, ticket: &TaskWaiting, key: usize) -> (task: Option<Task>)
        requires
            ticket.ticket < old(self)@.len(),
        ensures
            task == old(self)@[ticket.ticket as int].task,
            final(self)@ == old(self)@.update(
                ticket.ticket as int,
                Waiting { status: Some(key), task: None },
            ),
    {
        self.records[ticket.ticket].status = Some(key);
        self.records[ticket.ticket].task.take()
    }
}

} // verus!
