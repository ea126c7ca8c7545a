//! A first-in, first-out list of listeners waiting for a notification.
//!
//! Listeners live in a slab: a vector of entries with a doubly linked list
//! threaded through it and a free list of the holes. A notification marks a
//! bounded number of listeners, oldest first. Callers that find the list busy
//! leave their operation in an intake queue, which whoever holds the list
//! applies before giving it back.
//!
//! - [`task`], [`state`], [`entry`], [`listener`]: the values that the rest
//!   works with.
//! - [`model`]: what a slab holds, as sequences, and what each operation
//!   makes of it.
//! - [`slab`]: the slab itself, each operation tied to the model.
//! - [`refine`]: the proofs that the slots follow the model.
//! - [`laws`]: what holds of every valid slab.
//! - [`mutex`], [`queue`], [`waiting`], [`node`]: the lock, the intake queue,
//!   the records of queued insertions, and the queued operations.
//! - [`list`]: the coordinator that sends each operation to the slab or to
//!   the queue.

pub mod task;
pub mod state;
pub mod entry;
pub mod model;
pub mod refine;
pub mod listener;
pub mod slab;
pub mod laws;
pub mod mutex;
pub mod waiting;
pub mod node;
pub mod queue;
pub mod list;

pub use entry::Entry;
pub use list::{Inner, List, ListGuard};
pub use listener::{Listener, TaskWaiting};
pub use mutex::{Mutex, MutexGuard};
pub use node::Node;
pub use queue::Queue;
pub use slab::ListenerSlab;
pub use state::State;
pub use task::Task;
