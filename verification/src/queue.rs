//! The intake queue: operations that found the list busy.

use crate::node::Node;
use vstd::prelude::*;

verus! {

/// A stack of operations that wait to be applied. The one pushed last is
/// popped first.
pub struct Queue {
    /// The operations, the one pushed last at the end.
    nodes: Vec<Node>,
}

impl Queue {
    /// The operations, in the order in which they were pushed.
    pub closed spec fn view(&self) -> Seq<Node> {
        self.nodes@
    }

    /// Creates an empty queue.
    pub fn new() -> (queue: Queue)
        ensures
            queue@ == Seq::<Node>::empty(),
    {
        Queue { nodes: Vec::new() }
    }

    /// Adds an operation.
    pub fn push(&mut self, node: Node)
        ensures
            final(self)@ == old(self)@.push(node),
    {
        self.nodes.push(node);
    }

    /// Takes out the operation that was pushed last, if there is one.
    pub fn pop(&mut self) -> (node: Option<Node>)
        ensures
            old(self)@.len() == 0 ==> node is None && final(self)@ == old(self)@,
            old(self)@.len() > 0 ==> node == Some(old(self)@.last()) && final(self)@ == old(
                self,
            )@.drop_last(),
    {
        self.nodes.pop()
    }
}

} // verus!
