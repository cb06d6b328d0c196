//! The hand-off queue between the line readers and the delivery worker:
//! a bounded first-in first-out buffer of delivery items.

use vstd::prelude::*;

verus! {

/// One unit of work handed to the delivery worker: a captured line
/// (bytes, including the trailing newline) or the end-of-stream sentinel
/// that the supervisor injects once both readers are done.
pub enum DeliverValue {
    Line(Vec<u8>),
    Eof,
}

/// How many items the queue holds before producers must wait.
pub const QUEUE_CAPACITY: usize = 64;

/// A bounded first-in first-out queue of delivery items.
///
/// Items leave in exactly the order they entered: no reordering, no
/// duplication, no loss. The view is the sequence of queued items,
/// oldest first.
pub struct MessageQueue {
    items: Vec<DeliverValue>,
}

impl MessageQueue {
    pub closed spec fn view(&self) -> Seq<DeliverValue> {
        self.items@
    }

    pub open spec fn well_formed(&self) -> bool {
        self@.len() <= QUEUE_CAPACITY
    }

    pub fn new() -> (q: MessageQueue)
        ensures
            q@ == Seq::<DeliverValue>::empty(),
            q.well_formed(),
    {
        MessageQueue { items: Vec::new() }
    }

    pub fn len(&self) -> (n: usize)
        ensures
            n == self@.len(),
    {
        self.items.len()
    }

    pub fn is_empty(&self) -> (b: bool)
        ensures
            b == (self@.len() == 0),
    {
        self.items.len() == 0
    }

    pub fn is_full(&self) -> (b: bool)
        ensures
            b == (self@.len() >= QUEUE_CAPACITY),
    {
        self.items.len() >= QUEUE_CAPACITY
    }

    /// Enqueue one item at the back. A producer may only push once there is
    /// room; a full queue makes the producer wait, which is the pipeline's
    /// backpressure.
    pub fn push(&mut self, item: DeliverValue)
        requires
            old(self)@.len() < QUEUE_CAPACITY,
        ensures
            final(self)@ == old(self)@.push(item),
            final(self).well_formed(),
    {
        self.items.push(item);
    }

    /// Dequeue the oldest item, or `None` when the queue is empty.
    pub fn pop(&mut self) -> (r: Option<DeliverValue>)
        requires
            old(self).well_formed(),
        ensures
            old(self)@.len() == 0 ==> r is None && final(self)@ == old(self)@,
            old(self)@.len() > 0 ==> (match r {
                Some(item) => item == old(self)@.first()
                    && final(self)@ == old(self)@.drop_first(),
                None => false,
            }),
            final(self).well_formed(),
    {
        if self.items.len() == 0 {
            None
        } else {
            let item = self.items.remove(0);
            Some(item)
        }
    }
}

} // verus!
