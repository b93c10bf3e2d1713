//! The bounded FIFO queue that carries translated messages between the
//! transport tasks and provides backpressure: a producer must hold a full
//! queue's message back, and a consumer always receives the oldest entry
//! first.

use vstd::prelude::*;

verus! {

/// The capacity of the two inter-task queues.
pub const QUEUE_CAPACITY: usize = 100;

/// A fixed-capacity FIFO of translated messages.
pub struct BoundedQueue {
    items: Vec<String>,
    capacity: usize,
}

impl View for BoundedQueue {
    type V = Seq<Seq<char>>;

    closed spec fn view(&self) -> Seq<Seq<char>> {
        self.items@.map_values(|m: String| m@)
    }
}

impl BoundedQueue {
    /// How many messages the queue can hold at once.
    pub closed spec fn spec_capacity(&self) -> usize {
        self.capacity
    }

    /// An empty queue of the given capacity.
    pub fn new(capacity: usize) -> (q: BoundedQueue)
        ensures
            q@ == Seq::<Seq<char>>::empty(),
            q.spec_capacity() == capacity,
    {
        let q = BoundedQueue { items: Vec::new(), capacity };
        proof {
            assert(q@ =~= Seq::<Seq<char>>::empty());
        }
        q
    }

    /// How many messages are queued.
    pub fn len(&self) -> (n: usize)
        ensures
            n == self@.len(),
    {
        self.items.len()
    }

    /// How many messages the queue can hold at once.
    pub fn capacity(&self) -> (n: usize)
        ensures
            n == self.spec_capacity(),
    {
        self.capacity
    }

    /// Append a message at the back; refused, with the queue unchanged, when
    /// the queue is full — the producer then waits.
    pub fn push(&mut self, m: String) -> (ok: bool)
        ensures
            final(self).spec_capacity() == old(self).spec_capacity(),
            ok <==> old(self)@.len() < old(self).spec_capacity(),
            ok ==> final(self)@ == old(self)@.push(m@),
            !ok ==> final(self)@ == old(self)@,
    {
        if self.items.len() < self.capacity {
            let ghost before = self.items@;
            self.items.push(m);
            proof {
                assert(self@ =~= before.map_values(|x: String| x@).push(m@));
            }
            true
        } else {
            false
        }
    }

    /// Remove and return the oldest message, or `None` when the queue is
    /// empty — the consumer then suspends.
    pub fn pop(&mut self) -> (r: Option<String>)
        ensures
            final(self).spec_capacity() == old(self).spec_capacity(),
            r is Some <==> old(self)@.len() > 0,
            r is Some ==> r->0@ == old(self)@[0] && final(self)@ == old(self)@.skip(1),
            r is None ==> final(self)@ == old(self)@,
    {
        if self.items.len() > 0 {
            let ghost before = self.items@;
            let m = self.items.remove(0);
            proof {
                assert(self@ =~= before.map_values(|x: String| x@).skip(1));
            }
            Some(m)
        } else {
            None
        }
    }
}

} // verus!
