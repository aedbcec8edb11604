//! The Pending Queue: an ordered, bounded FIFO of task identities, carrying
//! each submitted identity from the submission path to the dispatch loop.
//! Its mathematical image is the sequence of queued identities, front first.

use vstd::prelude::*;

verus! {

/// How many identities may wait for dispatch at once.
pub const QUEUE_CAPACITY: usize = 100;

/// A bounded FIFO of task identities. In the concurrent setting this stands
/// for the channel between the submission path (many producers) and the
/// dispatch loop (one consumer); here each operation is one atomic step of
/// that channel.
pub struct PendingQueue {
    ids: Vec<u128>,
}

impl View for PendingQueue {
    type V = Seq<u128>;

    closed spec fn view(&self) -> Seq<u128> {
        self.ids@
    }
}

impl PendingQueue {
    /// The queue never holds more than `QUEUE_CAPACITY` identities.
    pub open spec fn wf(&self) -> bool {
        self@.len() <= QUEUE_CAPACITY
    }

    pub fn new() -> (q: PendingQueue)
        ensures
            q.wf(),
            q@ == Seq::<u128>::empty(),
    {
        let q = PendingQueue { ids: Vec::new() };
        proof {
            assert(q@ =~= Seq::<u128>::empty());
        }
        q
    }

    pub fn len(&self) -> (n: usize)
        ensures
            n == self@.len(),
    {
        self.ids.len()
    }

    pub fn is_empty(&self) -> (r: bool)
        ensures
            r == (self@.len() == 0),
    {
        self.ids.len() == 0
    }

    /// Whether an enqueue would be refused right now.
    pub fn is_full(&self) -> (r: bool)
        requires
            self.wf(),
        ensures
            r == (self@.len() == QUEUE_CAPACITY),
    {
        self.ids.len() == QUEUE_CAPACITY
    }

    /// Appends `id` at the back; reports `false`, changing nothing, when the
    /// queue is at capacity.
    pub fn push_back(&mut self, id: u128) -> (r: bool)
        requires
            old(self).wf(),
        ensures
            final(self).wf(),
            r == (old(self)@.len() < QUEUE_CAPACITY),
            r ==> final(self)@ == old(self)@.push(id),
            !r ==> *final(self) == *old(self),
    {
        if self.ids.len() < QUEUE_CAPACITY {
            self.ids.push(id);
            true
        } else {
            false
        }
    }

    /// Takes the identity that has waited longest, or absence when the queue
    /// is empty.
    pub fn pop_front(&mut self) -> (r: Option<u128>)
        requires
            old(self).wf(),
        ensures
            final(self).wf(),
            match r {
                Some(id) => old(self)@.len() > 0 && id == old(self)@[0] && final(self)@ == old(
                    self,
                )@.drop_first(),
                None => old(self)@.len() == 0 && *final(self) == *old(self),
            },
    {
        if self.ids.len() == 0 {
            None
        } else {
            let id = self.ids.remove(0);
            proof {
                assert(self@ =~= old(self)@.drop_first());
            }
            Some(id)
        }
    }
}

} // verus!
