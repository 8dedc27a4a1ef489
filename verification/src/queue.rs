//! The bounded, lossy first-in-first-out queue of one direction of a relay unit.
use crate::frame::Frame;
use std::collections::VecDeque;
use vstd::prelude::*;

verus! {

/// Whether a queue that holds `len` frames under `limit` takes no more.
/// A limit of zero never fills.
pub open spec fn full_at(len: nat, limit: nat) -> bool {
    limit > 0 && len >= limit
}

/// What a queue with contents `items` under `limit` holds after `frame` was
/// offered to it: a full queue drops the newcomer.
pub open spec fn after_offer(items: Seq<Frame>, limit: nat, frame: Frame) -> Seq<Frame> {
    if full_at(items.len(), limit) {
        items
    } else {
        items.push(frame)
    }
}

/// What a queue with contents `items` holds after its head was taken.
pub open spec fn after_take(items: Seq<Frame>) -> Seq<Frame> {
    if items.len() > 0 {
        items.subrange(1, items.len() as int)
    } else {
        items
    }
}

/// The frame at the head of `items`, if there is one.
pub open spec fn head_of(items: Seq<Frame>) -> Option<Frame> {
    if items.len() > 0 {
        Some(items[0])
    } else {
        None
    }
}

/// Frames that wait in one direction, oldest first. At most `limit` frames
/// wait at a time; a limit of zero sets no bound.
pub struct LossyQueue {
    items: VecDeque<Frame>,
    limit: usize,
}

impl View for LossyQueue {
    type V = Seq<Frame>;

    /// The waiting frames, oldest first.
    closed spec fn view(&self) -> Seq<Frame> {
        self.items@
    }
}

impl LossyQueue {
    #[verifier::type_invariant]
    spec fn inv(&self) -> bool {
        self.limit > 0 ==> self.items@.len() <= self.limit
    }

    /// The bound on the number of waiting frames; zero for none.
    pub closed spec fn limit(&self) -> nat {
        self.limit as nat
    }

    /// An empty queue under `limit`.
    pub fn new(limit: usize) -> (queue: LossyQueue)
        ensures
            queue@ == Seq::<Frame>::empty(),
            queue.limit() == limit,
    {
        LossyQueue { items: VecDeque::new(), limit }
    }

    /// The number of waiting frames: never above a limit that is not zero.
    pub fn len(&self) -> (len: usize)
        ensures
            len == self@.len(),
            self.limit() > 0 ==> len <= self.limit(),
    {
        proof {
            use_type_invariant(self);
        }
        self.items.len()
    }

    /// Whether no frame waits.
    pub fn is_empty(&self) -> (empty: bool)
        ensures
            empty == (self@.len() == 0),
    {
        self.items.len() == 0
    }

    /// Whether the next frame offered would be dropped.
    pub fn is_full(&self) -> (full: bool)
        ensures
            full == full_at(self@.len(), self.limit()),
    {
        self.limit > 0 && self.items.len() >= self.limit
    }

    /// The bound that this queue was made with.
    pub fn capacity(&self) -> (limit: usize)
        ensures
            limit == self.limit(),
    {
        self.limit
    }

    /// Offers `frame` to the queue. A queue that is not full takes it as its
    /// newest frame; a full queue drops it and stays as it is. Returns
    /// whether the frame was taken.
    pub fn offer(&mut self, frame: Frame) -> (taken: bool)
        ensures
            taken == !full_at(old(self)@.len(), old(self).limit()),
            final(self)@ == after_offer(old(self)@, old(self).limit(), frame),
            final(self).limit() == old(self).limit(),
    {
        proof {
            use_type_invariant(&*self);
        }
        if self.limit > 0 && self.items.len() >= self.limit {
            false
        } else {
            let mut items = VecDeque::new();
            std::mem::swap(&mut items, &mut self.items);
            items.push_back(frame);
            self.items = items;
            true
        }
    }

    /// Takes the oldest frame out of the queue, if any frame waits.
    pub fn take(&mut self) -> (head: Option<Frame>)
        ensures
            head == head_of(old(self)@),
            final(self)@ == after_take(old(self)@),
            final(self).limit() == old(self).limit(),
    {
        proof {
            use_type_invariant(&*self);
        }
        let mut items = VecDeque::new();
        std::mem::swap(&mut items, &mut self.items);
        let head = items.pop_front();
        self.items = items;
        head
    }

    /// Discards every waiting frame.
    pub fn clear(&mut self)
        ensures
            final(self)@ == Seq::<Frame>::empty(),
            final(self).limit() == old(self).limit(),
    {
        self.items = VecDeque::new();
    }
}

} // verus!
