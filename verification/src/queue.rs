//! A bounded first-in, first-out queue of frames waiting to be written to one
//! socket.
//!
//! The same queue serves as the outbound side of every client connection and
//! as the write half of the upstream link. When a queue is full, the frame
//! that is offered is the one that is dropped: what is already queued stays,
//! in its order, and memory stays bounded by the capacity.

use vstd::prelude::*;
use crate::frame::{Frame, FrameView};

verus! {

/// Frames waiting for one socket, oldest first, never more than the capacity.
#[derive(Debug)]
pub struct OutboundQueue {
    capacity: usize,
    frames: Vec<Frame>,
}

impl View for OutboundQueue {
    type V = Seq<FrameView>;

    closed spec fn view(&self) -> Seq<FrameView> {
        self.frames.deep_view()
    }
}

impl OutboundQueue {
    /// The most frames that the queue holds at a time.
    pub closed spec fn limit(&self) -> nat {
        self.capacity as nat
    }

    /// The invariant of every queue.
    pub open spec fn wf(&self) -> bool {
        self@.len() <= self.limit()
    }

    /// An empty queue that holds up to `capacity` frames.
    pub fn new(capacity: usize) -> (queue: OutboundQueue)
        ensures
            queue.wf(),
            queue@ == Seq::<FrameView>::empty(),
            queue.limit() == capacity,
    {
        let queue = OutboundQueue { capacity, frames: Vec::new() };
        queue
    }

    pub fn capacity(&self) -> (capacity: usize)
        ensures
            capacity == self.limit(),
    {
        self.capacity
    }

    pub fn len(&self) -> (len: usize)
        ensures
            len == self@.len(),
    {
        self.frames.len()
    }

    pub fn is_empty(&self) -> (empty: bool)
        ensures
            empty == (self@.len() == 0),
    {
        self.frames.len() == 0
    }

    pub fn is_full(&self) -> (full: bool)
        ensures
            full == (self@.len() >= self.limit()),
    {
        self.frames.len() >= self.capacity
    }

    /// Puts `frame` at the back of the queue if there is room for it, and
    /// says whether there was. A full queue is left as it is.
    pub fn offer(&mut self, frame: Frame) -> (accepted: bool)
        requires
            old(self).wf(),
        ensures
            final(self).wf(),
            final(self).limit() == old(self).limit(),
            accepted == (old(self)@.len() < old(self).limit()),
            final(self)@ == if accepted {
                old(self)@.push(frame@)
            } else {
                old(self)@
            },
    {
        if self.frames.len() >= self.capacity {
            return false;
        }
        self.frames.push(frame);
        true
    }

    /// Takes the oldest frame out of the queue, if there is one.
    pub fn take_next(&mut self) -> (next: Option<Frame>)
        requires
            old(self).wf(),
        ensures
            final(self).wf(),
            final(self).limit() == old(self).limit(),
            match next {
                Some(frame) => {
                    &&& old(self)@.len() > 0
                    &&& frame@ == old(self)@.first()
                    &&& final(self)@ == old(self)@.drop_first()
                },
                None => {
                    &&& old(self)@.len() == 0
                    &&& final(self)@ == old(self)@
                },
            },
    {
        if self.frames.len() == 0 {
            return None;
        }
        let frame = self.frames.remove(0);
        Some(frame)
    }

    /// Takes every queued frame out, oldest first, and leaves the queue empty.
    pub fn drain(&mut self) -> (taken: Vec<Frame>)
        requires
            old(self).wf(),
        ensures
            final(self).wf(),
            final(self).limit() == old(self).limit(),
            taken.deep_view() == old(self)@,
            final(self)@ == Seq::<FrameView>::empty(),
    {
        let mut taken: Vec<Frame> = Vec::new();
        std::mem::swap(&mut taken, &mut self.frames);
        taken
    }
}

} // verus!
