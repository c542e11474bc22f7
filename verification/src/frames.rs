//! Bounded queues of Ethernet frames.
use std::collections::VecDeque;

use vstd::prelude::*;
use vstd::std_specs::vecdeque::VecDequeAdditionalSpecFns;

use crate::bytes::slice_of;

verus! {

/// A queue that drops its oldest frame when it is full.
#[derive(Debug)]
pub struct FrameQueue {
    pub frames: VecDeque<Vec<u8>>,
}

impl View for FrameQueue {
    type V = Seq<Seq<u8>>;

    open spec fn view(&self) -> Seq<Seq<u8>> {
        self.frames@.map_values(|frame: Vec<u8>| frame@)
    }
}

/// A queue of at most `cap` frames with one more.
pub open spec fn enqueued(queue: Seq<Seq<u8>>, cap: nat, frame: Seq<u8>) -> Seq<Seq<u8>> {
    if queue.len() == cap && cap > 0 {
        queue.subrange(1, queue.len() as int).push(frame)
    } else {
        queue.push(frame)
    }
}

impl FrameQueue {
    /// An empty queue.
    pub fn new() -> (queue: FrameQueue)
        ensures
            queue@ == Seq::<Seq<u8>>::empty(),
    {
        let queue = FrameQueue { frames: VecDeque::new() };
        assert(queue@ =~= Seq::empty());
        queue
    }

    /// Add a frame; the oldest one makes room where there are `cap`.
    pub fn push(&mut self, cap: usize, frame: Vec<u8>)
        requires
            cap > 0,
        ensures
            final(self)@ == enqueued(old(self)@, cap as nat, frame@),
    {
        if self.frames.len() == cap {
            let _oldest = self.frames.pop_front();
        }
        self.frames.push_back(frame);
        assert(self@ =~= enqueued(old(self)@, cap as nat, frame@));
    }

    /// Take the oldest frame.
    pub fn pop(&mut self) -> (frame: Option<Vec<u8>>)
        ensures
            match frame {
                Some(frame) => {
                    &&& old(self)@.len() > 0
                    &&& frame@ == old(self)@[0]
                    &&& final(self)@ == old(self)@.subrange(1, old(self)@.len() as int)
                },
                None => old(self)@.len() == 0 && final(self)@ == old(self)@,
            },
    {
        let frame = self.frames.pop_front();
        proof {
            if old(self)@.len() > 0 {
                assert(self@ =~= old(self)@.subrange(1, old(self)@.len() as int));
            } else {
                assert(self@ =~= old(self)@);
            }
        }
        frame
    }
}

/// The part of a frame that a receive buffer of `room` bytes takes.
pub fn cut(frame: Vec<u8>, room: u64) -> (part: Vec<u8>)
    ensures
        part@ == if frame@.len() <= room {
            frame@
        } else {
            frame@.subrange(0, room as int)
        },
{
    if frame.len() as u64 <= room {
        frame
    } else {
        slice_of(&frame, 0, room as usize)
    }
}

/// A full queue keeps its newest frames: after an addition the queue is never longer
/// than the bound, its last frame is the new one, and only the oldest can have left.
pub proof fn law_newest_wins(queue: Seq<Seq<u8>>, cap: nat, frame: Seq<u8>)
    requires
        cap > 0,
        queue.len() <= cap,
    ensures
        enqueued(queue, cap, frame).len() <= cap,
        enqueued(queue, cap, frame).last() == frame,
        queue.len() < cap ==> enqueued(queue, cap, frame).drop_last() == queue,
        queue.len() == cap ==> enqueued(queue, cap, frame).drop_last() == queue.subrange(
            1,
            queue.len() as int,
        ),
{
    if queue.len() < cap {
        assert(enqueued(queue, cap, frame).drop_last() =~= queue);
    } else {
        assert(enqueued(queue, cap, frame).drop_last() =~= queue.subrange(1, queue.len() as int));
    }
}

} // verus!
