//! Frames on their way from the acquisition loop to the presentation loop.
//!
//! The acquisition side turns each buffer it reads into at most one event (empty
//! buffers are skipped). The presentation side keeps the frames it has been
//! handed in a first-in, first-out channel and takes them out in that order.

use vstd::prelude::*;
use std::collections::VecDeque;

verus! {

/// The event that carries one raw frame across to the presentation loop.
#[derive(Debug)]
pub enum UserEvent {
    /// A raw YUYV frame, as read from the source.
    NewImage(Vec<u8>),
}

/// The event for a buffer just read from the source: none for an empty buffer,
/// otherwise a `NewImage` that carries the buffer unchanged.
pub fn frame_event(buf: Vec<u8>) -> (r: Option<UserEvent>)
    ensures
        match r {
            Some(UserEvent::NewImage(frame)) => buf@.len() > 0 && frame@ == buf@,
            None => buf@.len() == 0,
        },
{
    if buf.len() == 0 {
        None
    } else {
        Some(UserEvent::NewImage(buf))
    }
}

/// A first-in, first-out queue of raw frames, with no bound and no dropping.
pub struct FrameChannel {
    queue: VecDeque<Vec<u8>>,
}

impl View for FrameChannel {
    type V = Seq<Seq<u8>>;

    /// The frames waiting, oldest first.
    closed spec fn view(&self) -> Seq<Seq<u8>> {
        self.queue@.map_values(|f: Vec<u8>| f@)
    }
}

impl FrameChannel {
    /// An empty channel.
    pub fn new() -> (r: FrameChannel)
        ensures
            r@ == Seq::<Seq<u8>>::empty(),
    {
        let r = FrameChannel { queue: VecDeque::new() };
        assert(r@ =~= Seq::<Seq<u8>>::empty());
        r
    }

    /// Enqueues `frame` behind every frame already waiting.
    pub fn send(&mut self, frame: Vec<u8>)
        ensures
            final(self)@ == old(self)@.push(frame@),
    {
        self.queue.push_back(frame);
        assert(self@ =~= old(self)@.push(frame@));
    }

    /// Takes out the oldest waiting frame, or `None` when none waits.
    pub fn recv(&mut self) -> (r: Option<Vec<u8>>)
        ensures
            match r {
                Some(frame) => old(self)@.len() > 0 && frame@ == old(self)@[0] && final(self)@
                    == old(self)@.drop_first(),
                None => old(self)@.len() == 0 && final(self)@ == old(self)@,
            },
    {
        let r = self.queue.pop_front();
        assert(self@ =~= old(self)@.subrange(1, old(self)@.len() as int) || r is None);
        r
    }

    /// The number of frames waiting.
    pub fn len(&self) -> (r: usize)
        ensures
            r == self@.len(),
    {
        self.queue.len()
    }

    /// Whether no frame waits.
    pub fn is_empty(&self) -> (r: bool)
        ensures
            r == (self@.len() == 0),
    {
        self.queue.len() == 0
    }
}

/// Sending keeps order: sending `frames` one after another (each `send` pushes at
/// the back) to a channel holding `waiting` leaves `waiting` followed by
/// `frames`, which `recv` then hands out from the front.
pub proof fn lemma_fifo_order(waiting: Seq<Seq<u8>>, frames: Seq<Seq<u8>>)
    ensures
        frames.fold_left(waiting, |q: Seq<Seq<u8>>, f: Seq<u8>| q.push(f)) == waiting + frames,
    decreases frames.len(),
{
    if frames.len() > 0 {
        let init = frames.drop_last();
        lemma_fifo_order(waiting, init);
        assert(waiting + frames =~= (waiting + init).push(frames.last()));
    } else {
        assert(waiting + frames =~= waiting);
    }
}

} // verus!
