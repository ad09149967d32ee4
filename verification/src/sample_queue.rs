//! The producer side of playback through a queue of single samples, as the
//! player's sample-queue mode has it: a fixed buffer is filled with rendered
//! frames, as much of it as the queue takes is pushed, and what the queue did
//! not take is moved to the front of the buffer for the next round.

use vstd::prelude::*;

verus! {

/// The number of samples the producer renders into before pushing.
pub const SAMPLE_BUFFER_LEN: usize = 1024;

/// What the producer thread does next.
#[derive(Clone, Copy, Debug, PartialEq, Eq, Structural)]
pub enum ProducerAction {
    /// The song is over and everything rendered was pushed.
    Stop,
    /// The queue is full: yield and ask again.
    Wait,
    /// Render up to `frames` frames into the buffer from position `start`.
    Render { start: usize, frames: usize },
}

/// The producer's bookkeeping: how many samples from the last round wait at
/// the front of the buffer, whether the renderer has ended, how many samples
/// make a frame, and how many samples the current round has ready to push.
pub struct ProducerView {
    pub remaining: usize,
    pub ended: bool,
    pub frame_len: usize,
    pub produced: usize,
}

impl ProducerView {
    pub open spec fn consistent(self) -> bool {
        &&& 1 <= self.frame_len <= 2
        &&& self.remaining <= SAMPLE_BUFFER_LEN
        &&& self.produced <= SAMPLE_BUFFER_LEN
    }

    /// The next action at the start of a round, given whether the queue is full.
    pub open spec fn round_action(self, queue_full: bool) -> ProducerAction {
        if self.ended && self.remaining == 0 {
            ProducerAction::Stop
        } else if queue_full {
            ProducerAction::Wait
        } else {
            ProducerAction::Render {
                start: self.remaining,
                frames: ((SAMPLE_BUFFER_LEN - self.remaining) / (self.frame_len as int)) as usize,
            }
        }
    }
}

/// Decides the rounds of the sample-queue producer.
pub struct SampleProducer {
    remaining: usize,
    ended: bool,
    frame_len: usize,
    produced: usize,
}

impl View for SampleProducer {
    type V = ProducerView;

    closed spec fn view(&self) -> ProducerView {
        ProducerView {
            remaining: self.remaining,
            ended: self.ended,
            frame_len: self.frame_len,
            produced: self.produced,
        }
    }
}

impl SampleProducer {
    /// A producer for a device with the given number of channels: one sample
    /// a frame for a single channel, else two.
    pub fn new(mono: bool) -> (res: SampleProducer)
        ensures
            res@ == (ProducerView {
                remaining: 0,
                ended: false,
                frame_len: if mono {
                    1
                } else {
                    2
                },
                produced: 0,
            }),
            res@.consistent(),
    {
        SampleProducer {
            remaining: 0,
            ended: false,
            frame_len: if mono {
                1
            } else {
                2
            },
            produced: 0,
        }
    }

    pub fn round_action(&self, queue_full: bool) -> (res: ProducerAction)
        requires
            self@.consistent(),
        ensures
            res == self@.round_action(queue_full),
    {
        if self.ended && self.remaining == 0 {
            ProducerAction::Stop
        } else if queue_full {
            ProducerAction::Wait
        } else {
            ProducerAction::Render {
                start: self.remaining,
                frames: (SAMPLE_BUFFER_LEN - self.remaining) / self.frame_len,
            }
        }
    }

    /// The renderer wrote `frames` frames, and `ended` tells whether it ran
    /// out before filling all the frames it was asked for.
    pub fn rendered(&mut self, frames: usize, ended: bool)
        requires
            old(self)@.consistent(),
            old(self)@.round_action(false) matches ProducerAction::Render { frames: asked, .. }
                && frames <= asked && (!ended ==> frames == asked),
        ensures
            final(self)@ == (ProducerView {
                produced: (old(self)@.remaining + frames * old(self)@.frame_len) as usize,
                ended: old(self)@.ended || ended,
                ..old(self)@
            }),
            final(self)@.consistent(),
    {
        let asked = (SAMPLE_BUFFER_LEN - self.remaining) / self.frame_len;
        assert(frames * self.frame_len <= SAMPLE_BUFFER_LEN - self.remaining) by (nonlinear_arith)
            requires
                frames <= asked,
                asked == (SAMPLE_BUFFER_LEN - self.remaining) / (self.frame_len as int),
                1 <= self.frame_len,
                self.remaining <= SAMPLE_BUFFER_LEN,
        ;
        self.produced = self.remaining + frames * self.frame_len;
        self.ended = self.ended || ended;
    }

    /// The queue took `accepted` of the samples pushed. Answers the place in
    /// the buffer from which samples are moved to the front: the last
    /// `remaining` places of the buffer. These are the samples the queue did
    /// not take only in a round that filled the whole buffer; in a shorter
    /// round (the renderer ended, or a stereo round after an odd leftover)
    /// the places moved are not those samples, so some are lost and others
    /// repeated.
    pub fn pushed(&mut self, accepted: usize) -> (from: usize)
        requires
            old(self)@.consistent(),
            accepted <= old(self)@.produced,
        ensures
            final(self)@ == (ProducerView {
                remaining: (old(self)@.produced - accepted) as usize,
                ..old(self)@
            }),
            from == SAMPLE_BUFFER_LEN - final(self)@.remaining,
            final(self)@.consistent(),
    {
        self.remaining = self.produced - accepted;
        SAMPLE_BUFFER_LEN - self.remaining
    }
}

/// In a round that filled the whole buffer, the samples moved to the front
/// are exactly those the queue did not take, so none is lost or repeated.
pub proof fn full_round_keeps_unsent_tail(produced: usize, accepted: usize)
    requires
        produced == SAMPLE_BUFFER_LEN,
        accepted <= produced,
    ensures
        SAMPLE_BUFFER_LEN - (produced - accepted) == accepted,
{
}

/// With nothing left over, a round starts with the whole buffer to render
/// into, in whole frames.
pub proof fn empty_round_renders_whole_buffer(p: ProducerView)
    requires
        p.consistent(),
        p.remaining == 0,
        !p.ended,
    ensures
        p.round_action(false) matches ProducerAction::Render { start, frames } && start == 0
            && frames * p.frame_len == SAMPLE_BUFFER_LEN,
{
    if p.frame_len == 1 {
        assert(1024int / 1 == 1024);
    } else {
        assert(p.frame_len == 2);
        assert(1024int / 2 == 512);
    }
}

} // verus!
