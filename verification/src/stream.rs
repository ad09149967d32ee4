//! Handing rendered audio from a queue of fixed-size chunks to the output
//! device, one device buffer at a time.
//!
//! The audio callback asks a [`PlaybackCursor`] what to do next and reports
//! back what happened: take a chunk from the queue, copy a run of samples
//! from the current chunk into the device buffer, or stop. The cursor keeps
//! the place in the current chunk across callbacks, so the device receives
//! the rendered samples in order, each exactly once.

use vstd::prelude::*;

verus! {

/// The number of samples in one rendered chunk. It is even, so that a chunk
/// holds whole stereo frames.
pub const AUDIO_CHUNK_SIZE: usize = 1024;

/// Output ticks start at a value no song reaches, so that the first chunk's
/// tick is always reported.
pub const NO_TICK: u64 = 0xffff_ffff_ffff_ffff;

/// A chunk holds whole stereo frames.
pub proof fn chunk_holds_whole_frames()
    ensures
        AUDIO_CHUNK_SIZE % 2 == 0,
        AUDIO_CHUNK_SIZE > 0,
{
}

/// What the audio callback does next.
#[derive(Clone, Copy, Debug, PartialEq, Eq, Structural)]
pub enum CursorAction {
    /// Take the next chunk from the queue.
    Pop,
    /// Copy `len` samples from position `from` of the current chunk to
    /// position `to` of the device buffer.
    Copy { from: usize, to: usize, len: usize },
    /// The device buffer is served for this call.
    Done,
}

/// The cursor as numbers: the place in the current chunk, how much of the
/// device buffer is filled, whether the queue ran dry during this call, the
/// last tick reported, how many chunks were taken and how many samples were
/// read from them in all.
pub struct CursorView {
    pub took: usize,
    pub filled: usize,
    pub out_len: usize,
    pub starved: bool,
    pub last_tick: u64,
    pub chunks: nat,
    pub read: nat,
}

impl CursorView {
    /// The next action, as the callback loop of the player decides it.
    pub open spec fn next_action(self) -> CursorAction {
        if self.filled >= self.out_len || self.starved {
            CursorAction::Done
        } else if self.took >= AUDIO_CHUNK_SIZE {
            CursorAction::Pop
        } else {
            let len = if AUDIO_CHUNK_SIZE - self.took <= self.out_len - self.filled {
                AUDIO_CHUNK_SIZE - self.took
            } else {
                self.out_len - self.filled
            };
            CursorAction::Copy { from: self.took, to: self.filled, len: len as usize }
        }
    }

    /// The cursor's numbers agree: the place in a chunk never passes its end,
    /// the device buffer is never overfilled, and every sample read so far
    /// lies in a chunk already taken, all chunks before the current one
    /// having been read to their end.
    pub open spec fn consistent(self) -> bool {
        &&& self.took <= AUDIO_CHUNK_SIZE
        &&& self.filled <= self.out_len
        &&& self.read + AUDIO_CHUNK_SIZE == self.chunks * AUDIO_CHUNK_SIZE + self.took
    }
}

/// The position in the rendered audio from which the playback callback
/// reads, kept across calls.
pub struct PlaybackCursor {
    took: usize,
    filled: usize,
    out_len: usize,
    starved: bool,
    last_tick: u64,
    chunks: Ghost<nat>,
    read: Ghost<nat>,
}

impl View for PlaybackCursor {
    type V = CursorView;

    closed spec fn view(&self) -> CursorView {
        CursorView {
            took: self.took,
            filled: self.filled,
            out_len: self.out_len,
            starved: self.starved,
            last_tick: self.last_tick,
            chunks: self.chunks@,
            read: self.read@,
        }
    }
}

impl PlaybackCursor {
    /// A cursor before the first chunk: nothing taken, nothing read, and no
    /// tick reported.
    pub fn new() -> (res: PlaybackCursor)
        ensures
            res@ == (CursorView {
                took: AUDIO_CHUNK_SIZE,
                filled: 0,
                out_len: 0,
                starved: false,
                last_tick: NO_TICK,
                chunks: 0,
                read: 0,
            }),
            res@ == initial_cursor(),
            res@.consistent(),
    {
        PlaybackCursor {
            took: AUDIO_CHUNK_SIZE,
            filled: 0,
            out_len: 0,
            starved: false,
            last_tick: NO_TICK,
            chunks: Ghost(0),
            read: Ghost(0),
        }
    }

    /// Whether playback is over: the current chunk is read to its end, the
    /// queue is empty, and the producer has gone away.
    pub fn finished(&self, queue_empty: bool, producer_gone: bool) -> (res: bool)
        ensures
            res == (self@.took >= AUDIO_CHUNK_SIZE && queue_empty && producer_gone),
    {
        self.took >= AUDIO_CHUNK_SIZE && queue_empty && producer_gone
    }

    /// Starts serving a device buffer of `out_len` samples.
    pub fn begin(&mut self, out_len: usize)
        requires
            old(self)@.consistent(),
        ensures
            final(self)@ == (CursorView { filled: 0, out_len: out_len, starved: false, ..old(self)@ }),
            final(self)@ == apply_event(old(self)@, CursorEvent::Begin(out_len)),
            final(self)@.consistent(),
    {
        self.filled = 0;
        self.out_len = out_len;
        self.starved = false;
    }

    /// What the callback does next.
    pub fn next_action(&self) -> (res: CursorAction)
        requires
            self@.consistent(),
        ensures
            res == self@.next_action(),
    {
        if self.filled >= self.out_len || self.starved {
            CursorAction::Done
        } else if self.took >= AUDIO_CHUNK_SIZE {
            CursorAction::Pop
        } else {
            let room = self.out_len - self.filled;
            let rest = AUDIO_CHUNK_SIZE - self.took;
            let len = if rest <= room {
                rest
            } else {
                room
            };
            CursorAction::Copy { from: self.took, to: self.filled, len }
        }
    }

    /// A chunk was taken from the queue: reading starts at its beginning.
    pub fn chunk_taken(&mut self)
        requires
            old(self)@.consistent(),
            old(self)@.next_action() == CursorAction::Pop,
        ensures
            final(self)@ == (CursorView { took: 0, chunks: old(self)@.chunks + 1, ..old(self)@ }),
            final(self)@ == apply_event(old(self)@, CursorEvent::ChunkTaken),
            final(self)@.consistent(),
    {
        self.took = 0;
        proof {
            self.chunks = Ghost(self.chunks@ + 1);
        }
    }

    /// The queue had no chunk: this call ends with the rest of the device
    /// buffer silent.
    pub fn queue_empty(&mut self)
        requires
            old(self)@.consistent(),
        ensures
            final(self)@ == (CursorView { starved: true, ..old(self)@ }),
            final(self)@ == apply_event(old(self)@, CursorEvent::QueueEmpty),
            final(self)@.consistent(),
    {
        self.starved = true;
    }

    /// The copy that `next_action` asked for was made.
    pub fn copied(&mut self)
        requires
            old(self)@.consistent(),
            old(self)@.next_action() is Copy,
        ensures
            ({
                let len = old(self)@.next_action()->len as nat;
                final(self)@ == (CursorView {
                    took: (old(self)@.took + len) as usize,
                    filled: (old(self)@.filled + len) as usize,
                    read: old(self)@.read + len,
                    ..old(self)@
                })
            }),
            final(self)@ == apply_event(old(self)@, CursorEvent::Copied),
            final(self)@.consistent(),
    {
        let room = self.out_len - self.filled;
        let rest = AUDIO_CHUNK_SIZE - self.took;
        let len = if rest <= room {
            rest
        } else {
            room
        };
        self.took = self.took + len;
        self.filled = self.filled + len;
        proof {
            self.read = Ghost(self.read@ + len as nat);
        }
    }

    /// Notes the tick of the chunk being read; answers whether it differs
    /// from the last one reported, which it then becomes.
    pub fn note_tick(&mut self, tick: u64) -> (changed: bool)
        ensures
            changed == (tick != old(self)@.last_tick),
            final(self)@ == (CursorView { last_tick: tick, ..old(self)@ }),
    {
        let changed = self.last_tick != tick;
        self.last_tick = tick;
        changed
    }
}

/// What the thread that renders chunks does next.
#[derive(Clone, Copy, Debug, PartialEq, Eq, Structural)]
pub enum ChunkProducerStep {
    /// The renderer has ended and its last chunk was queued.
    Stop,
    /// The queue is full: sleep until the callback takes a chunk.
    Park,
    /// Render the next chunk and queue it.
    Render,
}

/// Decides the next step of the rendering thread, given whether the renderer
/// ended while filling the last chunk queued and whether the queue is full.
pub fn chunk_producer_step(ended: bool, queue_full: bool) -> (res: ChunkProducerStep)
    ensures
        res == if ended {
            ChunkProducerStep::Stop
        } else if queue_full {
            ChunkProducerStep::Park
        } else {
            ChunkProducerStep::Render
        },
{
    if ended {
        ChunkProducerStep::Stop
    } else if queue_full {
        ChunkProducerStep::Park
    } else {
        ChunkProducerStep::Render
    }
}

/// Each copy takes samples from where the last one stopped: from the current
/// position in the chunk, into the next free place of the device buffer, and
/// at least one sample, within both. Counting the samples of all chunks taken
/// in a row, the copy starts at the first sample not yet read.
pub proof fn copies_are_contiguous(c: CursorView)
    requires
        c.consistent(),
        c.next_action() is Copy,
    ensures
        c.chunks >= 1,
        (c.chunks - 1) * AUDIO_CHUNK_SIZE + c.next_action()->from == c.read,
        c.next_action()->from == c.took,
        c.next_action()->to == c.filled,
        c.next_action()->len > 0,
        c.took + c.next_action()->len <= AUDIO_CHUNK_SIZE,
        c.filled + c.next_action()->len <= c.out_len,
{
}

/// A chunk is left only when all its samples have been read, and the next
/// chunk is then read from its first sample.
pub proof fn chunks_read_whole(c: CursorView)
    requires
        c.consistent(),
        c.next_action() == CursorAction::Pop,
    ensures
        c.took == AUDIO_CHUNK_SIZE,
        c.read == c.chunks * AUDIO_CHUNK_SIZE,
        (CursorView { took: 0, chunks: c.chunks + 1, ..c }).next_action() is Copy,
        (CursorView { took: 0, chunks: c.chunks + 1, ..c }).next_action()->from == 0,
{
}

/// A device buffer is left unfilled only when the queue ran dry.
pub proof fn done_means_full_or_starved(c: CursorView)
    requires
        c.consistent(),
        c.next_action() == CursorAction::Done,
    ensures
        c.filled == c.out_len || c.starved,
{
}

/// Playback is judged over only once the current chunk is read to its end,
/// so the last chunk is heard whole.
pub proof fn finish_only_after_whole_chunk(c: CursorView, queue_empty: bool, producer_gone: bool)
    requires
        c.consistent(),
        c.took >= AUDIO_CHUNK_SIZE && queue_empty && producer_gone,
    ensures
        c.took == AUDIO_CHUNK_SIZE,
        c.read == c.chunks * AUDIO_CHUNK_SIZE,
{
}

/// What the audio callback reports to the cursor.
pub enum CursorEvent {
    /// A device buffer of this many samples is to be served.
    Begin(usize),
    /// The chunk asked for was taken from the queue.
    ChunkTaken,
    /// The chunk asked for was not there.
    QueueEmpty,
    /// The copy asked for was made.
    Copied,
}

/// The cursor before the first chunk.
pub open spec fn initial_cursor() -> CursorView {
    CursorView {
        took: AUDIO_CHUNK_SIZE,
        filled: 0,
        out_len: 0,
        starved: false,
        last_tick: NO_TICK,
        chunks: 0,
        read: 0,
    }
}

/// The callback reports the event only where the cursor asked for it: a
/// chunk, taken or missing, after a `Pop`; a copy after a `Copy`.
pub open spec fn event_allowed(c: CursorView, e: CursorEvent) -> bool {
    match e {
        CursorEvent::Begin(_) => true,
        CursorEvent::ChunkTaken => c.next_action() == CursorAction::Pop,
        CursorEvent::QueueEmpty => c.next_action() == CursorAction::Pop,
        CursorEvent::Copied => c.next_action() is Copy,
    }
}

/// The cursor after an event, as its methods change it.
pub open spec fn apply_event(c: CursorView, e: CursorEvent) -> CursorView {
    match e {
        CursorEvent::Begin(n) => CursorView { filled: 0, out_len: n, starved: false, ..c },
        CursorEvent::ChunkTaken => CursorView { took: 0, chunks: c.chunks + 1, ..c },
        CursorEvent::QueueEmpty => CursorView { starved: true, ..c },
        CursorEvent::Copied => {
            let len = c.next_action()->len as nat;
            CursorView {
                took: (c.took + len) as usize,
                filled: (c.filled + len) as usize,
                read: c.read + len,
                ..c
            }
        },
    }
}

/// A sample sent to the device: the number of the device buffer, counting
/// from 1, the place in that buffer, and the sample's place in the rendered
/// stream (all chunks taken, one after the other).
pub struct Heard {
    pub buffer: nat,
    pub at: int,
    pub sample: int,
}

/// Every event of the run was one the cursor asked for.
pub open spec fn run_allowed(events: Seq<CursorEvent>) -> bool
    decreases events.len(),
{
    if events.len() == 0 {
        true
    } else {
        run_allowed(events.drop_last()) && event_allowed(
            run(events.drop_last()).0,
            events.last(),
        )
    }
}

/// The cursor after a run of events from the start, the device buffers
/// begun, and every sample sent to the device, in the order it was sent.
pub open spec fn run(events: Seq<CursorEvent>) -> (CursorView, nat, Seq<Heard>)
    decreases events.len(),
{
    if events.len() == 0 {
        (initial_cursor(), 0, Seq::empty())
    } else {
        let (c, buffers, heard) = run(events.drop_last());
        let e = events.last();
        let buffers2 = match e {
            CursorEvent::Begin(_) => buffers + 1,
            _ => buffers,
        };
        let heard2 = match (e, c.next_action()) {
            (CursorEvent::Copied, CursorAction::Copy { from, to, len }) => heard + Seq::new(
                len as nat,
                |j: int| Heard { buffer: buffers, at: to + j, sample: c.read + j },
            ),
            _ => heard,
        };
        (apply_event(c, e), buffers2, heard2)
    }
}

/// The samples sent over a run: the rendered stream from its first sample,
/// in order, each once; and each device buffer filled from its first place
/// onward without a gap, as far as the cursor's count of filled places.
pub open spec fn heard_in_order(c: CursorView, buffers: nat, heard: Seq<Heard>) -> bool {
    &&& heard.len() == c.read
    &&& forall|k: int| 0 <= k < heard.len() ==> (#[trigger] heard[k]).sample == k
    &&& forall|k: int|
        0 <= k < heard.len() ==> 1 <= (#[trigger] heard[k]).buffer <= buffers
    &&& forall|k: int|
        0 < k < heard.len() ==> (#[trigger] heard[k]).buffer >= heard[k - 1].buffer
    &&& forall|k: int|
        0 <= k < heard.len() ==> (#[trigger] heard[k]).at == if k == 0 || heard[k - 1].buffer
            != heard[k].buffer {
            0
        } else {
            heard[k - 1].at + 1
        }
    &&& if heard.len() > 0 && heard.last().buffer == buffers {
        heard.last().at + 1 == c.filled
    } else {
        c.filled == 0
    }
}

/// Over any run of callbacks, the device receives the rendered samples in
/// order, none lost and none repeated: the samples sent are the stream's
/// samples `0 .. read`, one after the other, and every chunk but the current
/// one was sent whole. Each device buffer is filled from its start without a
/// gap; what follows the filled places is silence.
pub proof fn stream_heard_in_order(events: Seq<CursorEvent>)
    requires
        run_allowed(events),
    ensures
        run(events).0.consistent(),
        heard_in_order(run(events).0, run(events).1, run(events).2),
        run(events).0.read + AUDIO_CHUNK_SIZE == run(events).0.chunks * AUDIO_CHUNK_SIZE
            + run(events).0.took,
    decreases events.len(),
{
    if events.len() == 0 {
    } else {
        let prefix = events.drop_last();
        stream_heard_in_order(prefix);
        let (c, buffers, heard) = run(prefix);
        let e = events.last();
        let (c2, buffers2, heard2) = run(events);
        assert(c2 == apply_event(c, e));
        match e {
            CursorEvent::Begin(n) => {
                assert(heard2 == heard);
                assert(buffers2 == buffers + 1);
            },
            CursorEvent::ChunkTaken => {
                assert(heard2 == heard);
            },
            CursorEvent::QueueEmpty => {
                assert(heard2 == heard);
            },
            CursorEvent::Copied => {
                copies_are_contiguous(c);
                let from = c.next_action()->from;
                let to = c.next_action()->to;
                let len = c.next_action()->len;
                let added = Seq::new(
                    len as nat,
                    |j: int| Heard { buffer: buffers, at: to + j, sample: c.read + j },
                );
                assert(heard2 == heard + added);
                assert forall|k: int| 0 <= k < heard2.len() implies (#[trigger] heard2[k]).sample
                    == k by {
                    if k >= heard.len() {
                        assert(heard2[k] == added[k - heard.len()]);
                    } else {
                        assert(heard2[k] == heard[k]);
                    }
                }
                assert forall|k: int|
                    0 <= k < heard2.len() implies 1 <= (#[trigger] heard2[k]).buffer
                    <= buffers2 by {
                    if k >= heard.len() {
                        assert(heard2[k] == added[k - heard.len()]);
                        assert(c.out_len > 0);
                        assert(buffers >= 1) by {
                            if buffers == 0 {
                                lemma_no_buffer_no_room(prefix);
                            }
                        }
                    } else {
                        assert(heard2[k] == heard[k]);
                    }
                }
                assert forall|k: int|
                    0 < k < heard2.len() implies (#[trigger] heard2[k]).buffer
                    >= heard2[k - 1].buffer by {
                    if k > heard.len() {
                        assert(heard2[k] == added[k - heard.len()]);
                        assert(heard2[k - 1] == added[k - 1 - heard.len()]);
                    } else if k == heard.len() {
                        assert(heard2[k] == added[0]);
                        assert(heard2[k - 1] == heard[k - 1]);
                    } else {
                        assert(heard2[k] == heard[k]);
                        assert(heard2[k - 1] == heard[k - 1]);
                    }
                }
                assert forall|k: int|
                    0 <= k < heard2.len() implies (#[trigger] heard2[k]).at == if k == 0
                        || heard2[k - 1].buffer != heard2[k].buffer {
                        0
                    } else {
                        heard2[k - 1].at + 1
                    } by {
                    if k > heard.len() {
                        assert(heard2[k] == added[k - heard.len()]);
                        assert(heard2[k - 1] == added[k - 1 - heard.len()]);
                    } else if k == heard.len() {
                        assert(heard2[k] == added[0]);
                        if k > 0 {
                            assert(heard2[k - 1] == heard[k - 1]);
                        }
                    } else {
                        assert(heard2[k] == heard[k]);
                        if k > 0 {
                            assert(heard2[k - 1] == heard[k - 1]);
                        }
                    }
                }
                assert(heard2.last() == added[len - 1]);
            },
        }
    }
}

/// Before the first device buffer is begun, the cursor has nothing to fill.
proof fn lemma_no_buffer_no_room(events: Seq<CursorEvent>)
    requires
        run(events).1 == 0,
    ensures
        run(events).0.out_len == 0,
    decreases events.len(),
{
    if events.len() > 0 {
        let prefix = events.drop_last();
        match events.last() {
            CursorEvent::Begin(_) => {},
            _ => {
                lemma_no_buffer_no_room(prefix);
            },
        }
    }
}

} // verus!
