//! Setting up playback and recording: the output format asked of the
//! device, the size of the queue between renderer and device, what to do
//! about instrument sounds that could not be loaded, and the progress shown
//! while recording.

use vstd::prelude::*;

use crate::stream::AUDIO_CHUNK_SIZE;

verus! {

/// The most channels the player writes: stereo.
pub const MAX_OUTPUT_CHANNELS: u16 = 2;

/// The highest sample rate the player renders at.
pub const MAX_OUTPUT_SAMPLE_RATE: u32 = 48000;

/// The highest volume, in percent, that playing and recording accept.
pub const MAX_VOLUME_PERCENT: u8 = 200;

/// How long, in seconds, the queue between renderer and device can hold.
pub const QUEUE_SECONDS: usize = 10;

/// The output format the player asks for, given the device's own.
#[derive(Clone, Copy, Debug, PartialEq, Eq, Structural)]
pub struct OutputPlan {
    /// The device has a single channel: the renderer's stereo frames are
    /// mixed down to one sample each.
    pub mono: bool,
    pub channels: u16,
    pub sample_rate: u32,
}

/// Fits the device's default format to what the renderer produces: at most
/// two channels and at most 48000 samples a second.
pub fn plan_output(channels: u16, sample_rate: u32) -> (res: OutputPlan)
    ensures
        res.mono == (channels == 1),
        res.channels == if channels <= MAX_OUTPUT_CHANNELS {
            channels
        } else {
            MAX_OUTPUT_CHANNELS
        },
        res.sample_rate == if sample_rate <= MAX_OUTPUT_SAMPLE_RATE {
            sample_rate
        } else {
            MAX_OUTPUT_SAMPLE_RATE
        },
{
    OutputPlan {
        mono: channels == 1,
        channels: if channels <= MAX_OUTPUT_CHANNELS {
            channels
        } else {
            MAX_OUTPUT_CHANNELS
        },
        sample_rate: if sample_rate <= MAX_OUTPUT_SAMPLE_RATE {
            sample_rate
        } else {
            MAX_OUTPUT_SAMPLE_RATE
        },
    }
}

/// The number of chunks the queue between renderer and device holds: about
/// ten seconds of output, rounded down to whole chunks per second.
pub open spec fn queue_capacity_spec(sample_rate: nat, channels: nat) -> nat {
    (sample_rate * channels / (AUDIO_CHUNK_SIZE as nat)) * (QUEUE_SECONDS as nat)
}

pub fn queue_capacity(sample_rate: u32, channels: u16) -> (res: usize)
    requires
        sample_rate as nat * channels as nat <= usize::MAX,
    ensures
        res == queue_capacity_spec(sample_rate as nat, channels as nat),
{
    let samples_per_second: usize = sample_rate as usize * channels as usize;
    let per_chunk: usize = samples_per_second / AUDIO_CHUNK_SIZE;
    assert(per_chunk * 10 <= samples_per_second) by (nonlinear_arith)
        requires
            per_chunk == samples_per_second / 1024,
    ;
    per_chunk * QUEUE_SECONDS
}

/// The queue holds no more than ten seconds of output, and falls short of
/// them by less than ten chunks.
pub proof fn queue_holds_about_ten_seconds(sample_rate: nat, channels: nat)
    ensures
        queue_capacity_spec(sample_rate, channels) * AUDIO_CHUNK_SIZE <= QUEUE_SECONDS
            * sample_rate * channels,
        QUEUE_SECONDS * sample_rate * channels < (queue_capacity_spec(sample_rate, channels)
            + QUEUE_SECONDS) * AUDIO_CHUNK_SIZE,
{
    let x = sample_rate * channels;
    let q = x / 1024;
    assert(q * 1024 <= x && x < q * 1024 + 1024) by (nonlinear_arith)
        requires
            q == x / 1024,
    ;
    assert(10 * sample_rate * channels == 10 * x) by (nonlinear_arith)
        requires
            x == sample_rate * channels,
    ;
}

/// How long, in seconds, the sample queue of the sample-queue mode holds.
pub const SAMPLE_QUEUE_SECONDS: usize = 60;

/// The largest count of samples that single precision holds exactly.
pub const EXACT_SINGLE_LIMIT: u64 = 16777216;

/// The number of samples the queue of the sample-queue mode holds: a minute
/// of output. The player computes it in single precision and rounds down,
/// which gives this count wherever the count lies below 2^24.
pub fn sample_queue_capacity(sample_rate: u32, channels: u16) -> (res: usize)
    requires
        sample_rate as nat * channels as nat * 60 <= EXACT_SINGLE_LIMIT,
    ensures
        res == sample_rate as nat * channels as nat * 60,
{
    let samples_per_second: usize = sample_rate as usize * channels as usize;
    samples_per_second * SAMPLE_QUEUE_SECONDS
}

/// Every output format the player plans gives a sample-queue size that
/// single precision holds exactly.
pub proof fn planned_formats_fit_sample_queue(plan: OutputPlan)
    requires
        plan.channels <= MAX_OUTPUT_CHANNELS,
        plan.sample_rate <= MAX_OUTPUT_SAMPLE_RATE,
    ensures
        plan.sample_rate as nat * plan.channels as nat * 60 <= EXACT_SINGLE_LIMIT,
{
    assert(plan.sample_rate as nat * plan.channels as nat <= 96000) by (nonlinear_arith)
        requires
            plan.channels <= 2,
            plan.sample_rate <= 48000,
    ;
}

/// How a missing instrument sound is reported.
#[derive(Clone, Copy, Debug, PartialEq, Eq, Structural)]
pub enum Severity {
    Error,
    Warning,
}

/// In strict mode a missing instrument sound is an error, else a warning.
pub fn missing_audio_severity(strict: bool) -> (res: Severity)
    ensures
        res == if strict {
            Severity::Error
        } else {
            Severity::Warning
        },
{
    if strict {
        Severity::Error
    } else {
        Severity::Warning
    }
}

/// Playback stops before it starts exactly when it is strict and some
/// instrument sound is missing.
pub fn must_abort_for_missing_audio(strict: bool, missing: usize) -> (res: bool)
    ensures
        res == (strict && missing > 0),
{
    strict && missing > 0
}

/// The progress shown while recording: the tick last shown, and in all how
/// far the bar has been moved from where it started.
pub struct ProgressView {
    pub start: u64,
    pub shown: u64,
    pub moved: nat,
}

/// Follows the renderer's tick to move the progress bar of a recording.
pub struct RecordingProgress {
    shown: u64,
    start: Ghost<u64>,
    moved: Ghost<nat>,
}

impl View for RecordingProgress {
    type V = ProgressView;

    closed spec fn view(&self) -> ProgressView {
        ProgressView { start: self.start@, shown: self.shown, moved: self.moved@ }
    }
}

impl RecordingProgress {
    /// The bar is first put at the renderer's starting tick.
    pub fn new(start: u64) -> (res: RecordingProgress)
        ensures
            res@ == (ProgressView { start, shown: start, moved: 0 }),
    {
        RecordingProgress { shown: start, start: Ghost(start), moved: Ghost(0) }
    }

    /// The tick the bar shows.
    pub fn shown(&self) -> (res: u64)
        ensures
            res == self@.shown,
    {
        self.shown
    }

    /// The renderer is at `current`: answers how far to move the bar, if at
    /// all. The tick of a recording never goes back.
    pub fn advance(&mut self, current: u64) -> (res: Option<u64>)
        requires
            old(self)@.shown <= current,
        ensures
            res == if current == old(self)@.shown {
                None::<u64>
            } else {
                Some((current - old(self)@.shown) as u64)
            },
            final(self)@ == (ProgressView {
                shown: current,
                moved: old(self)@.moved + (current - old(self)@.shown) as nat,
                ..old(self)@
            }),
    {
        if current != self.shown {
            let step = current - self.shown;
            proof {
                self.moved = Ghost(self.moved@ + step as nat);
            }
            self.shown = current;
            Some(step)
        } else {
            None
        }
    }
}

/// The bar always stands at the tick the renderer reached: where it started,
/// moved by the sum of all moves.
pub proof fn progress_follows_ticks(p: ProgressView, current: u64)
    requires
        p.start + p.moved == p.shown,
        p.shown <= current,
    ensures
        ({
            let next = ProgressView {
                shown: current,
                moved: p.moved + (current - p.shown) as nat,
                ..p
            };
            next.start + next.moved == next.shown
        }),
{
}

} // verus!
