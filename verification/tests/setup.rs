use nbs_cli::{
    missing_audio_severity, must_abort_for_missing_audio, plan_output, queue_capacity,
    sample_queue_capacity, OutputPlan, ProducerAction, RecordingProgress, SampleProducer, Severity,
    SAMPLE_BUFFER_LEN,
};

#[test]
fn output_plans() {
    assert_eq!(plan_output(1, 44100), OutputPlan { mono: true, channels: 1, sample_rate: 44100 });
    assert_eq!(plan_output(2, 96000), OutputPlan { mono: false, channels: 2, sample_rate: 48000 });
    assert_eq!(plan_output(6, 48000), OutputPlan { mono: false, channels: 2, sample_rate: 48000 });
}

#[test]
fn queue_sizes() {
    assert_eq!(queue_capacity(48000, 2), 930);
    assert_eq!(queue_capacity(44100, 1), 430);
    assert_eq!(queue_capacity(500, 1), 0);
    assert_eq!(sample_queue_capacity(48000, 2), 5_760_000);
}

#[test]
fn missing_audio() {
    assert_eq!(missing_audio_severity(true), Severity::Error);
    assert_eq!(missing_audio_severity(false), Severity::Warning);
    assert!(must_abort_for_missing_audio(true, 1));
    assert!(!must_abort_for_missing_audio(true, 0));
    assert!(!must_abort_for_missing_audio(false, 3));
}

#[test]
fn progress_follows_the_tick() {
    let mut p = RecordingProgress::new(5);
    assert_eq!(p.advance(5), None);
    assert_eq!(p.advance(9), Some(4));
    assert_eq!(p.advance(9), None);
    assert_eq!(p.advance(20), Some(11));
}

#[test]
fn sample_producer_rounds() {
    let mut p = SampleProducer::new(false);
    assert_eq!(p.round_action(true), ProducerAction::Wait);
    assert_eq!(p.round_action(false), ProducerAction::Render { start: 0, frames: 512 });
    p.rendered(512, false);
    // The queue takes 1000 of 1024 samples: the last 24 move to the front.
    assert_eq!(p.pushed(1000), SAMPLE_BUFFER_LEN - 24);
    assert_eq!(p.round_action(false), ProducerAction::Render { start: 24, frames: 500 });
    p.rendered(10, true);
    assert_eq!(p.pushed(44), SAMPLE_BUFFER_LEN);
    assert_eq!(p.round_action(false), ProducerAction::Stop);
}

#[test]
fn mono_producer_renders_one_sample_a_frame() {
    let p = SampleProducer::new(true);
    assert_eq!(p.round_action(false), ProducerAction::Render { start: 0, frames: 1024 });
}

#[test]
fn partial_round_keeps_end_of_buffer() {
    // The song ends after 50 stereo frames; the queue takes half of the 100
    // samples. What moves to the front is the last 50 places of the buffer,
    // not the 50 samples the queue did not take.
    let mut p = SampleProducer::new(false);
    assert_eq!(p.round_action(false), ProducerAction::Render { start: 0, frames: 512 });
    p.rendered(50, true);
    assert_eq!(p.pushed(50), SAMPLE_BUFFER_LEN - 50);
    assert_eq!(p.round_action(false), ProducerAction::Render { start: 50, frames: 487 });
}
