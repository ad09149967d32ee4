use nbs_cli::{
    chunk_producer_step, ChunkProducerStep, CursorAction, PlaybackCursor, AUDIO_CHUNK_SIZE, NO_TICK,
};

/// Serves one device buffer of `out_len` samples from `queue`, where chunk
/// `c` holds the samples `c * AUDIO_CHUNK_SIZE ..`, the way the player's
/// callback does; returns what the device receives (`None`: silence) and the
/// ticks reported.
fn serve(
    cursor: &mut PlaybackCursor,
    queue: &mut Vec<u64>,
    current: &mut Option<u64>,
    out_len: usize,
) -> (Vec<Option<u64>>, Vec<u64>) {
    let mut out = vec![None; out_len];
    let mut ticks = Vec::new();
    cursor.begin(out_len);
    loop {
        match cursor.next_action() {
            CursorAction::Done => break,
            CursorAction::Pop => {
                if queue.is_empty() {
                    cursor.queue_empty();
                } else {
                    *current = Some(queue.remove(0));
                    cursor.chunk_taken();
                }
            }
            CursorAction::Copy { from, to, len } => {
                let chunk = current.unwrap();
                for i in 0..len {
                    out[to + i] = Some(chunk * AUDIO_CHUNK_SIZE as u64 + (from + i) as u64);
                }
                cursor.copied();
                if cursor.note_tick(chunk * 10) {
                    ticks.push(chunk * 10);
                }
            }
        }
    }
    (out, ticks)
}

#[test]
fn samples_reach_the_device_in_order_each_once() {
    let mut cursor = PlaybackCursor::new();
    let mut queue: Vec<u64> = (0..5).collect();
    let mut current = None;
    let mut heard = Vec::new();
    for out_len in [300usize, 1024, 700, 2000, 1096] {
        let (out, _) = serve(&mut cursor, &mut queue, &mut current, out_len);
        heard.extend(out.into_iter().map(|s| s.unwrap()));
    }
    let expected: Vec<u64> = (0..(5 * AUDIO_CHUNK_SIZE) as u64).collect();
    assert_eq!(heard, expected);
    assert!(cursor.finished(queue.is_empty(), true));
}

#[test]
fn dry_queue_leaves_silence() {
    let mut cursor = PlaybackCursor::new();
    let mut queue: Vec<u64> = vec![0];
    let mut current = None;
    let (out, _) = serve(&mut cursor, &mut queue, &mut current, 1500);
    assert_eq!(out.iter().filter(|s| s.is_some()).count(), AUDIO_CHUNK_SIZE);
    assert!(out[AUDIO_CHUNK_SIZE..].iter().all(|s| s.is_none()));
    assert_eq!(out[AUDIO_CHUNK_SIZE - 1], Some(AUDIO_CHUNK_SIZE as u64 - 1));
}

#[test]
fn ticks_reported_when_they_change() {
    let mut cursor = PlaybackCursor::new();
    let mut queue: Vec<u64> = vec![0, 1, 2];
    let mut current = None;
    let (_, ticks) = serve(&mut cursor, &mut queue, &mut current, 3 * AUDIO_CHUNK_SIZE);
    assert_eq!(ticks, vec![0, 10, 20]);
}

#[test]
fn first_tick_is_always_reported() {
    let mut cursor = PlaybackCursor::new();
    assert!(cursor.note_tick(0));
    assert!(!cursor.note_tick(0));
    assert!(cursor.note_tick(NO_TICK - 1));
}

#[test]
fn not_finished_while_a_chunk_is_half_read() {
    let mut cursor = PlaybackCursor::new();
    assert!(cursor.finished(true, true));
    let mut queue: Vec<u64> = vec![0];
    let mut current = None;
    serve(&mut cursor, &mut queue, &mut current, 10);
    assert!(!cursor.finished(true, true));
    assert!(!PlaybackCursor::new().finished(true, false));
    assert!(!PlaybackCursor::new().finished(false, true));
}

#[test]
fn copy_sizes() {
    let mut cursor = PlaybackCursor::new();
    cursor.begin(100);
    assert_eq!(cursor.next_action(), CursorAction::Pop);
    cursor.chunk_taken();
    assert_eq!(cursor.next_action(), CursorAction::Copy { from: 0, to: 0, len: 100 });
    cursor.copied();
    assert_eq!(cursor.next_action(), CursorAction::Done);
    cursor.begin(2000);
    assert_eq!(cursor.next_action(), CursorAction::Copy { from: 100, to: 0, len: 924 });
    cursor.copied();
    assert_eq!(cursor.next_action(), CursorAction::Pop);
    cursor.queue_empty();
    assert_eq!(cursor.next_action(), CursorAction::Done);
}

#[test]
fn chunk_size_is_even() {
    assert_eq!(AUDIO_CHUNK_SIZE % 2, 0);
}

#[test]
fn chunk_producer_steps() {
    assert_eq!(chunk_producer_step(false, false), ChunkProducerStep::Render);
    assert_eq!(chunk_producer_step(false, true), ChunkProducerStep::Park);
    assert_eq!(chunk_producer_step(true, true), ChunkProducerStep::Stop);
    assert_eq!(chunk_producer_step(true, false), ChunkProducerStep::Stop);
}
