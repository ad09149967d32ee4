//! Verified core of a command-line player, recorder and inspector for
//! Note Block Studio (NBS) songs.
//!
//! The library holds the decisions of the program as functions from plain
//! values to plain values: how a song is named, how its looping is set up
//! for playing or recording, how the playback stream hands samples from
//! rendered chunks to the audio device, how a directory of custom
//! instrument sounds is located, and what the information report says.
//! Devices, files, threads and floating-point audio stay with the caller.

mod locate;
mod paths;
mod report;
mod sample_queue;
mod setup;
mod song;
mod stream;

pub use locate::{
    adopt_base_names, answer_means_complete, count_true, flagged_names, found_only_grows,
    found_within_wanted, instrument_base_names, observe_spec, other_entries_change_nothing,
    plain_name, plain_name_or_none, present_names, repeated_entry_changes_nothing, result_view, new_wanted_file_is_counted, walk,
    walk_counts_every_wanted_file, wanted_seen_in,
    settle_instrument_dir, string_views, wanted_names, base_name_or_self, InstrumentLocator, LocateError, LocatorView,
    MAX_LOCATING_DEPTH,
};
pub use paths::{
    ends_in_parent_dir, file_prefix, instrument_base_dir, is_name_prefix, name_prefix,
    name_prefix_unique, opt_view, path_file_name_of, path_parent_of, plain_component,
    portable_path,
};
pub use report::{
    decimal, decimal_denotes_its_number, decimal_spec, decimal_value, digit_char, digit_value, instrument_summary, instrument_summary_spec, note_count,
    report_lines, report_lines_spec, total, SongOverview,
};
pub use sample_queue::{
    empty_round_renders_whole_buffer, full_round_keeps_unsent_tail, ProducerAction, ProducerView,
    SampleProducer, SAMPLE_BUFFER_LEN,
};
pub use setup::{
    missing_audio_severity, must_abort_for_missing_audio, plan_output,
    planned_formats_fit_sample_queue, progress_follows_ticks, queue_capacity,
    queue_capacity_spec, queue_holds_about_ten_seconds, sample_queue_capacity, OutputPlan,
    ProgressView, RecordingProgress, Severity, EXACT_SINGLE_LIMIT, MAX_OUTPUT_CHANNELS,
    MAX_OUTPUT_SAMPLE_RATE, MAX_VOLUME_PERCENT, QUEUE_SECONDS, SAMPLE_QUEUE_SECONDS,
};
pub use song::{
    display_name, display_name_spec, midi_name, midi_song_name, playback_follows_request,
    playback_settings_idempotent, recording_always_ends, recording_only_stops_endless_loops, song_display_name, unnamed_midi_song,
    unnamed_song, Looping,
};
pub use stream::{
    chunk_holds_whole_frames, chunks_read_whole, copies_are_contiguous, done_means_full_or_starved,
    finish_only_after_whole_chunk, chunk_producer_step, apply_event, event_allowed, heard_in_order,
    initial_cursor, run, run_allowed, stream_heard_in_order, CursorEvent, Heard, ChunkProducerStep, CursorAction, CursorView, PlaybackCursor, AUDIO_CHUNK_SIZE,
    NO_TICK,
};
