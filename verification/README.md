# nbs_cli

A command-line tool for Note Block Studio (`.nbs`) songs: it shows what a
song holds, plays it on the default audio device, records it to a WAV file,
and converts MIDI files to NBS.

- `src/` is the verified library (Verus). It holds the decisions of the
  program over plain values:
  - `song.rs`: the name a song is shown under, and its looping for playing
    and for recording;
  - `paths.rs`: file names and parent directories of paths;
  - `locate.rs`: finding the directory that holds a song's custom instrument
    sounds, from the entries of a directory walk;
  - `stream.rs`: the cursor with which the audio callback reads rendered
    chunks, in order and each sample once;
  - `sample_queue.rs`: the rounds of the producer in sample-queue mode;
  - `setup.rs`: the output format, queue sizes, handling of missing
    instrument sounds, and recording progress;
  - `report.rs`: the lines of the `info` report.
- `app/` is the program around it: argument parsing, files, the audio device,
  threads, and the floating-point audio itself.
- `tests/` exercises the library.
