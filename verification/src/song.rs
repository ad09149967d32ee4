//! Song-level settings: the name under which a song is shown, and how its
//! looping is set up for playing and for recording.

use vstd::prelude::*;

use crate::paths::{
    ends_in_parent_dir, file_prefix, is_name_prefix, path_file_name, path_file_name_of,
    plain_component, portable_path,
};

verus! {

/// The name shown for a song whose file gives none and whose path has no file name.
pub open spec fn unnamed_song() -> Seq<char> {
    "unnamed song"@
}

/// The name given to a song decoded from MIDI whose path has no file name.
pub open spec fn unnamed_midi_song() -> Seq<char> {
    "Unnamed Midi Song"@
}

/// The name a song is shown under: its own name where it has one, else the
/// file name of its path where that is not empty, else `unnamed song`.
pub open spec fn display_name_spec(name: Seq<char>, file_name: Option<Seq<char>>) -> Seq<char> {
    if name.len() > 0 {
        name
    } else {
        match file_name {
            Some(f) => if f.len() > 0 { f } else { unnamed_song() },
            None => unnamed_song(),
        }
    }
}

/// Chooses the name a song is shown under, given the file name of its path.
pub fn display_name(name: String, file_name: Option<String>) -> (res: String)
    ensures
        res@ == display_name_spec(name@, match file_name { Some(f) => Some(f@), None => None }),
{
    if name.unicode_len() > 0 {
        return name;
    }
    match file_name {
        Some(f) => {
            if f.unicode_len() > 0 {
                f
            } else {
                String::from_str("unnamed song")
            }
        },
        None => String::from_str("unnamed song"),
    }
}

/// The name a loaded song is shown under: its own name, else the file name
/// of `path`, else `unnamed song`.
pub fn song_display_name(name: String, path: &str) -> (res: String)
    ensures
        res@ == display_name_spec(name@, path_file_name_of(path@)),
        name@.len() > 0 ==> res@ == name@,
        name@.len() == 0 && plain_component(path@) ==> res@ == path@,
        name@.len() == 0 && portable_path(path@) ==> res@ == unnamed_song() || (res@.len() > 0
            && !res@.contains('/')),
        name@.len() == 0 && portable_path(path@) && ends_in_parent_dir(path@) ==> res@
            == unnamed_song(),
{
    let file_name = path_file_name(path);
    display_name(name, file_name)
}

/// The name of a song decoded from MIDI, given the prefix of its file name:
/// that prefix, or `Unnamed Midi Song` where there is none.
pub fn midi_name(prefix: Option<String>) -> (res: String)
    ensures
        res@ == match prefix { Some(p) => p@, None => unnamed_midi_song() },
{
    match prefix {
        Some(p) => p,
        None => String::from_str("Unnamed Midi Song"),
    }
}

/// The name of a song decoded from the MIDI file at `path`: the prefix of
/// the file name, or `Unnamed Midi Song`.
pub fn midi_song_name(path: &str) -> (res: String)
    ensures
        match path_file_name_of(path@) {
            Some(name) => is_name_prefix(res@, name),
            None => res@ == unnamed_midi_song(),
        },
        plain_component(path@) ==> is_name_prefix(res@, path@),
        portable_path(path@) ==> res@ == unnamed_midi_song() || (res@.len() > 0
            && !res@.contains('/')),
        portable_path(path@) && ends_in_parent_dir(path@) ==> res@ == unnamed_midi_song(),
{
    midi_name(file_prefix(path))
}

/// How a song repeats: whether looping is on, and how many times it repeats
/// (`None`: without end).
#[derive(Clone, Copy, Debug, PartialEq, Eq, Structural)]
pub struct Looping {
    pub enabled: bool,
    pub count: Option<u32>,
}

impl Looping {
    /// Whether a song with these settings repeats without end.
    pub open spec fn repeats_forever(self) -> bool {
        self.enabled && self.count is None
    }

    /// The settings for playing: looping on, without end, where the player
    /// asks for it; else looping off, whatever the file says.
    pub open spec fn for_playback_spec(self, looping: bool) -> Looping {
        if looping {
            Looping { enabled: true, count: None }
        } else {
            Looping { enabled: false, count: self.count }
        }
    }

    /// The settings for recording: looping without end is switched off, since
    /// a recording has to end; a bounded loop stays.
    pub open spec fn for_recording_spec(self) -> Looping {
        if self.enabled && self.count is None {
            Looping { enabled: false, count: self.count }
        } else {
            self
        }
    }

    pub fn for_playback(self, looping: bool) -> (res: Looping)
        ensures
            res == self.for_playback_spec(looping),
    {
        if looping {
            Looping { enabled: true, count: None }
        } else {
            Looping { enabled: false, count: self.count }
        }
    }

    pub fn for_recording(self) -> (res: Looping)
        ensures
            res == self.for_recording_spec(),
    {
        if self.enabled && self.count.is_none() {
            Looping { enabled: false, count: self.count }
        } else {
            self
        }
    }
}

/// A recording never repeats without end, whatever the song's settings.
pub proof fn recording_always_ends(settings: Looping)
    ensures
        !settings.for_recording_spec().repeats_forever(),
        settings.for_recording_spec().count == settings.count,
{
}

/// Recording changes nothing but looping without end, which it switches off:
/// it never switches looping on, keeps the loop count, and leaves a song
/// that does not repeat forever as it is.
pub proof fn recording_only_stops_endless_loops(settings: Looping)
    ensures
        settings.for_recording_spec().count == settings.count,
        settings.for_recording_spec().enabled == (settings.enabled && settings.count is Some),
        settings.for_recording_spec().enabled ==> settings.enabled,
        !settings.repeats_forever() ==> settings.for_recording_spec() == settings,
        settings.repeats_forever() ==> settings.for_recording_spec() == (Looping {
            enabled: false,
            count: None,
        }),
{
}

/// A song played with looping asked for repeats without end; played without,
/// it does not repeat at all.
pub proof fn playback_follows_request(settings: Looping, looping: bool)
    ensures
        settings.for_playback_spec(looping).repeats_forever() == looping,
        settings.for_playback_spec(looping).enabled == looping,
{
}

/// Setting a song up for playing twice with the same request changes nothing
/// the second time.
pub proof fn playback_settings_idempotent(settings: Looping, looping: bool)
    ensures
        settings.for_playback_spec(looping).for_playback_spec(looping)
            == settings.for_playback_spec(looping),
{
}

} // verus!
