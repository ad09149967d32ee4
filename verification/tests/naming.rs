use nbs_cli::{
    display_name, file_prefix, instrument_base_dir, midi_name, midi_song_name, name_prefix,
    song_display_name, Looping,
};

#[test]
fn own_name_is_kept() {
    assert_eq!(song_display_name("Megalovania".to_string(), "songs/x.nbs"), "Megalovania");
}

#[test]
fn empty_name_takes_file_name() {
    assert_eq!(song_display_name(String::new(), "songs/castle.nbs"), "castle.nbs");
}

#[test]
fn empty_name_without_file_name_is_unnamed() {
    assert_eq!(song_display_name(String::new(), ""), "unnamed song");
    assert_eq!(song_display_name(String::new(), "songs/.."), "unnamed song");
}

#[test]
fn display_name_choices() {
    assert_eq!(display_name("a".to_string(), Some("b".to_string())), "a");
    assert_eq!(display_name(String::new(), Some("b".to_string())), "b");
    assert_eq!(display_name(String::new(), Some(String::new())), "unnamed song");
    assert_eq!(display_name(String::new(), None), "unnamed song");
}

#[test]
fn name_prefix_cases() {
    assert_eq!(name_prefix("song.mid"), "song");
    assert_eq!(name_prefix("song.tar.gz"), "song");
    assert_eq!(name_prefix(".hidden"), ".hidden");
    assert_eq!(name_prefix(".hidden.mid"), ".hidden");
    assert_eq!(name_prefix("plain"), "plain");
    assert_eq!(name_prefix(""), "");
}

#[test]
fn file_prefix_of_paths() {
    assert_eq!(file_prefix("music/theme.mid"), Some("theme".to_string()));
    assert_eq!(file_prefix("/"), None);
}

#[test]
fn midi_names() {
    assert_eq!(midi_song_name("music/theme.final.mid"), "theme");
    assert_eq!(midi_song_name(""), "Unnamed Midi Song");
    assert_eq!(midi_name(None), "Unnamed Midi Song");
    assert_eq!(midi_name(Some("x".to_string())), "x");
}

#[test]
fn base_dir_is_custom_or_parent() {
    assert_eq!(
        instrument_base_dir("songs/a.nbs", Some("sounds".to_string())),
        Some("sounds".to_string())
    );
    assert_eq!(instrument_base_dir("songs/a.nbs", None), Some("songs".to_string()));
    assert_eq!(instrument_base_dir("a.nbs", None), Some(String::new()));
    assert_eq!(instrument_base_dir("", None), None);
}

#[test]
fn playback_looping() {
    let file = Looping { enabled: true, count: Some(3) };
    assert_eq!(file.for_playback(true), Looping { enabled: true, count: None });
    assert_eq!(file.for_playback(false), Looping { enabled: false, count: Some(3) });
    let twice = file.for_playback(false).for_playback(false);
    assert_eq!(twice, file.for_playback(false));
}

#[test]
fn recording_looping() {
    let forever = Looping { enabled: true, count: None };
    assert_eq!(forever.for_recording(), Looping { enabled: false, count: None });
    let bounded = Looping { enabled: true, count: Some(2) };
    assert_eq!(bounded.for_recording(), bounded);
    let off = Looping { enabled: false, count: None };
    assert_eq!(off.for_recording(), off);
}

#[test]
fn bare_file_name_prefix() {
    assert_eq!(file_prefix("theme.mid"), Some("theme".to_string()));
    assert_eq!(file_prefix(".hidden"), Some(".hidden".to_string()));
}
