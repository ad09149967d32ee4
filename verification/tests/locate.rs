use nbs_cli::{adopt_base_names, instrument_base_names, settle_instrument_dir, InstrumentLocator, LocateError};

fn files(names: &[&str]) -> Vec<String> {
    names.iter().map(|s| s.to_string()).collect()
}

#[test]
fn complete_directory_is_answered_at_once() {
    let mut l = InstrumentLocator::new(&files(&["custom/kick.ogg", "snare.ogg"]));
    assert_eq!(l.observe(true, Some("kick.ogg".to_string()), "root/a".to_string()), Ok(None));
    assert_eq!(l.observe(true, Some("snare.ogg".to_string()), "root/b".to_string()), Ok(None));
    assert_eq!(
        l.observe(true, Some("snare.ogg".to_string()), "root/a".to_string()),
        Ok(Some("root/a".to_string()))
    );
}

#[test]
fn directories_and_other_files_change_nothing() {
    let mut l = InstrumentLocator::new(&files(&["kick.ogg"]));
    assert_eq!(l.observe(false, Some("kick.ogg".to_string()), "root".to_string()), Ok(None));
    assert_eq!(l.observe(true, Some("readme.txt".to_string()), "root".to_string()), Ok(None));
    assert_eq!(l.best_directory(), None);
}

#[test]
fn unreadable_file_name_is_an_error() {
    let mut l = InstrumentLocator::new(&files(&["kick.ogg"]));
    assert_eq!(l.observe(true, None, "root".to_string()), Err(LocateError::InvalidFileName));
    assert_eq!(l.observe(false, None, "root".to_string()), Ok(None));
}

#[test]
fn repeated_file_counts_once() {
    let mut l = InstrumentLocator::new(&files(&["a.ogg", "b.ogg", "c.ogg"]));
    assert_eq!(l.observe(true, Some("a.ogg".to_string()), "x".to_string()), Ok(None));
    assert_eq!(l.observe(true, Some("a.ogg".to_string()), "x".to_string()), Ok(None));
    assert_eq!(l.observe(true, Some("b.ogg".to_string()), "y".to_string()), Ok(None));
    assert_eq!(l.observe(true, Some("c.ogg".to_string()), "y".to_string()), Ok(None));
    // y holds two of the three names, x only one.
    assert_eq!(l.best_directory(), Some("y".to_string()));
}

#[test]
fn duplicate_instrument_names_are_wanted_once() {
    let mut l = InstrumentLocator::new(&files(&["one/a.ogg", "two/a.ogg"]));
    assert_eq!(
        l.observe(true, Some("a.ogg".to_string()), "dir".to_string()),
        Ok(Some("dir".to_string()))
    );
}

#[test]
fn ties_go_to_the_directory_met_last() {
    let mut l = InstrumentLocator::new(&files(&["a.ogg", "b.ogg"]));
    assert_eq!(l.observe(true, Some("a.ogg".to_string()), "first".to_string()), Ok(None));
    assert_eq!(l.observe(true, Some("b.ogg".to_string()), "second".to_string()), Ok(None));
    assert_eq!(l.best_directory(), Some("second".to_string()));
}

#[test]
fn base_names_of_instrument_files() {
    let bases = instrument_base_names(&files(&["sounds/kick.ogg", "snare.ogg", "/", ""]));
    assert_eq!(
        bases,
        vec![Some("kick.ogg".to_string()), Some("snare.ogg".to_string()), None, None]
    );
}

#[test]
fn adopting_base_names() {
    let mut names = files(&["sounds/kick.ogg", "/"]);
    adopt_base_names(&mut names, vec![Some("kick.ogg".to_string()), None]);
    assert_eq!(names, files(&["kick.ogg", "/"]));
}

#[test]
fn settled_directory() {
    let mut names = files(&["sounds/kick.ogg", "snare.ogg"]);
    let dir = settle_instrument_dir("base".to_string(), None, &mut names);
    assert_eq!(dir, "base");
    assert_eq!(names, files(&["sounds/kick.ogg", "snare.ogg"]));
    let dir = settle_instrument_dir("base".to_string(), Some("found".to_string()), &mut names);
    assert_eq!(dir, "found");
    assert_eq!(names, files(&["kick.ogg", "snare.ogg"]));
}

#[test]
fn bare_instrument_names_are_wanted() {
    let mut l = InstrumentLocator::new(&files(&["kick.ogg"]));
    assert_eq!(
        l.observe(true, Some("kick.ogg".to_string()), "d".to_string()),
        Ok(Some("d".to_string()))
    );
    let mut empty = InstrumentLocator::new(&files(&[]));
    assert_eq!(empty.observe(true, Some("kick.ogg".to_string()), "d".to_string()), Ok(None));
}
