use garden::births::{may_spawn, SpawnRefusal, POP_MAX};
use garden::save::{another_version_file, check_version, save_path, VersionRefusal, SAVE_FILE, SAVE_VERSION};

/// Where a save goes: the store moves it; the flag still beats the store.
#[test]
fn the_store_names_the_save_and_the_flag_beats_it() {
    assert_eq!(save_path(None, None), SAVE_FILE);
    assert_eq!(save_path(Some("mine.json"), None), "mine.json");
    assert_eq!(save_path(Some("mine.json"), Some("flag.json")), "flag.json");
}

#[test]
fn a_flag_beats_the_default_too() {
    assert_eq!(save_path(None, Some("flag.json")), "flag.json");
    assert_eq!(SAVE_FILE, "garden.save.json");
}

#[test]
fn only_this_builds_version_is_read() {
    assert_eq!(check_version(Some(SAVE_VERSION)), Ok(()));
    assert_eq!(check_version(Some(99)), Err(VersionRefusal::Other(99)));
    assert_eq!(check_version(Some(0)), Err(VersionRefusal::Other(0)));
    assert_eq!(check_version(None), Err(VersionRefusal::Missing));
}

#[test]
fn the_file_from_another_version_has_a_key_of_its_own() {
    assert_eq!(another_version_file(), "garden.from-another-version.json");
}

#[test]
fn a_full_garden_refuses_before_it_reads() {
    assert_eq!(may_spawn(POP_MAX, POP_MAX, true), Err(SpawnRefusal::Full(24)));
    assert_eq!(may_spawn(30, POP_MAX, false), Err(SpawnRefusal::Full(30)));
    assert_eq!(may_spawn(3, POP_MAX, false), Err(SpawnRefusal::NoHash));
    assert_eq!(may_spawn(23, POP_MAX, true), Ok(()));
}
