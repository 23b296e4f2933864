//! Where a garden is written down, and which files this build will read back.
use vstd::prelude::*;

verus! {

/// What this build writes into a save, and the only number it will read back.
pub const SAVE_VERSION: u32 = 1;

/// Where a saved garden goes when nobody has said otherwise: a file beside the game, or the
/// `localStorage` key of that name in a browser.
pub const SAVE_FILE: &'static str = "garden.save.json";

/// Where the panel's choices are kept, beside the save.
pub const SETTINGS_FILE: &'static str = "garden.settings.txt";

/// Why a file was not read as a garden of this build.
#[derive(Clone, Copy, Debug, PartialEq, Eq, Structural)]
pub enum VersionRefusal {
    /// it says it was written by another version
    Other(u32),
    /// it says nothing about its version: every garden saved before versions were written
    Missing,
}

/// **The version is read first and on its own**: a file that says this build's number is read
/// the rest of the way, and any other is refused by number, whatever else in it would parse.
pub fn check_version(version: Option<u32>) -> (r: Result<(), VersionRefusal>)
    ensures
        version == Some(SAVE_VERSION) <==> r is Ok,
        version is None ==> r == Err::<(), VersionRefusal>(VersionRefusal::Missing),
        (version matches Some(v) && v != SAVE_VERSION) ==> r == Err::<(), VersionRefusal>(
            VersionRefusal::Other(version->0),
        ),
{
    match version {
        Some(v) => {
            if v == SAVE_VERSION {
                Ok(())
            } else {
                Err(VersionRefusal::Other(v))
            }
        },
        None => Err(VersionRefusal::Missing),
    }
}

/// **Where F5 writes and F9 reads**: the path a run was given on its command line if it was
/// given one, else `save_file` in the store, else the game's own name. The flag wins over the
/// store.
pub fn save_path(stored: Option<&str>, flag: Option<&str>) -> (r: String)
    ensures
        r@ == (match flag {
            Some(f) => f@,
            None => match stored {
                Some(s) => s@,
                None => SAVE_FILE@,
            },
        }),
{
    match flag {
        Some(f) => String::from_str(f),
        None => match stored {
            Some(s) => String::from_str(s),
            None => String::from_str(SAVE_FILE),
        },
    }
}

/// Where the check's file from another version goes in a browser: a `localStorage` key beside
/// the save's own.
pub fn another_version_file() -> (r: String)
    ensures
        r@ == "garden.from-another-version.json"@,
{
    String::from_str("garden.from-another-version.json")
}

} // verus!
