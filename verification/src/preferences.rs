//! The settings that the archive's callers keep: their names, their
//! fallback values, and how a stored value and a fallback combine.

use vstd::prelude::*;
use vstd::string::*;

verus! {

/// The settings that are recognised.
#[derive(Clone, Copy, Debug, PartialEq, Eq, Structural)]
pub enum Key {
    WillLaunchOnSystemStartup,
    WillDisplayIconInDock,
    WillAutoDownloadNewImages,
    WillAutoChangeWallpaper,
    DownloadedImagesStoragePath,
    CurrentSelectedBingRegion,
    CurrentSelectedImageDate,
}

impl Key {
    /// The name under which the setting is stored.
    pub open spec fn name(self) -> Seq<char> {
        match self {
            Key::WillLaunchOnSystemStartup => "WillLaunchOnSystemStartup"@,
            Key::WillDisplayIconInDock => "WillDisplayIconInDock"@,
            Key::WillAutoDownloadNewImages => "WillAutoDownloadNewImages"@,
            Key::WillAutoChangeWallpaper => "WillAutoChangeWallpaper"@,
            Key::DownloadedImagesStoragePath => "DownloadedImagesStoragePath"@,
            Key::CurrentSelectedBingRegion => "CurrentSelectedBingRegion"@,
            Key::CurrentSelectedImageDate => "CurrentSelectedImageDate"@,
        }
    }

    /// The value that the setting has while nothing is stored for it: the
    /// folder `Pictures/Bing Wallpaper` under `home` for the storage path,
    /// the default region for the region, and none for the others.
    pub open spec fn fallback(self, home: Seq<char>) -> Option<Seq<char>> {
        match self {
            Key::DownloadedImagesStoragePath => Some(home + "/Pictures/Bing Wallpaper"@),
            Key::CurrentSelectedBingRegion => Some(Seq::empty()),
            _ => None,
        }
    }

    /// The name under which the setting is stored.
    pub fn as_str(&self) -> (name: &'static str)
        ensures
            name@ == self.name(),
    {
        match self {
            Key::WillLaunchOnSystemStartup => "WillLaunchOnSystemStartup",
            Key::WillDisplayIconInDock => "WillDisplayIconInDock",
            Key::WillAutoDownloadNewImages => "WillAutoDownloadNewImages",
            Key::WillAutoChangeWallpaper => "WillAutoChangeWallpaper",
            Key::DownloadedImagesStoragePath => "DownloadedImagesStoragePath",
            Key::CurrentSelectedBingRegion => "CurrentSelectedBingRegion",
            Key::CurrentSelectedImageDate => "CurrentSelectedImageDate",
        }
    }

    /// The setting's fallback value, with the user's home directory `home`.
    pub fn default_value(&self, home: &str) -> (value: Option<String>)
        ensures
            match self.fallback(home@) {
                Some(text) => value matches Some(v) && v@ == text,
                None => value is None,
            },
    {
        match self {
            Key::DownloadedImagesStoragePath => {
                let mut path = String::from_str(home);
                path.append("/Pictures/Bing Wallpaper");
                Some(path)
            },
            Key::CurrentSelectedBingRegion => Some(String::new()),
            _ => None,
        }
    }
}

/// A switch as a number: 1 for on, 0 for off.
pub fn bool_as_int(value: bool) -> (n: i32)
    ensures
        n == (if value {
            1i32
        } else {
            0i32
        }),
{
    if value {
        1
    } else {
        0
    }
}

/// The value of the text setting `key`: what is stored for it, else its
/// fallback, else nothing.
pub fn string(stored: Option<String>, key: Key, home: &str) -> (value: Option<String>)
    ensures
        match stored {
            Some(s) => value == Some(s),
            None => match key.fallback(home@) {
                Some(text) => value matches Some(v) && v@ == text,
                None => value is None,
            },
        },
{
    match stored {
        Some(s) => Some(s),
        None => key.default_value(home),
    }
}

} // verus!
