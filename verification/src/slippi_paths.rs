//! Where the game client keeps its replays by default.

use crate::paths::{char_is_separator, is_separator, Platform};
use crate::text::chars_of;
use vstd::prelude::*;
use vstd::string::*;

verus! {

/// The separator that a platform writes between the components of a path.
pub open spec fn separator_of(platform: Platform) -> Seq<char> {
    match platform {
        Platform::Windows => "\\"@,
        _ => "/"@,
    }
}

/// `base` with one more component: a separator is put between them unless
/// `base` is empty or ends with one.
pub open spec fn joined(platform: Platform, base: Seq<char>, component: Seq<char>) -> Seq<char> {
    if base.len() == 0 || is_separator(platform, base.last()) {
        base + component
    } else {
        base + separator_of(platform) + component
    }
}

/// The directory that is taken where the platform does not name the user's
/// own: the root of the system drive.
pub open spec fn fallback_base(platform: Platform) -> Seq<char> {
    match platform {
        Platform::Windows => "C:\\"@,
        _ => "/"@,
    }
}

/// The default replay directory below `base`, the user's application data
/// directory on Windows and home directory elsewhere.
pub open spec fn default_slippi_path(platform: Platform, base: Seq<char>) -> Seq<char> {
    let launcher = match platform {
        Platform::Windows => base,
        Platform::MacOs => joined(
            platform,
            joined(platform, base, "Library"@),
            "Application Support"@,
        ),
        Platform::Linux => joined(platform, base, ".config"@),
    };
    joined(platform, joined(platform, launcher, "Slippi Launcher"@), "netplay"@)
}

/// Adds one component to a path, with the separator that the platform
/// writes.
pub fn join(platform: Platform, base: String, component: &str) -> (path: String)
    ensures
        path@ == joined(platform, base@, component@),
{
    let chars = chars_of(base.as_str());
    let mut path = base;
    if chars.len() > 0 && !char_is_separator(platform, chars[chars.len() - 1]) {
        match platform {
            Platform::Windows => path.append("\\"),
            _ => path.append("/"),
        }
    }
    path.append(component);
    path
}

/// The default replay directory of the game client.
///
/// `base` is the user's application data directory on Windows and the home
/// directory elsewhere, as the environment names it; without one, the root
/// of the system drive is taken.
pub fn get_default_slippi_path(platform: Platform, base: Option<&str>) -> (path: String)
    ensures
        path@ == default_slippi_path(
            platform,
            match base {
                Some(b) => b@,
                None => fallback_base(platform),
            },
        ),
{
    let start: String = match base {
        Some(b) => b.to_owned(),
        None => match platform {
            Platform::Windows => "C:\\".to_owned(),
            _ => "/".to_owned(),
        },
    };
    let launcher = match platform {
        Platform::Windows => start,
        Platform::MacOs => join(platform, join(platform, start, "Library"), "Application Support"),
        Platform::Linux => join(platform, start, ".config"),
    };
    join(platform, join(platform, launcher, "Slippi Launcher"), "netplay")
}

} // verus!
