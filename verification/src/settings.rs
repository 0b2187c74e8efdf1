//! The settings that the recording engine decides by.

use crate::quality::RecordingQuality;
use crate::text::{same_text, trim, trimmed};
use vstd::prelude::*;
use vstd::string::*;

verus! {

/// The quality tier that a stored name stands for: `low`, `medium`, `high`
/// or `ultra`; any other name stands for `high`.
pub open spec fn quality_named(name: Seq<char>) -> RecordingQuality {
    if name == "low"@ {
        RecordingQuality::Low
    } else if name == "medium"@ {
        RecordingQuality::Medium
    } else if name == "ultra"@ {
        RecordingQuality::Ultra
    } else {
        RecordingQuality::High
    }
}

/// Reads a quality tier from its stored name.
pub fn quality_from_setting(name: &str) -> (quality: RecordingQuality)
    ensures
        quality == quality_named(name@),
{
    if same_text(name, "low") {
        RecordingQuality::Low
    } else if same_text(name, "medium") {
        RecordingQuality::Medium
    } else if same_text(name, "ultra") {
        RecordingQuality::Ultra
    } else {
        RecordingQuality::High
    }
}

/// A snapshot of the user's settings.
#[derive(Debug)]
pub struct Settings {
    /// Whether a new replay starts a recording by itself.
    pub auto_start: bool,
    /// The quality tier of new recordings.
    pub quality: RecordingQuality,
    /// The stored identifier of the window to record, if one was chosen.
    pub target: Option<String>,
    /// The directory that recordings are written to.
    pub recording_dir: String,
}

/// The settings as plain values.
pub struct SettingsView {
    pub auto_start: bool,
    pub quality: RecordingQuality,
    pub target: Option<Seq<char>>,
    pub recording_dir: Seq<char>,
}

impl View for Settings {
    type V = SettingsView;

    open spec fn view(&self) -> SettingsView {
        SettingsView {
            auto_start: self.auto_start,
            quality: self.quality,
            target: match self.target {
                Some(t) => Some(t@),
                None => None,
            },
            recording_dir: self.recording_dir@,
        }
    }
}

/// The settings that stored values stand for. A missing flag means that
/// recordings start by themselves; a missing quality means `high`.
pub open spec fn settings_from(
    auto_start: Option<bool>,
    quality: Option<Seq<char>>,
    target: Option<Seq<char>>,
    recording_dir: Seq<char>,
) -> SettingsView {
    SettingsView {
        auto_start: match auto_start {
            Some(flag) => flag,
            None => true,
        },
        quality: match quality {
            Some(name) => quality_named(name),
            None => RecordingQuality::High,
        },
        target,
        recording_dir,
    }
}

/// A stored text as a plain value.
pub open spec fn text_of(stored: Option<&str>) -> Option<Seq<char>> {
    match stored {
        Some(s) => Some(s@),
        None => None,
    }
}

impl Clone for Settings {
    fn clone(&self) -> (copy: Self)
        ensures
            copy == *self,
    {
        Settings {
            auto_start: self.auto_start,
            quality: self.quality,
            target: match &self.target {
                Some(t) => Some(t.clone()),
                None => None,
            },
            recording_dir: self.recording_dir.clone(),
        }
    }
}

impl Default for Settings {
    fn default() -> (settings: Self)
        ensures
            settings@ == settings_from(None, None, None, Seq::empty()),
    {
        Settings {
            auto_start: true,
            quality: RecordingQuality::High,
            target: None,
            recording_dir: String::new(),
        }
    }
}

impl Settings {
    /// Builds the settings from the values that the settings store holds.
    pub fn from_values(
        auto_start: Option<bool>,
        quality: Option<&str>,
        target: Option<&str>,
        recording_dir: &str,
    ) -> (settings: Self)
        ensures
            settings@ == settings_from(
                auto_start,
                text_of(quality),
                text_of(target),
                recording_dir@,
            ),
    {
        Settings {
            auto_start: match auto_start {
                Some(flag) => flag,
                None => true,
            },
            quality: match quality {
                Some(name) => quality_from_setting(name),
                None => RecordingQuality::High,
            },
            target: match target {
                Some(t) => Some(t.to_owned()),
                None => None,
            },
            recording_dir: recording_dir.to_owned(),
        }
    }
}

/// Where recordings go.
#[derive(Debug)]
pub enum RecordingDirectory {
    /// The directory that the setting names.
    Configured(String),
    /// The setting starts with `~/`: the rest of it, inside the home directory.
    InHome(String),
    /// No directory is set: the default directory inside the home directory.
    DefaultInHome,
    /// No directory is set and there is no home directory: the default
    /// directory inside the application's data directory.
    DefaultInAppData,
}

/// The choice of a recording directory as plain values.
pub enum RecordingDirectoryView {
    Configured(Seq<char>),
    InHome(Seq<char>),
    DefaultInHome,
    DefaultInAppData,
}

impl View for RecordingDirectory {
    type V = RecordingDirectoryView;

    open spec fn view(&self) -> RecordingDirectoryView {
        match self {
            RecordingDirectory::Configured(p) => RecordingDirectoryView::Configured(p@),
            RecordingDirectory::InHome(p) => RecordingDirectoryView::InHome(p@),
            RecordingDirectory::DefaultInHome => RecordingDirectoryView::DefaultInHome,
            RecordingDirectory::DefaultInAppData => RecordingDirectoryView::DefaultInAppData,
        }
    }
}

/// The directory that a stored setting selects, or nothing where the setting
/// needs a home directory and there is none.
pub open spec fn directory_choice(setting: Option<Seq<char>>, has_home: bool) -> Option<
    RecordingDirectoryView,
> {
    let unset = match setting {
        Some(path) => trim(path).len() == 0,
        None => true,
    };
    if unset {
        if has_home {
            Some(RecordingDirectoryView::DefaultInHome)
        } else {
            Some(RecordingDirectoryView::DefaultInAppData)
        }
    } else {
        let path = setting.unwrap();
        if path.len() >= 2 && path[0] == '~' && path[1] == '/' {
            if has_home {
                Some(RecordingDirectoryView::InHome(path.subrange(2, path.len() as int)))
            } else {
                None
            }
        } else {
            Some(RecordingDirectoryView::Configured(path))
        }
    }
}

/// Chooses the recording directory from the stored setting.
pub fn choose_recording_directory(setting: Option<&str>, has_home: bool) -> (choice: Option<
    RecordingDirectory,
>)
    ensures
        match choice {
            Some(c) => directory_choice(text_of(setting), has_home) == Some(c@),
            None => directory_choice(text_of(setting), has_home) is None,
        },
{
    let unset = match setting {
        Some(path) => trimmed(path).as_str().unicode_len() == 0,
        None => true,
    };
    if unset {
        if has_home {
            return Some(RecordingDirectory::DefaultInHome);
        } else {
            return Some(RecordingDirectory::DefaultInAppData);
        }
    }
    let path = setting.unwrap();
    let n = path.unicode_len();
    if n >= 2 && path.get_char(0) == '~' && path.get_char(1) == '/' {
        if has_home {
            Some(RecordingDirectory::InHome(path.substring_char(2, n).to_owned()))
        } else {
            None
        }
    } else {
        Some(RecordingDirectory::Configured(path.to_owned()))
    }
}

/// The directory that the settings store names for recordings, if it names
/// one: a name without characters counts as none.
pub fn configured_recording_directory(setting: Option<&str>) -> (directory: Option<String>)
    ensures
        match directory {
            Some(d) => setting is Some && d@ == setting.unwrap()@ && d@.len() > 0,
            None => setting is None || setting.unwrap()@.len() == 0,
        },
{
    match setting {
        Some(path) => {
            if path.unicode_len() == 0 {
                None
            } else {
                Some(path.to_owned())
            }
        },
        None => None,
    }
}

/// A value of the settings store.
#[derive(Debug)]
pub enum SettingValue {
    Text(String),
    Flag(bool),
    /// A number, as the store writes it.
    Number(String),
    /// Anything else: nothing, a list or an object.
    Other,
}

/// The text of a value of the settings store: a text as it is, a flag as
/// `true` or `false`, a number as the store writes it, and nothing for
/// anything else.
pub open spec fn setting_text_of(value: SettingValue) -> Option<Seq<char>> {
    match value {
        SettingValue::Text(t) => Some(t@),
        SettingValue::Flag(flag) => Some(
            if flag {
                "true"@
            } else {
                "false"@
            },
        ),
        SettingValue::Number(n) => Some(n@),
        SettingValue::Other => None,
    }
}

/// The text of a value of the settings store.
pub fn setting_text(value: &SettingValue) -> (text: Option<String>)
    ensures
        match text {
            Some(t) => setting_text_of(*value) == Some(t@),
            None => setting_text_of(*value) is None,
        },
{
    match value {
        SettingValue::Text(t) => Some(t.clone()),
        SettingValue::Flag(flag) => Some(
            if *flag {
                "true".to_owned()
            } else {
                "false".to_owned()
            },
        ),
        SettingValue::Number(n) => Some(n.clone()),
        SettingValue::Other => None,
    }
}

} // verus!
