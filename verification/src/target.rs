//! The capture target that the user selected, and how its identifier is read.
//!
//! A stored identifier is a window title, optionally followed by the process
//! id in the form `<title> (PID:<digits>)`.

use crate::text::{
    chars_of, digits_of, last_occurrence, parse_digits, parse_u32, rfind, slice_string, sub_vec, trim,
    trim_end, trim_end_index, trim_start_index,
};
use vstd::prelude::*;
use vstd::string::*;

verus! {

/// The text that introduces the process id inside an identifier.
pub open spec fn pid_marker() -> Seq<char> {
    "(PID:"@
}

/// The title part of an identifier: all of it once trimmed, or what stands
/// before its last process-id marker, without trailing white space.
pub open spec fn identifier_title(identifier: Seq<char>) -> Seq<char> {
    let t = trim(identifier);
    match last_occurrence(t, pid_marker()) {
        Some(i) => trim_end(t.subrange(0, i)),
        None => t,
    }
}

/// The process id of an identifier: the decimal digits that follow its last
/// process-id marker, read as one number. Nothing where there is no marker, no
/// digit, or the number does not fit in 32 bits.
pub open spec fn identifier_pid(identifier: Seq<char>) -> Option<u32> {
    let t = trim(identifier);
    match last_occurrence(t, pid_marker()) {
        Some(i) => parse_u32(digits_of(t.subrange(i + pid_marker().len(), t.len() as int))),
        None => None,
    }
}

/// Splits a stored identifier into its title and its process id.
pub fn parse_identifier(identifier: &str) -> (parts: (String, Option<u32>))
    ensures
        parts.0@ == identifier_title(identifier@),
        parts.1 == identifier_pid(identifier@),
{
    let chars = chars_of(identifier);
    let from = trim_start_index(&chars, 0, chars.len());
    let to = trim_end_index(&chars, from, chars.len());
    let t = sub_vec(&chars, from, to);
    let marker = chars_of("(PID:");
    proof {
        reveal_strlit("(PID:");
        assert(chars@.subrange(0, chars@.len() as int) =~= chars@);
        assert(t@ == trim(identifier@));
    }
    match rfind(&t, &marker) {
        Some(i) => {
            let end = trim_end_index(&t, 0, i);
            let pid = parse_digits(&t, i + 5, t.len());
            proof {
                assert(t@.subrange(0, end as int) =~= identifier@.subrange(
                    from as int,
                    from + end,
                ));
            }
            (slice_string(identifier, from, from + end), pid)
        },
        None => (slice_string(identifier, from, to), None),
    }
}

/// What the capture backend is asked to record: a window title, a process id,
/// both, or neither.
#[derive(Debug)]
pub struct TargetSelection {
    pub title: Option<String>,
    pub pid: Option<u32>,
}

/// A target selection as plain values.
pub struct TargetSelectionView {
    pub title: Option<Seq<char>>,
    pub pid: Option<u32>,
}

impl View for TargetSelection {
    type V = TargetSelectionView;

    open spec fn view(&self) -> TargetSelectionView {
        TargetSelectionView {
            title: match self.title {
                Some(t) => Some(t@),
                None => None,
            },
            pid: self.pid,
        }
    }
}

/// The selection that a stored identifier stands for. An absent identifier or
/// one without a title selects no title.
pub open spec fn selection_of(identifier: Option<Seq<char>>) -> TargetSelectionView {
    match identifier {
        Some(id) => TargetSelectionView {
            title: if identifier_title(id).len() == 0 {
                None
            } else {
                Some(identifier_title(id))
            },
            pid: identifier_pid(id),
        },
        None => TargetSelectionView { title: None, pid: None },
    }
}

impl Clone for TargetSelection {
    fn clone(&self) -> (copy: Self)
        ensures
            copy == *self,
    {
        TargetSelection {
            title: match &self.title {
                Some(t) => Some(t.clone()),
                None => None,
            },
            pid: self.pid,
        }
    }
}

impl TargetSelection {
    /// The selection that names nothing: the backend picks its default target.
    pub fn none() -> (selection: Self)
        ensures
            selection@ == selection_of(None),
    {
        TargetSelection { title: None, pid: None }
    }

    /// Reads the selection out of the identifier stored in the settings.
    pub fn from_identifier(identifier: Option<&str>) -> (selection: Self)
        ensures
            selection@ == selection_of(
                match identifier {
                    Some(id) => Some(id@),
                    None => None,
                },
            ),
    {
        match identifier {
            Some(id) => {
                let (title, pid) = parse_identifier(id);
                if title.as_str().unicode_len() == 0 {
                    TargetSelection { title: None, pid }
                } else {
                    TargetSelection { title: Some(title), pid }
                }
            },
            None => TargetSelection { title: None, pid: None },
        }
    }
}

} // verus!
