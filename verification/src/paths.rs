//! File names inside paths, and the video path that belongs to a replay.
//!
//! A path is a sequence of characters in which `/` separates components, and
//! on Windows `\` does so too. The rules follow the usual reading of a path:
//! trailing separators and `.` components do not count, and a path that ends
//! in `..` has no file name.

use crate::text::{chars_of, matches_at, slice_string};
use vstd::prelude::*;
use vstd::string::*;

verus! {

/// The operating system whose paths are read.
#[derive(Debug, Clone, Copy, PartialEq, Eq, Structural)]
pub enum Platform {
    Windows,
    MacOs,
    Linux,
}

/// A character that separates the components of a path: `/` everywhere, and
/// `\` on Windows too.
pub open spec fn is_separator(platform: Platform, c: char) -> bool {
    c == '/' || (platform == Platform::Windows && c == '\\')
}

/// Where the last component of `path` begins: behind its last separator, or
/// at 0 when it has none.
pub open spec fn last_component_start(platform: Platform, path: Seq<char>) -> int
    decreases path.len(),
{
    if path.len() == 0 || is_separator(platform, path.last()) {
        path.len() as int
    } else {
        last_component_start(platform, path.drop_last())
    }
}

/// The file name of `path`: its final component, if that is an ordinary name.
pub open spec fn file_name(platform: Platform, path: Seq<char>) -> Option<Seq<char>>
    decreases path.len(),
{
    if path.len() == 0 {
        None
    } else if is_separator(platform, path.last()) {
        file_name(platform, path.drop_last())
    } else {
        let start = last_component_start(platform, path);
        let name = path.subrange(start, path.len() as int);
        if name == seq!['.'] {
            if 0 < start < path.len() {
                file_name(platform, path.subrange(0, start))
            } else {
                None
            }
        } else if name == seq!['.', '.'] {
            None
        } else {
            Some(name)
        }
    }
}

/// The position of the last `c` in `s`.
pub open spec fn last_index_of(s: Seq<char>, c: char) -> Option<int>
    decreases s.len(),
{
    if s.len() == 0 {
        None
    } else if s.last() == c {
        Some(s.len() - 1)
    } else {
        last_index_of(s.drop_last(), c)
    }
}

/// The stem of a file name: the name up to its last dot, or all of it when it
/// has no dot or only a leading one.
pub open spec fn stem_of(name: Seq<char>) -> Seq<char> {
    match last_index_of(name, '.') {
        Some(i) => if i == 0 {
            name
        } else {
            name.subrange(0, i)
        },
        None => name,
    }
}

/// The extension of a file name: what follows its last dot, unless the name
/// has no dot or only a leading one.
pub open spec fn extension_of(name: Seq<char>) -> Option<Seq<char>> {
    match last_index_of(name, '.') {
        Some(i) => if i == 0 {
            None
        } else {
            Some(name.subrange(i + 1, name.len() as int))
        },
        None => None,
    }
}

/// The stem of the file name of `path`.
pub open spec fn file_stem(platform: Platform, path: Seq<char>) -> Option<Seq<char>> {
    match file_name(platform, path) {
        Some(name) => Some(stem_of(name)),
        None => None,
    }
}

/// The extension of the file name of `path`.
pub open spec fn extension(platform: Platform, path: Seq<char>) -> Option<Seq<char>> {
    match file_name(platform, path) {
        Some(name) => extension_of(name),
        None => None,
    }
}

/// The base name that a recording of the replay at `slp_path` gets: the
/// replay's stem, or `recording` where the path has no file name.
pub open spec fn recording_stem(platform: Platform, slp_path: Seq<char>) -> Seq<char> {
    match file_stem(platform, slp_path) {
        Some(stem) => stem,
        None => "recording"@,
    }
}

/// The video file that records the replay at `slp_path`, inside
/// `recording_dir`.
pub open spec fn video_path(platform: Platform, recording_dir: Seq<char>, slp_path: Seq<char>) -> Seq<char> {
    recording_dir + seq!['/'] + recording_stem(platform, slp_path) + ".mp4"@
}

/// Whether `path` names a replay file.
pub open spec fn is_replay_path(platform: Platform, path: Seq<char>) -> bool {
    extension(platform, path) == Some("slp"@)
}

/// Whether `path` names a video file.
pub open spec fn is_video_path(platform: Platform, path: Seq<char>) -> bool {
    extension(platform, path) == Some("mp4"@)
}

proof fn lemma_last_component_start(platform: Platform, s: Seq<char>, start: int)
    requires
        0 <= start <= s.len(),
        forall|k: int| start <= k < s.len() ==> !is_separator(platform, s[k]),
        start == 0 || is_separator(platform, s[start - 1]),
    ensures
        last_component_start(platform, s) == start,
    decreases s.len() - start,
{
    if start < s.len() {
        lemma_last_component_start(platform, s.drop_last(), start);
    }
}

proof fn lemma_last_index_of(s: Seq<char>, c: char, i: int)
    requires
        0 <= i < s.len(),
        s[i] == c,
        forall|k: int| i < k < s.len() ==> s[k] != c,
    ensures
        last_index_of(s, c) == Some(i),
    decreases s.len() - i,
{
    if i < s.len() - 1 {
        lemma_last_index_of(s.drop_last(), c, i);
    }
}

proof fn lemma_no_index_of(s: Seq<char>, c: char)
    requires
        forall|k: int| 0 <= k < s.len() ==> s[k] != c,
    ensures
        last_index_of(s, c) is None,
    decreases s.len(),
{
    if s.len() > 0 {
        lemma_no_index_of(s.drop_last(), c);
    }
}

/// A file name is never empty and holds no separator.
pub proof fn lemma_file_name_is_component(platform: Platform, path: Seq<char>)
    ensures
        match file_name(platform, path) {
            Some(name) => name.len() > 0 && forall|k: int|
                0 <= k < name.len() ==> !is_separator(platform, #[trigger] name[k]),
            None => true,
        },
    decreases path.len(),
{
    if path.len() == 0 {
    } else if is_separator(platform, path.last()) {
        lemma_file_name_is_component(platform, path.drop_last());
    } else {
        let start = last_component_start(platform, path);
        lemma_component_is_clean(platform, path);
        let name = path.subrange(start, path.len() as int);
        if name == seq!['.'] && start != 0 {
            lemma_file_name_is_component(platform, path.subrange(0, start));
        }
    }
}

/// What lies behind `last_component_start` holds no separator.
proof fn lemma_component_is_clean(platform: Platform, path: Seq<char>)
    ensures
        0 <= last_component_start(platform, path) <= path.len(),
        forall|k: int| last_component_start(platform, path) <= k < path.len() ==> !is_separator(platform, path[k]),
        last_component_start(platform, path) == 0 || is_separator(platform, path[last_component_start(platform, path) - 1]),
    decreases path.len(),
{
    if path.len() == 0 || is_separator(platform, path.last()) {
    } else {
        lemma_component_is_clean(platform, path.drop_last());
        assert forall|k: int| last_component_start(platform, path) <= k < path.len() implies !is_separator(platform, 
            path[k],
        ) by {
            if k < path.len() - 1 {
                assert(path.drop_last()[k] == path[k]);
            }
        }
    }
}

/// The file name of a path that ends in a separator and then a plain name is
/// that name.
proof fn lemma_file_name_of_joined(platform: Platform, dir: Seq<char>, name: Seq<char>)
    requires
        name.len() > 0,
        forall|k: int| 0 <= k < name.len() ==> !is_separator(platform, name[k]),
        name != seq!['.'],
        name != seq!['.', '.'],
    ensures
        file_name(platform, dir + seq!['/'] + name) == Some(name),
{
    let path = dir + seq!['/'] + name;
    let start: int = dir.len() as int + 1;
    assert(path.len() == start + name.len());
    assert(forall|k: int| start <= k < path.len() ==> path[k] == name[k - start]);
    assert(path[start - 1] == '/');
    lemma_last_component_start(platform, path, start);
    assert(path.subrange(start, path.len() as int) =~= name);
    assert(path.last() == name.last());
}

/// Whether `c` separates path components.
pub fn char_is_separator(platform: Platform, c: char) -> (b: bool)
    ensures
        b == is_separator(platform, c),
{
    c == '/' || (c == '\\' && match platform {
        Platform::Windows => true,
        _ => false,
    })
}

/// The bounds of the file name inside a path.
pub fn file_name_bounds(platform: Platform, path: &Vec<char>) -> (bounds: Option<(usize, usize)>)
    ensures
        match bounds {
            Some((from, to)) => from < to <= path.len() && file_name(platform, path@) == Some(
                path@.subrange(from as int, to as int),
            ),
            None => file_name(platform, path@) is None,
        },
{
    let mut end: usize = path.len();
    assert(path@.subrange(0, end as int) =~= path@);
    loop
        invariant
            end <= path.len(),
            file_name(platform, path@) == file_name(platform, path@.subrange(0, end as int)),
        decreases end,
    {
        let ghost before = end;
        while end > 0 && char_is_separator(platform, path[end - 1])
            invariant
                end <= before <= path.len(),
                file_name(platform, path@) == file_name(platform, path@.subrange(0, end as int)),
            decreases end,
        {
            proof {
                let p = path@.subrange(0, end as int);
                assert(p.drop_last() =~= path@.subrange(0, end - 1));
            }
            end -= 1;
        }
        if end == 0 {
            return None;
        }
        let mut start: usize = end;
        while start > 0 && !char_is_separator(platform, path[start - 1])
            invariant
                start <= end <= path.len(),
                forall|k: int| start <= k < end ==> !is_separator(platform, path@[k]),
            decreases start,
        {
            start -= 1;
        }
        let ghost p = path@.subrange(0, end as int);
        proof {
            lemma_last_component_start(platform, p, start as int);
            assert(p.subrange(start as int, end as int) =~= path@.subrange(
                start as int,
                end as int,
            ));
            assert(p.subrange(0, start as int) =~= path@.subrange(0, start as int));
        }
        let ghost name = path@.subrange(start as int, end as int);
        if end - start == 1 && path[start] == '.' {
            assert(name =~= seq!['.']);
            if start == 0 {
                return None;
            }
            end = start;
        } else if end - start == 2 && path[start] == '.' && path[start + 1] == '.' {
            assert(name =~= seq!['.', '.']);
            return None;
        } else {
            proof {
                if name == seq!['.'] {
                    assert(name.len() == 1 && name[0] == '.');
                }
                if name == seq!['.', '.'] {
                    assert(name.len() == 2 && name[0] == '.' && name[1] == '.');
                }
            }
            return Some((start, end));
        }
    }
}

/// The position of the last dot in `chars[from..to]`, counted from `from`.
pub fn last_dot(chars: &Vec<char>, from: usize, to: usize) -> (dot: Option<usize>)
    requires
        from <= to <= chars.len(),
    ensures
        match dot {
            Some(i) => i < to - from && last_index_of(
                chars@.subrange(from as int, to as int),
                '.',
            ) == Some(i as int),
            None => last_index_of(chars@.subrange(from as int, to as int), '.') is None,
        },
{
    let ghost name = chars@.subrange(from as int, to as int);
    let mut i: usize = to;
    while i > from
        invariant
            from <= i <= to <= chars.len(),
            name == chars@.subrange(from as int, to as int),
            forall|k: int| i - from <= k < name.len() ==> name[k] != '.',
        decreases i,
    {
        i -= 1;
        if chars[i] == '.' {
            proof {
                assert(name[i - from] == chars@[i as int]);
                lemma_last_index_of(name, '.', i - from);
            }
            return Some(i - from);
        }
        assert(name[i - from] == chars@[i as int]);
    }
    proof {
        lemma_no_index_of(name, '.');
    }
    None
}

/// The bounds of the stem of the file name inside a path.
pub fn file_stem_bounds(platform: Platform, path: &Vec<char>) -> (bounds: Option<(usize, usize)>)
    ensures
        match bounds {
            Some((from, to)) => from < to <= path.len() && file_stem(platform, path@) == Some(
                path@.subrange(from as int, to as int),
            ),
            None => file_stem(platform, path@) is None,
        },
{
    match file_name_bounds(platform, path) {
        None => None,
        Some((from, to)) => {
            let ghost name = path@.subrange(from as int, to as int);
            match last_dot(path, from, to) {
                Some(i) => {
                    if i == 0 {
                        Some((from, to))
                    } else {
                        assert(name.subrange(0, i as int) =~= path@.subrange(
                            from as int,
                            from + i,
                        ));
                        Some((from, from + i))
                    }
                },
                None => Some((from, to)),
            }
        },
    }
}

/// The bounds of the extension of the file name inside a path. The bounds may
/// be empty: a name that ends in a dot has the empty extension.
pub fn extension_bounds(platform: Platform, path: &Vec<char>) -> (bounds: Option<(usize, usize)>)
    ensures
        match bounds {
            Some((from, to)) => from <= to <= path.len() && extension(platform, path@) == Some(
                path@.subrange(from as int, to as int),
            ),
            None => extension(platform, path@) is None,
        },
{
    match file_name_bounds(platform, path) {
        None => None,
        Some((from, to)) => {
            let ghost name = path@.subrange(from as int, to as int);
            match last_dot(path, from, to) {
                Some(i) => {
                    if i == 0 {
                        None
                    } else {
                        assert(name.subrange(i + 1, name.len() as int) =~= path@.subrange(
                            from + i + 1,
                            to as int,
                        ));
                        Some((from + i + 1, to))
                    }
                },
                None => None,
            }
        },
    }
}

/// The file name of `path`.
pub fn file_name_of(platform: Platform, path: &str) -> (name: Option<String>)
    ensures
        match name {
            Some(n) => file_name(platform, path@) == Some(n@),
            None => file_name(platform, path@) is None,
        },
{
    let chars = chars_of(path);
    match file_name_bounds(platform, &chars) {
        Some((from, to)) => Some(slice_string(path, from, to)),
        None => None,
    }
}

/// The stem of the file name of `path`.
pub fn file_stem_of(platform: Platform, path: &str) -> (stem: Option<String>)
    ensures
        match stem {
            Some(s) => file_stem(platform, path@) == Some(s@),
            None => file_stem(platform, path@) is None,
        },
{
    let chars = chars_of(path);
    match file_stem_bounds(platform, &chars) {
        Some((from, to)) => Some(slice_string(path, from, to)),
        None => None,
    }
}

/// Whether the file name of `path` has exactly the extension `ext`.
pub fn has_extension(platform: Platform, path: &str, ext: &str) -> (b: bool)
    ensures
        b == (extension(platform, path@) == Some(ext@)),
{
    let chars = chars_of(path);
    let wanted = chars_of(ext);
    match extension_bounds(platform, &chars) {
        Some((from, to)) => {
            let same = to - from == wanted.len() && matches_at(&chars, &wanted, from);
            proof {
                let found = chars@.subrange(from as int, to as int);
                if found == wanted@ {
                    assert(found.len() == wanted@.len());
                }
            }
            same
        },
        None => false,
    }
}

/// Whether `path` names a replay file, one with the extension `slp`.
pub fn is_replay_file(platform: Platform, path: &str) -> (b: bool)
    ensures
        b == is_replay_path(platform, path@),
{
    has_extension(platform, path, "slp")
}

/// Whether `path` names a video file, one with the extension `mp4`.
pub fn is_video_file(platform: Platform, path: &str) -> (b: bool)
    ensures
        b == is_video_path(platform, path@),
{
    has_extension(platform, path, "mp4")
}

/// The path of the video that records the replay at `slp_path`: the replay's
/// stem with the extension `mp4`, inside `recording_dir`.
pub fn video_path_for(platform: Platform, recording_dir: &str, slp_path: &str) -> (output: String)
    ensures
        output@ == video_path(platform, recording_dir@, slp_path@),
{
    let mut output = recording_dir.to_owned();
    output.append("/");
    proof {
        reveal_strlit("/");
        assert("/"@ =~= seq!['/']);
    }
    match file_stem_of(platform, slp_path) {
        Some(stem) => {
            output.append(stem.as_str());
        },
        None => {
            output.append("recording");
        },
    }
    output.append(".mp4");
    output
}

/// A replay named `game.ext` is recorded into a video whose file name is
/// `game.mp4`, whatever the directories on either side.
pub proof fn lemma_video_keeps_game_name(platform: Platform, recording_dir: Seq<char>,
    slp_path: Seq<char>,
    game: Seq<char>,
    ext: Seq<char>,
)
    requires
        file_name(platform, slp_path) == Some(game + seq!['.'] + ext),
        game.len() > 0,
        !ext.contains('.'),
    ensures
        recording_stem(platform, slp_path) == game,
        video_path(platform, recording_dir, slp_path) == recording_dir + seq!['/'] + game + ".mp4"@,
        file_name(platform, video_path(platform, recording_dir, slp_path)) == Some(game + ".mp4"@),
{
    let name = game + seq!['.'] + ext;
    let dot = game.len() as int;
    assert(name[dot] == '.');
    assert forall|k: int| dot < k < name.len() implies name[k] != '.' by {
        assert(name[k] == ext[k - dot - 1]);
        assert(ext.contains(ext[k - dot - 1]));
    }
    lemma_last_index_of(name, '.', dot);
    assert(name.subrange(0, dot) =~= game);
    lemma_file_name_is_component(platform, slp_path);
    reveal_strlit(".mp4");
    let video_name = game + ".mp4"@;
    assert forall|k: int| 0 <= k < video_name.len() implies !is_separator(platform, video_name[k]) by {
        if k < game.len() {
            assert(video_name[k] == name[k]);
        }
    }
    assert(video_name.len() >= 5);
    lemma_file_name_of_joined(platform, recording_dir, video_name);
    assert(recording_dir + seq!['/'] + game + ".mp4"@ =~= recording_dir + seq!['/'] + video_name);
}

/// Replays with different stems never share a video path.
pub proof fn lemma_video_path_tells_stems_apart(platform: Platform, recording_dir: Seq<char>,
    first: Seq<char>,
    second: Seq<char>,
)
    requires
        video_path(platform, recording_dir, first) == video_path(platform, recording_dir, second),
    ensures
        recording_stem(platform, first) == recording_stem(platform, second),
{
    let a = recording_stem(platform, first);
    let b = recording_stem(platform, second);
    let head = recording_dir + seq!['/'];
    let tail = ".mp4"@;
    let pa = head + a + tail;
    let pb = head + b + tail;
    assert(pa.len() == pb.len());
    assert(a.len() == b.len());
    assert forall|k: int| 0 <= k < a.len() implies a[k] == b[k] by {
        assert(pa[head.len() + k] == a[k]);
        assert(pb[head.len() + k] == b[k]);
    }
    assert(a =~= b);
}

} // verus!
