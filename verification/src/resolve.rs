//! Resolving the window to capture among the windows of the desktop.
//!
//! Three questions are answered here: is the game's window open at all, which
//! window does a stored identifier name, and which window does a capture
//! session record.

use crate::error::CaptureError;
use crate::target::{identifier_pid, identifier_title, parse_identifier, TargetSelection, TargetSelectionView};
use crate::text::{
    chars_of, char_digit_value, char_is_digit, contains, contains_str, contains_sub, decimal_value, find,
    first_occurrence, is_digit, leading_digits, lowercase, lowercase_of, parse_u32, same_text,
    sub_vec, trim, trim_start, trim_start_index, trimmed,
};
use crate::window::{names_game, score_window, text_names_game, window_score, GameWindow};
use vstd::prelude::*;
use vstd::string::*;

verus! {

/// How the windows are narrowed before the game's window is looked for.
pub enum WindowFilter {
    /// Only windows of this process.
    Pid(u32),
    /// Only windows whose lower-case title contains this text.
    Title(Seq<char>),
    /// Only windows of a process whose name names the game.
    GameProcess,
}

/// The filter that a stored identifier asks for. An identifier that holds
/// `PID:` filters by the number that follows it, if there is one that fits;
/// any other identifier filters by title; without an identifier, and where the
/// number cannot be read, the process name decides.
pub open spec fn stored_filter(stored: Option<Seq<char>>) -> WindowFilter {
    match stored {
        Some(raw) => {
            let id = trim(raw);
            if id.len() == 0 {
                WindowFilter::GameProcess
            } else {
                match first_occurrence(id, "PID:"@) {
                    Some(pos) => match parse_u32(
                        leading_digits(trim_start(id.subrange(pos + "PID:"@.len(), id.len() as int))),
                    ) {
                        Some(pid) => WindowFilter::Pid(pid),
                        None => WindowFilter::GameProcess,
                    },
                    None => WindowFilter::Title(lowercase_of(id)),
                }
            }
        },
        None => WindowFilter::GameProcess,
    }
}

/// Whether a window passes a filter.
pub open spec fn passes(filter: WindowFilter, w: GameWindow) -> bool {
    match filter {
        WindowFilter::Pid(pid) => w.process_id == pid,
        WindowFilter::Title(title) => contains_sub(lowercase_of(w.window_title@), title),
        WindowFilter::GameProcess => names_game(lowercase_of(w.process_name@)),
    }
}

/// The score from which a window counts as the game's window.
pub open spec fn detection_threshold() -> int {
    4
}

/// Whether the game's window is among `windows`: some window passes the
/// filter of the stored identifier and reaches the detection threshold.
pub open spec fn game_window_detected(windows: Seq<GameWindow>, stored: Option<Seq<char>>) -> bool {
    exists|i: int|
        0 <= i < windows.len() && passes(stored_filter(stored), #[trigger] windows[i])
            && window_score(windows[i]) >= detection_threshold()
}

proof fn lemma_leading_digits(s: Seq<char>, n: int)
    requires
        0 <= n <= s.len(),
        forall|k: int| 0 <= k < n ==> is_digit(s[k]),
        n == s.len() || !is_digit(s[n]),
    ensures
        leading_digits(s) == s.subrange(0, n),
    decreases n,
{
    if n == 0 {
        assert(s.subrange(0, 0) =~= Seq::<char>::empty());
    } else {
        let rest = s.drop_first();
        assert forall|k: int| 0 <= k < n - 1 implies is_digit(rest[k]) by {
            assert(rest[k] == s[k + 1]);
        }
        lemma_leading_digits(rest, n - 1);
        assert(seq![s[0]] + rest.subrange(0, n - 1) =~= s.subrange(0, n));
    }
}

/// Reads the decimal digits that `chars[from..to]` begins with as one
/// unsigned 32-bit number.
pub fn parse_leading_digits(chars: &Vec<char>, from: usize, to: usize) -> (value: Option<u32>)
    requires
        from <= to <= chars.len(),
    ensures
        value == parse_u32(leading_digits(chars@.subrange(from as int, to as int))),
{
    let mut acc: u64 = 0;
    let mut overflow: bool = false;
    let mut i: usize = from;
    while i < to && char_is_digit(chars[i])
        invariant
            from <= i <= to <= chars.len(),
            forall|k: int| from <= k < i ==> is_digit(chars@[k]),
            !overflow ==> acc == decimal_value(chars@.subrange(from as int, i as int)),
            !overflow ==> acc <= u32::MAX,
            overflow ==> decimal_value(chars@.subrange(from as int, i as int)) > u32::MAX,
        decreases to - i,
    {
        proof {
            let after = chars@.subrange(from as int, i + 1);
            assert(after.drop_last() =~= chars@.subrange(from as int, i as int));
        }
        if !overflow {
            let d: u64 = char_digit_value(chars[i]);
            acc = acc * 10 + d;
            if acc > 0xFFFF_FFFF {
                overflow = true;
            }
        }
        i += 1;
    }
    proof {
        let s = chars@.subrange(from as int, to as int);
        lemma_leading_digits(s, i - from);
        assert(s.subrange(0, i - from) =~= chars@.subrange(from as int, i as int));
    }
    if i > from && !overflow {
        Some(acc as u32)
    } else {
        None
    }
}

/// Whether the game's window is open: whether one of `windows` passes the
/// filter of the stored identifier and reaches the detection threshold.
pub fn check_game_window(windows: &Vec<GameWindow>, stored_id: Option<&str>) -> (open: bool)
    ensures
        open == game_window_detected(
            windows@,
            match stored_id {
                Some(id) => Some(id@),
                None => None,
            },
        ),
{
    let ghost stored: Option<Seq<char>> = match stored_id {
        Some(id) => Some(id@),
        None => None,
    };
    let mut pid_filter: Option<u32> = None;
    let mut title_filter: Option<Vec<char>> = None;
    match stored_id {
        Some(raw) => {
            let id = trimmed(raw);
            let id_chars = chars_of(id.as_str());
            if id_chars.len() > 0 {
                let marker = chars_of("PID:");
                proof {
                    reveal_strlit("PID:");
                }
                match find(&id_chars, &marker) {
                    Some(pos) => {
                        let start = trim_start_index(&id_chars, pos + 4, id_chars.len());
                        pid_filter = parse_leading_digits(&id_chars, start, id_chars.len());
                    },
                    None => {
                        title_filter = Some(chars_of(lowercase(id.as_str()).as_str()));
                    },
                }
            }
        },
        None => {},
    }
    let ghost filter = stored_filter(stored);
    assert(match filter {
        WindowFilter::Pid(pid) => pid_filter == Some(pid) && title_filter is None,
        WindowFilter::Title(title) => pid_filter is None && title_filter is Some
            && title_filter.unwrap()@ == title,
        WindowFilter::GameProcess => pid_filter is None && title_filter is None,
    });
    let mut found = false;
    let mut i: usize = 0;
    while i < windows.len()
        invariant
            i <= windows.len(),
            filter == stored_filter(stored),
            match filter {
                WindowFilter::Pid(pid) => pid_filter == Some(pid) && title_filter is None,
                WindowFilter::Title(title) => pid_filter is None && title_filter is Some
                    && title_filter.unwrap()@ == title,
                WindowFilter::GameProcess => pid_filter is None && title_filter is None,
            },
            found == exists|k: int|
                0 <= k < i && passes(filter, #[trigger] windows@[k]) && window_score(windows@[k])
                    >= detection_threshold(),
        decreases windows.len() - i,
    {
        let w = &windows[i];
        let passed = match pid_filter {
            Some(pid) => w.process_id == pid,
            None => match &title_filter {
                Some(title) => {
                    let lower = chars_of(lowercase(w.window_title.as_str()).as_str());
                    contains(&lower, title)
                },
                None => {
                    let lower = chars_of(lowercase(w.process_name.as_str()).as_str());
                    text_names_game(&lower)
                },
            },
        };
        if passed && score_window(w) >= 4 {
            found = true;
        }
        i += 1;
    }
    found
}

/// Whether a window answers to the title and process id of an identifier:
/// it has a title, belongs to the process if one is asked for, and its
/// lower-case title contains the lower-case title asked for.
pub open spec fn answers_to(w: GameWindow, pid: Option<u32>, needle: Seq<char>) -> bool {
    &&& match pid {
        Some(p) => w.process_id == p,
        None => true,
    }
    &&& w.window_title@.len() > 0
    &&& contains_sub(lowercase_of(w.window_title@), needle)
}

/// Whether `i` is the first window that answers.
pub open spec fn is_first_answer(
    windows: Seq<GameWindow>,
    pid: Option<u32>,
    needle: Seq<char>,
    i: int,
) -> bool {
    &&& 0 <= i < windows.len()
    &&& answers_to(windows[i], pid, needle)
    &&& forall|j: int| 0 <= j < i ==> !answers_to(#[trigger] windows[j], pid, needle)
}

/// Whether no window answers.
pub open spec fn no_answer(windows: Seq<GameWindow>, pid: Option<u32>, needle: Seq<char>) -> bool {
    forall|j: int| 0 <= j < windows.len() ==> !answers_to(#[trigger] windows[j], pid, needle)
}

/// The first window that answers to a title and a process id.
fn first_answer(windows: &Vec<GameWindow>, pid: Option<u32>, needle: &Vec<char>) -> (found: Option<
    usize,
>)
    ensures
        match found {
            Some(i) => is_first_answer(windows@, pid, needle@, i as int),
            None => no_answer(windows@, pid, needle@),
        },
{
    let mut i: usize = 0;
    while i < windows.len()
        invariant
            i <= windows.len(),
            forall|j: int| 0 <= j < i ==> !answers_to(#[trigger] windows@[j], pid, needle@),
        decreases windows.len() - i,
    {
        let w = &windows[i];
        let of_process = match pid {
            Some(p) => w.process_id == p,
            None => true,
        };
        if of_process && w.window_title.as_str().unicode_len() > 0 {
            let lower = chars_of(lowercase(w.window_title.as_str()).as_str());
            if contains(&lower, needle) {
                return Some(i);
            }
        }
        i += 1;
    }
    None
}

/// Finds the window that a stored identifier names.
///
/// The first window of the identifier's process whose title contains the
/// identifier's title is taken. Where the identifier names a process and no
/// window of it answers, `widen` decides: the search is repeated over all
/// processes, or it fails. An identifier without title and process id names
/// no window.
pub fn find_window_handle(identifier: &str, windows: &Vec<GameWindow>, widen: bool) -> (found:
    Option<usize>)
    ensures
        ({
            let title = identifier_title(identifier@);
            let pid = identifier_pid(identifier@);
            let needle = lowercase_of(title);
            if title.len() == 0 && pid is None {
                found is None
            } else if !no_answer(windows@, pid, needle) {
                found is Some && is_first_answer(windows@, pid, needle, found.unwrap() as int)
            } else if pid is Some && widen && !no_answer(windows@, None, needle) {
                found is Some && is_first_answer(windows@, None, needle, found.unwrap() as int)
            } else {
                found is None
            }
        }),
{
    let (title, pid) = parse_identifier(identifier);
    if title.as_str().unicode_len() == 0 && pid.is_none() {
        return None;
    }
    let needle = chars_of(lowercase(title.as_str()).as_str());
    let first = first_answer(windows, pid, &needle);
    if first.is_none() && pid.is_some() && widen {
        return first_answer(windows, None, &needle);
    }
    first
}

/// The score with which a capture session weighs a window whose title and
/// class name are given in lower case. A window under 200 by 200 scores -1;
/// any other scores its area, raised where its title contains the hint or
/// names the game and where its class is one that the emulator renders into.
pub open spec fn capture_score_of(
    title: Seq<char>,
    class: Seq<char>,
    width: int,
    height: int,
    hint: Option<Seq<char>>,
) -> int {
    if width < 200 || height < 200 {
        -1
    } else {
        width * height + (if hint is Some && contains_sub(title, hint.unwrap()) {
            1_000_000_000int
        } else {
            0
        }) + (if names_game(title) {
            500_000_000int
        } else {
            0
        }) + (if contains_sub(class, "d3dproxy"@) {
            5_000_000_000int
        } else {
            0
        }) + (if contains_sub(class, "wxwindownr"@) {
            1_000_000_000int
        } else {
            0
        })
    }
}

/// The score with which a capture session weighs a window, given the title
/// that the user asked for.
pub open spec fn capture_score(w: GameWindow, hint: Option<Seq<char>>) -> int {
    capture_score_of(
        lowercase_of(w.window_title@),
        lowercase_of(w.class_name@),
        w.width as int,
        w.height as int,
        match hint {
            Some(h) => Some(lowercase_of(h)),
            None => None,
        },
    )
}

/// The capture score of a window whose title, class name and hint are given
/// in lower case.
pub fn capture_score_lowered(
    title: &Vec<char>,
    class: &Vec<char>,
    width: i32,
    height: i32,
    hint: &Option<Vec<char>>,
) -> (score: i64)
    ensures
        score == capture_score_of(
            title@,
            class@,
            width as int,
            height as int,
            match hint {
                Some(h) => Some(h@),
                None => None,
            },
        ),
{
    if width < 200 || height < 200 {
        return -1;
    }
    let w: i64 = width as i64;
    let h: i64 = height as i64;
    assert(0 <= w * h <= 0x4000_0000_0000_0000) by (nonlinear_arith)
        requires
            200 <= w <= 0x8000_0000,
            200 <= h <= 0x8000_0000,
    ;
    let mut score: i64 = w * h;
    match hint {
        Some(text) => {
            if contains(title, text) {
                score += 1_000_000_000;
            }
        },
        None => {},
    }
    if text_names_game(title) {
        score += 500_000_000;
    }
    if contains_str(class, "d3dproxy") {
        score += 5_000_000_000;
    }
    if contains_str(class, "wxwindownr") {
        score += 1_000_000_000;
    }
    score
}

/// The score with which a capture session weighs a window.
pub fn score_capture_window(w: &GameWindow, hint: Option<&str>) -> (score: i64)
    ensures
        score == capture_score(
            *w,
            match hint {
                Some(h) => Some(h@),
                None => None,
            },
        ),
{
    let title = chars_of(lowercase(w.window_title.as_str()).as_str());
    let class = chars_of(lowercase(w.class_name.as_str()).as_str());
    let lowered: Option<Vec<char>> = match hint {
        Some(h) => Some(chars_of(lowercase(h).as_str())),
        None => None,
    };
    capture_score_lowered(&title, &class, w.width, w.height, &lowered)
}

/// Which windows a selection considers: those of its process, or all.
pub open spec fn considered(w: GameWindow, pid: Option<u32>) -> bool {
    match pid {
        Some(p) => w.process_id == p,
        None => true,
    }
}

/// Whether `i` is the best of the considered windows: none scores higher,
/// and none behind it scores as high.
pub open spec fn is_best(windows: Seq<GameWindow>, pid: Option<u32>, hint: Option<Seq<char>>, i: int) -> bool {
    &&& 0 <= i < windows.len()
    &&& considered(windows[i], pid)
    &&& forall|j: int|
        0 <= j < windows.len() && considered(#[trigger] windows[j], pid) ==> capture_score(
            windows[j],
            hint,
        ) <= capture_score(windows[i], hint)
    &&& forall|j: int|
        i < j < windows.len() && considered(#[trigger] windows[j], pid) ==> capture_score(
            windows[j],
            hint,
        ) < capture_score(windows[i], hint)
}

/// Whether `i` is the window that a title alone selects: the first window
/// with exactly that title, or, where there is none, the first whose title
/// contains it.
pub open spec fn is_titled(windows: Seq<GameWindow>, title: Seq<char>, i: int) -> bool {
    &&& 0 <= i < windows.len()
    &&& {
        ||| {
            &&& windows[i].window_title@ == title
            &&& forall|j: int| 0 <= j < i ==> (#[trigger] windows[j]).window_title@ != title
        }
        ||| {
            &&& forall|j: int|
                0 <= j < windows.len() ==> (#[trigger] windows[j]).window_title@ != title
            &&& contains_sub(windows[i].window_title@, title)
            &&& forall|j: int|
                0 <= j < i ==> !contains_sub((#[trigger] windows[j]).window_title@, title)
        }
    }
}

/// Whether the process `pid` has a window among `windows`.
pub open spec fn has_window_of(windows: Seq<GameWindow>, pid: u32) -> bool {
    exists|j: int| 0 <= j < windows.len() && (#[trigger] windows[j]).process_id == pid
}

/// Whether `i` is the window that a selection picks among `windows`.
///
/// A selection with a process id picks the best window of that process, its
/// title serving as the hint. Where the process has no window, `widen`
/// decides: the selection picks by its title, if it has one, or it picks
/// nothing. A selection with a title alone picks by title. The empty
/// selection picks the best of all windows, with `slippi` as hint.
pub open spec fn is_picked(
    windows: Seq<GameWindow>,
    selection: TargetSelectionView,
    widen: bool,
    i: int,
) -> bool {
    match selection.pid {
        Some(pid) => if has_window_of(windows, pid) {
            is_best(windows, Some(pid), selection.title, i)
        } else {
            widen && selection.title is Some && is_titled(windows, selection.title.unwrap(), i)
        },
        None => match selection.title {
            Some(title) => is_titled(windows, title, i),
            None => is_best(windows, None, Some("slippi"@), i),
        },
    }
}

/// At most one window is picked.
pub proof fn lemma_pick_is_unique(
    windows: Seq<GameWindow>,
    selection: TargetSelectionView,
    widen: bool,
    i: int,
    j: int,
)
    requires
        is_picked(windows, selection, widen, i),
        is_picked(windows, selection, widen, j),
    ensures
        i == j,
{
}

/// A selection that names a process with a window picks a window of that
/// process, however the windows of other processes score: the best of its own
/// windows.
pub proof fn lemma_process_id_decides(
    windows: Seq<GameWindow>,
    selection: TargetSelectionView,
    widen: bool,
    i: int,
)
    requires
        selection.pid is Some,
        has_window_of(windows, selection.pid.unwrap()),
        is_picked(windows, selection, widen, i),
    ensures
        windows[i].process_id == selection.pid.unwrap(),
        forall|j: int|
            0 <= j < windows.len() && (#[trigger] windows[j]).process_id == selection.pid.unwrap()
                ==> capture_score(windows[j], selection.title) <= capture_score(
                windows[i],
                selection.title,
            ),
{
}

/// `value` rounded down to an even number.
pub open spec fn even_floor(value: int) -> int {
    value - value % 2
}

/// Rounds a dimension down to an even number, as video encoders require.
pub fn even_dimension(value: u32) -> (even: u32)
    ensures
        even == even_floor(value as int),
        even % 2 == 0,
{
    if value % 2 == 0 {
        value
    } else {
        value - 1
    }
}

/// The side of the captured frame for a window side: never negative, and
/// rounded down to an even number.
pub open spec fn frame_side(side: int) -> int {
    even_floor(if side < 0 {
        0
    } else {
        side
    })
}

/// Whether the frame of a window is large enough to be encoded: each side
/// is at least 2.
pub open spec fn is_encodable(w: GameWindow) -> bool {
    frame_side(w.width as int) >= 2 && frame_side(w.height as int) >= 2
}

/// Whether a selection names nothing: neither a title nor a process.
pub open spec fn is_empty_selection(selection: TargetSelectionView) -> bool {
    selection.pid is None && selection.title is None
}

/// The lowest capture score with which a window is recorded that the user
/// did not select. The score of a window under 200 by 200 lies below it.
pub open spec fn capture_threshold() -> int {
    0
}

/// The text that a selection weighs titles by: its own title, or `slippi`
/// where it names neither a title nor a process.
pub open spec fn selection_hint(selection: TargetSelectionView) -> Option<Seq<char>> {
    match selection.pid {
        Some(_) => selection.title,
        None => match selection.title {
            Some(title) => Some(title),
            None => Some("slippi"@),
        },
    }
}

/// Whether a window scores high enough for the selection to record it.
pub open spec fn reaches_threshold(w: GameWindow, selection: TargetSelectionView) -> bool {
    capture_score(w, selection_hint(selection)) >= capture_threshold()
}

/// Whether the window that a selection picked is recorded. A window that
/// the user selected, by process or by title, is recorded whatever it
/// scores, if only its frame can be encoded. A window that was picked
/// without a selection must reach the threshold as well.
pub open spec fn is_recordable(w: GameWindow, selection: TargetSelectionView) -> bool {
    is_encodable(w) && (is_empty_selection(selection) ==> reaches_threshold(w, selection))
}

/// The window that a capture session records, with the size of its frame.
#[derive(Debug)]
pub struct TargetWindow {
    /// The position of the window among the candidates.
    pub index: usize,
    pub title: String,
    pub pid: u32,
    pub width: u32,
    pub height: u32,
}

/// A window under 200 by 200 never reaches the threshold, whatever its title
/// and class, and so is never recorded without a selection.
pub proof fn lemma_small_windows_miss_the_threshold(w: GameWindow, selection: TargetSelectionView)
    requires
        w.width < 200 || w.height < 200,
    ensures
        !reaches_threshold(w, selection),
        is_empty_selection(selection) ==> !is_recordable(w, selection),
{
}

/// The window that the user selected is recorded whatever it scores: its
/// size and shape count for nothing beyond a frame that can be encoded.
pub proof fn lemma_selected_window_is_recorded(w: GameWindow, selection: TargetSelectionView)
    requires
        !is_empty_selection(selection),
        w.width >= 2,
        w.height >= 2,
    ensures
        is_recordable(w, selection),
{
}

/// The best of the considered windows.
fn pick_best(windows: &Vec<GameWindow>, pid: Option<u32>, hint: Option<&str>) -> (best: Option<
    usize,
>)
    ensures
        match best {
            Some(i) => is_best(
                windows@,
                pid,
                match hint {
                    Some(h) => Some(h@),
                    None => None,
                },
                i as int,
            ),
            None => forall|j: int|
                0 <= j < windows.len() ==> !considered(#[trigger] windows@[j], pid),
        },
{
    let ghost hint_text: Option<Seq<char>> = match hint {
        Some(h) => Some(h@),
        None => None,
    };
    let mut best: Option<usize> = None;
    let mut best_score: i64 = 0;
    let mut i: usize = 0;
    while i < windows.len()
        invariant
            i <= windows.len(),
            hint_text == match hint {
                Some(h) => Some(h@),
                None => None,
            },
            match best {
                Some(b) => {
                    &&& b < i
                    &&& considered(windows@[b as int], pid)
                    &&& best_score == capture_score(windows@[b as int], hint_text)
                    &&& forall|j: int|
                        0 <= j < i && considered(#[trigger] windows@[j], pid) ==> capture_score(
                            windows@[j],
                            hint_text,
                        ) <= best_score
                    &&& forall|j: int|
                        b < j < i && considered(#[trigger] windows@[j], pid) ==> capture_score(
                            windows@[j],
                            hint_text,
                        ) < best_score
                },
                None => forall|j: int| 0 <= j < i ==> !considered(#[trigger] windows@[j], pid),
            },
        decreases windows.len() - i,
    {
        let w = &windows[i];
        let of_process = match pid {
            Some(p) => w.process_id == p,
            None => true,
        };
        if of_process {
            let score = score_capture_window(w, hint);
            let better = match best {
                Some(_) => score >= best_score,
                None => true,
            };
            if better {
                best = Some(i);
                best_score = score;
            }
        }
        i += 1;
    }
    best
}

/// The window that a title alone selects.
fn pick_titled(windows: &Vec<GameWindow>, title: &str) -> (picked: Option<usize>)
    ensures
        match picked {
            Some(i) => is_titled(windows@, title@, i as int),
            None => forall|j: int| 0 <= j < windows.len() ==> !is_titled(windows@, title@, j),
        },
{
    let wanted = chars_of(title);
    let mut i: usize = 0;
    while i < windows.len()
        invariant
            i <= windows.len(),
            forall|j: int| 0 <= j < i ==> (#[trigger] windows@[j]).window_title@ != title@,
        decreases windows.len() - i,
    {
        if same_text(windows[i].window_title.as_str(), title) {
            return Some(i);
        }
        i += 1;
    }
    let mut k: usize = 0;
    while k < windows.len()
        invariant
            k <= windows.len(),
            wanted@ == title@,
            forall|j: int|
                0 <= j < windows.len() ==> (#[trigger] windows@[j]).window_title@ != title@,
            forall|j: int|
                0 <= j < k ==> !contains_sub((#[trigger] windows@[j]).window_title@, title@),
        decreases windows.len() - k,
    {
        let candidate = chars_of(windows[k].window_title.as_str());
        if contains(&candidate, &wanted) {
            return Some(k);
        }
        k += 1;
    }
    None
}

/// Resolves the window that a capture session records.
///
/// The window that the selection picks is taken, and its frame is its size
/// with negative sides raised to zero and odd sides rounded down. The target
/// is not found where the selection picks no window, where the frame of the
/// picked window has a side under 2, and where nothing was selected and the
/// picked window scores under the threshold. `widen` says whether a
/// selection whose process has no window may still pick by its title.
pub fn find_best_window(selection: &TargetSelection, windows: &Vec<GameWindow>, widen: bool) -> (target:
    Result<TargetWindow, CaptureError>)
    ensures
        match target {
            Ok(t) => {
                &&& is_picked(windows@, selection@, widen, t.index as int)
                &&& is_recordable(windows@[t.index as int], selection@)
                &&& t.width >= 2
                &&& t.height >= 2
                &&& t.title@ == windows@[t.index as int].window_title@
                &&& t.pid == windows@[t.index as int].process_id
                &&& t.width == frame_side(windows@[t.index as int].width as int)
                &&& t.height == frame_side(windows@[t.index as int].height as int)
            },
            Err(e) => {
                &&& e == CaptureError::TargetNotFound
                &&& forall|i: int|
                    is_picked(windows@, selection@, widen, i) ==> !is_recordable(
                        #[trigger] windows@[i],
                        selection@,
                    )
            },
        },
{
    let picked = match selection.pid {
        Some(pid) => {
            let hint: Option<&str> = match &selection.title {
                Some(t) => Some(t.as_str()),
                None => None,
            };
            match pick_best(windows, Some(pid), hint) {
                Some(i) => Some(i),
                None => match hint {
                    Some(title) => if widen {
                        pick_titled(windows, title)
                    } else {
                        None
                    },
                    None => None,
                },
            }
        },
        None => match &selection.title {
            Some(title) => pick_titled(windows, title.as_str()),
            None => pick_best(windows, None, Some("slippi")),
        },
    };
    let unselected = selection.pid.is_none() && selection.title.is_none();
    match picked {
        Some(i) => {
            let w = &windows[i];
            let raw_width: u32 = if w.width < 0 {
                0
            } else {
                w.width as u32
            };
            let raw_height: u32 = if w.height < 0 {
                0
            } else {
                w.height as u32
            };
            let width = even_dimension(raw_width);
            let height = even_dimension(raw_height);
            let scored = !unselected || score_capture_window(w, Some("slippi")) >= 0;
            if width < 2 || height < 2 || !scored {
                proof {
                    assert forall|k: int|
                        is_picked(windows@, selection@, widen, k) implies !is_recordable(
                        #[trigger] windows@[k],
                        selection@,
                    ) by {
                        lemma_pick_is_unique(windows@, selection@, widen, k, i as int);
                    }
                }
                return Err(CaptureError::TargetNotFound);
            }
            Ok(
                TargetWindow {
                    index: i,
                    title: w.window_title.clone(),
                    pid: w.process_id,
                    width,
                    height,
                },
            )
        },
        None => {
            proof {
                assert forall|k: int|
                    is_picked(windows@, selection@, widen, k) implies !is_recordable(
                    #[trigger] windows@[k],
                    selection@,
                ) by {
                    if selection@.pid is Some || selection@.title is None {
                        assert(considered(windows@[k], selection@.pid));
                    }
                }
            }
            Err(CaptureError::TargetNotFound)
        },
    }
}

/// Whether a title is that of the emulator's game window on a desktop where
/// titles are matched as written: it names the emulator or the game, and no
/// configuration, settings or graphics dialog.
pub open spec fn is_dolphin_title(title: Seq<char>) -> bool {
    &&& {
        ||| contains_sub(title, "Slippi Dolphin"@)
        ||| contains_sub(title, "Melee"@)
        ||| (contains_sub(title, "Dolphin"@) && contains_sub(title, "FPS"@))
    }
    &&& !contains_sub(title, "Configuration"@)
    &&& !contains_sub(title, "Settings"@)
    &&& !contains_sub(title, "Graphics"@)
}

/// The first window whose title is that of the emulator's game window.
pub fn find_dolphin_window(windows: &Vec<GameWindow>) -> (found: Result<usize, CaptureError>)
    ensures
        match found {
            Ok(i) => {
                &&& i < windows.len()
                &&& is_dolphin_title(windows@[i as int].window_title@)
                &&& forall|j: int|
                    0 <= j < i ==> !is_dolphin_title((#[trigger] windows@[j]).window_title@)
            },
            Err(e) => {
                &&& e == CaptureError::TargetNotFound
                &&& forall|j: int|
                    0 <= j < windows.len() ==> !is_dolphin_title(
                        (#[trigger] windows@[j]).window_title@,
                    )
            },
        },
{
    let mut i: usize = 0;
    while i < windows.len()
        invariant
            i <= windows.len(),
            forall|j: int| 0 <= j < i ==> !is_dolphin_title((#[trigger] windows@[j]).window_title@),
        decreases windows.len() - i,
    {
        let title = chars_of(windows[i].window_title.as_str());
        let named = contains_str(&title, "Slippi Dolphin") || contains_str(&title, "Melee") || (
        contains_str(&title, "Dolphin") && contains_str(&title, "FPS"));
        if named && !contains_str(&title, "Configuration") && !contains_str(&title, "Settings")
            && !contains_str(&title, "Graphics") {
            return Ok(i);
        }
        i += 1;
    }
    Err(CaptureError::TargetNotFound)
}

/// The smallest side that a captured frame is given.
pub open spec fn min_dimension() -> int {
    320
}

/// The size of the frame for a window of the given size: each side raised to
/// the smallest side where it is under it.
pub fn desired_dimensions(width: i32, height: i32) -> (size: (i32, i32))
    ensures
        size.0 == if width < min_dimension() {
            min_dimension()
        } else {
            width as int
        },
        size.1 == if height < min_dimension() {
            min_dimension()
        } else {
            height as int
        },
{
    let w: i32 = if width < 320 {
        320
    } else {
        width
    };
    let h: i32 = if height < 320 {
        320
    } else {
        height
    };
    (w, h)
}

} // verus!
