//! Candidate windows and the heuristic that tells a game window from the rest.

use crate::text::{
    chars_of, contains_str, contains_sub, has_prefix, lowercase, lowercase_of, starts_with_str,
};
use vstd::prelude::*;
use vstd::string::*;

verus! {

/// A window on the desktop, as the capture layer sees it.
#[derive(Debug)]
pub struct GameWindow {
    pub process_name: String,
    pub window_title: String,
    pub width: i32,
    pub height: i32,
    pub process_id: u32,
    pub class_name: String,
    pub is_cloaked: bool,
    pub is_child: bool,
    pub has_owner: bool,
}

impl Clone for GameWindow {
    fn clone(&self) -> (copy: Self)
        ensures
            copy == *self,
    {
        GameWindow {
            process_name: self.process_name.clone(),
            window_title: self.window_title.clone(),
            width: self.width,
            height: self.height,
            process_id: self.process_id,
            class_name: self.class_name.clone(),
            is_cloaked: self.is_cloaked,
            is_child: self.is_child,
            has_owner: self.has_owner,
        }
    }
}

/// Whether a lower-case text names the game or its emulator.
pub open spec fn names_game(text: Seq<char>) -> bool {
    contains_sub(text, "slippi"@) || contains_sub(text, "melee"@) || contains_sub(
        text,
        "dolphin"@,
    )
}

/// Whether a lower-case title belongs to a launcher or a settings dialog.
pub open spec fn names_launcher(text: Seq<char>) -> bool {
    contains_sub(text, "launcher"@) || contains_sub(text, "settings"@) || contains_sub(
        text,
        "configuration"@,
    )
}

/// Whether a lower-case class name is one that the emulator renders into.
pub open spec fn is_render_class(class: Seq<char>) -> bool {
    contains_sub(class, "dolphin"@) || contains_sub(class, "wxwindownr"@)
}

/// Whether a lower-case class name is that of a dialog or a tool tip.
pub open spec fn is_dialog_class(class: Seq<char>) -> bool {
    has_prefix(class, "#32770"@) || contains_sub(class, "tooltips"@)
}

/// Whether a window is large enough to show the game, and visible.
pub open spec fn is_game_sized(width: int, height: int, cloaked: bool) -> bool {
    width >= 640 && height >= 480 && !cloaked
}

/// Whether `width / height` lies less than 0.08 away from `num / den`.
pub open spec fn near_ratio(width: int, height: int, num: int, den: int) -> bool {
    let diff = den * width - num * height;
    let dist = if diff < 0 {
        -diff
    } else {
        diff
    };
    height > 0 && 25 * dist < 2 * den * height
}

/// Whether a window has one of the two common shapes, 4:3 or 16:9.
pub open spec fn has_common_aspect(width: int, height: int) -> bool {
    near_ratio(width, height, 4, 3) || near_ratio(width, height, 16, 9)
}

/// The score of a window with the given lower-case title and class name: the
/// sum of the weights of the signals that it shows.
pub open spec fn score_of(
    title: Seq<char>,
    class: Seq<char>,
    width: int,
    height: int,
    cloaked: bool,
) -> int {
    (if names_game(title) {
        3int
    } else {
        0
    }) + (if names_launcher(title) {
        -3int
    } else {
        0
    }) + (if is_game_sized(width, height, cloaked) {
        3int
    } else {
        0
    }) + (if has_common_aspect(width, height) {
        2int
    } else {
        0
    }) + (if is_render_class(class) {
        3int
    } else {
        0
    }) + (if is_dialog_class(class) {
        -4int
    } else {
        0
    })
}

/// The score of a window.
pub open spec fn window_score(w: GameWindow) -> int {
    score_of(
        lowercase_of(w.window_title@),
        lowercase_of(w.class_name@),
        w.width as int,
        w.height as int,
        w.is_cloaked,
    )
}

/// The lowest score that a window can have.
pub open spec fn min_score() -> int {
    -7
}

/// The highest score that a window can have.
pub open spec fn max_score() -> int {
    11
}

/// Every score lies between the lowest and the highest.
pub proof fn lemma_score_bounds(
    title: Seq<char>,
    class: Seq<char>,
    width: int,
    height: int,
    cloaked: bool,
)
    ensures
        min_score() <= score_of(title, class, width, height, cloaked) <= max_score(),
{
}

/// Whether `text`, in lower case, names the game or its emulator.
pub fn text_names_game(text: &Vec<char>) -> (b: bool)
    ensures
        b == names_game(text@),
{
    contains_str(text, "slippi") || contains_str(text, "melee") || contains_str(text, "dolphin")
}

/// Whether `text`, in lower case, belongs to a launcher or a settings dialog.
pub fn text_names_launcher(text: &Vec<char>) -> (b: bool)
    ensures
        b == names_launcher(text@),
{
    contains_str(text, "launcher") || contains_str(text, "settings") || contains_str(
        text,
        "configuration",
    )
}

/// Whether `width / height` lies less than 0.08 away from `num / den`.
pub fn is_near_ratio(width: i32, height: i32, num: u16, den: u16) -> (b: bool)
    ensures
        b == near_ratio(width as int, height as int, num as int, den as int),
{
    if height <= 0 {
        return false;
    }
    let w: i64 = width as i64;
    let h: i64 = height as i64;
    let n: i64 = num as i64;
    let d: i64 = den as i64;
    assert(-0x1_0000_0000_0000 <= d * w <= 0x1_0000_0000_0000) by (nonlinear_arith)
        requires
            0 <= d <= 0xFFFF,
            -0x8000_0000 <= w <= 0x8000_0000,
    ;
    assert(0 <= n * h <= 0x1_0000_0000_0000) by (nonlinear_arith)
        requires
            0 <= n <= 0xFFFF,
            0 < h <= 0x8000_0000,
    ;
    assert(0 <= d * h <= 0x1_0000_0000_0000) by (nonlinear_arith)
        requires
            0 <= d <= 0xFFFF,
            0 < h <= 0x8000_0000,
    ;
    let diff: i64 = d * w - n * h;
    let dist: i64 = if diff < 0 {
        -diff
    } else {
        diff
    };
    assert(2 * d * h == 2 * (d * h)) by (nonlinear_arith);
    25 * dist < 2 * (d * h)
}

/// The score of a window whose title and class name are given in lower case.
pub fn score_lowered(title: &Vec<char>, class: &Vec<char>, width: i32, height: i32, cloaked: bool) -> (score: i32)
    ensures
        score == score_of(title@, class@, width as int, height as int, cloaked),
{
    let mut s: i32 = 0;
    if text_names_game(title) {
        s += 3;
    }
    if text_names_launcher(title) {
        s -= 3;
    }
    if width >= 640 && height >= 480 && !cloaked {
        s += 3;
    }
    if is_near_ratio(width, height, 4, 3) || is_near_ratio(width, height, 16, 9) {
        s += 2;
    }
    if contains_str(class, "dolphin") || contains_str(class, "wxwindownr") {
        s += 3;
    }
    if starts_with_str(class, "#32770") || contains_str(class, "tooltips") {
        s -= 4;
    }
    s
}

/// The score of a window: how likely it is the window that shows the game.
pub fn score_window(w: &GameWindow) -> (score: i32)
    ensures
        score == window_score(*w),
        min_score() <= score <= max_score(),
{
    let title = chars_of(lowercase(w.window_title.as_str()).as_str());
    let class = chars_of(lowercase(w.class_name.as_str()).as_str());
    score_lowered(&title, &class, w.width, w.height, w.is_cloaked)
}

/// Whether a window is a candidate for the list: it names the game in its
/// process name, title or class, and is large enough and visible.
pub open spec fn is_candidate(w: GameWindow) -> bool {
    (names_game(lowercase_of(w.process_name@)) || names_game(lowercase_of(w.window_title@))
        || contains_sub(lowercase_of(w.class_name@), "wxwindownr"@)) && is_game_sized(
        w.width as int,
        w.height as int,
        w.is_cloaked,
    )
}

/// The lowest score with which a candidate is listed.
pub open spec fn listing_threshold() -> int {
    2
}

/// The candidates that score exactly `score`.
pub open spec fn has_rank(score: int) -> spec_fn(GameWindow) -> bool {
    |w: GameWindow| is_candidate(w) && window_score(w) == score
}

/// The candidates with a score from `top` down to the listing threshold,
/// highest score first; windows of equal score keep their order.
pub open spec fn ranked(windows: Seq<GameWindow>, top: int) -> Seq<GameWindow>
    decreases top,
{
    if top < listing_threshold() {
        Seq::empty()
    } else {
        windows.filter(has_rank(top)) + ranked(windows, top - 1)
    }
}

/// The ranked windows are candidates with a score from the threshold up to
/// `top`, and no window scores higher than one that stands before it.
pub proof fn lemma_ranked_descends(windows: Seq<GameWindow>, top: int)
    ensures
        forall|i: int|
            0 <= i < ranked(windows, top).len() ==> is_candidate(
                #[trigger] ranked(windows, top)[i],
            ) && listing_threshold() <= window_score(ranked(windows, top)[i]) <= top,
        forall|i: int, j: int|
            0 <= i < j < ranked(windows, top).len() ==> window_score(
                #[trigger] ranked(windows, top)[i],
            ) >= window_score(#[trigger] ranked(windows, top)[j]),
    decreases top,
{
    broadcast use vstd::seq_lib::group_filter_ensures;

    if top >= listing_threshold() {
        let first = windows.filter(has_rank(top));
        let rest = ranked(windows, top - 1);
        lemma_ranked_descends(windows, top - 1);
        let all = ranked(windows, top);
        assert(all =~= first + rest);
        assert forall|i: int| 0 <= i < first.len() implies is_candidate(#[trigger] first[i])
            && window_score(first[i]) == top by {
            windows.lemma_filter_pred(has_rank(top), i);
        }
        assert forall|i: int| 0 <= i < all.len() implies is_candidate(#[trigger] all[i])
            && listing_threshold() <= window_score(all[i]) <= top by {
            if i < first.len() {
                assert(all[i] == first[i]);
            } else {
                assert(all[i] == rest[i - first.len()]);
            }
        }
        assert forall|i: int, j: int| 0 <= i < j < all.len() implies window_score(
            #[trigger] all[i],
        ) >= window_score(#[trigger] all[j]) by {
            if i < first.len() {
                assert(all[i] == first[i]);
            } else {
                assert(all[i] == rest[i - first.len()]);
            }
            if j < first.len() {
                assert(all[j] == first[j]);
            } else {
                assert(all[j] == rest[j - first.len()]);
            }
        }
    }
}

/// The older rule, used where no candidate reaches the threshold: the title
/// names the game and no launcher, and the window is large enough and visible.
pub open spec fn is_plain_match() -> spec_fn(GameWindow) -> bool {
    |w: GameWindow|
        names_game(lowercase_of(w.window_title@)) && !names_launcher(
            lowercase_of(w.window_title@),
        ) && is_game_sized(w.width as int, w.height as int, w.is_cloaked)
}

/// Whether two windows are the same candidate: same process, size, class
/// and title.
pub open spec fn same_window(a: GameWindow, b: GameWindow) -> bool {
    &&& a.process_id == b.process_id
    &&& a.width == b.width
    &&& a.height == b.height
    &&& a.class_name@ == b.class_name@
    &&& a.window_title@ == b.window_title@
}

/// Whether the window at `i` repeats one that stands before it.
pub open spec fn seen_before(windows: Seq<GameWindow>, i: int) -> bool {
    exists|j: int| 0 <= j < i && same_window(#[trigger] windows[j], windows[i])
}

/// The windows with every repetition of an earlier one left out.
pub open spec fn without_duplicates(windows: Seq<GameWindow>) -> Seq<GameWindow>
    decreases windows.len(),
{
    if windows.len() == 0 {
        windows
    } else {
        let rest = without_duplicates(windows.drop_last());
        if seen_before(windows, windows.len() - 1) {
            rest
        } else {
            rest.push(windows.last())
        }
    }
}

/// The ranked candidates among `windows`, or the plain matches where no
/// candidate reaches the threshold.
pub open spec fn ranked_or_plain(windows: Seq<GameWindow>) -> Seq<GameWindow> {
    let best = ranked(windows, max_score());
    if best.len() > 0 {
        best
    } else {
        windows.filter(is_plain_match())
    }
}

/// The windows that are offered as game windows: duplicates are collapsed
/// first, and what is left is ranked.
pub open spec fn listed_windows(windows: Seq<GameWindow>) -> Seq<GameWindow> {
    ranked_or_plain(without_duplicates(windows))
}

/// Whether a window is a candidate for the list.
pub fn window_is_candidate(w: &GameWindow) -> (b: bool)
    ensures
        b == is_candidate(*w),
{
    let process = chars_of(lowercase(w.process_name.as_str()).as_str());
    let title = chars_of(lowercase(w.window_title.as_str()).as_str());
    let class = chars_of(lowercase(w.class_name.as_str()).as_str());
    let named = text_names_game(&process) || text_names_game(&title) || contains_str(
        &class,
        "wxwindownr",
    );
    named && w.width >= 640 && w.height >= 480 && !w.is_cloaked
}

/// Whether a window matches the older rule.
pub fn window_is_plain_match(w: &GameWindow) -> (b: bool)
    ensures
        b == is_plain_match()(*w),
{
    let title = chars_of(lowercase(w.window_title.as_str()).as_str());
    text_names_game(&title) && !text_names_launcher(&title) && w.width >= 640 && w.height >= 480
        && !w.is_cloaked
}

/// Whether two windows are the same candidate.
pub fn is_same_window(a: &GameWindow, b: &GameWindow) -> (same: bool)
    ensures
        same == same_window(*a, *b),
{
    a.process_id == b.process_id && a.width == b.width && a.height == b.height && a.class_name
        == b.class_name && a.window_title == b.window_title
}

/// The windows that `keep` marks, in order; none where the marks are not one
/// for each window.
pub open spec fn marked(windows: Seq<GameWindow>, keep: Seq<bool>) -> Seq<GameWindow>
    decreases windows.len(),
{
    if windows.len() == 0 || keep.len() != windows.len() {
        Seq::empty()
    } else {
        let before = marked(windows.drop_last(), keep.drop_last());
        if keep.last() {
            before.push(windows.last())
        } else {
            before
        }
    }
}

/// The marks of the windows that are candidates and score exactly `top`.
pub open spec fn rank_marks(scores: Seq<i32>, candidates: Seq<bool>, top: int) -> Seq<bool> {
    Seq::new(scores.len(), |i: int| candidates[i] && scores[i] == top)
}

/// The candidates with the given scores from `top` down to the listing
/// threshold, highest score first; windows of equal score keep their order.
pub open spec fn ranked_by(
    windows: Seq<GameWindow>,
    scores: Seq<i32>,
    candidates: Seq<bool>,
    top: int,
) -> Seq<GameWindow>
    decreases top,
{
    if top < listing_threshold() {
        Seq::empty()
    } else {
        marked(windows, rank_marks(scores, candidates, top)) + ranked_by(
            windows,
            scores,
            candidates,
            top - 1,
        )
    }
}

/// The ranked candidates, or the windows marked as plain matches where no
/// candidate reaches the threshold.
pub open spec fn listed_by(
    windows: Seq<GameWindow>,
    scores: Seq<i32>,
    candidates: Seq<bool>,
    plain: Seq<bool>,
) -> Seq<GameWindow> {
    let best = ranked_by(windows, scores, candidates, max_score());
    if best.len() > 0 {
        best
    } else {
        marked(windows, plain)
    }
}

/// Marks that agree with a predicate mark what the predicate filters.
pub proof fn lemma_marked_is_filter(
    windows: Seq<GameWindow>,
    keep: Seq<bool>,
    pred: spec_fn(GameWindow) -> bool,
)
    requires
        keep.len() == windows.len(),
        forall|i: int| 0 <= i < windows.len() ==> keep[i] == pred(windows[i]),
    ensures
        marked(windows, keep) == windows.filter(pred),
    decreases windows.len(),
{
    reveal(Seq::filter);
    if windows.len() > 0 {
        lemma_marked_is_filter(windows.drop_last(), keep.drop_last(), pred);
    }
}

/// Ranking by the scores of the windows themselves is ranking.
pub proof fn lemma_ranked_by_own_scores(
    windows: Seq<GameWindow>,
    scores: Seq<i32>,
    candidates: Seq<bool>,
    top: int,
)
    requires
        scores.len() == windows.len(),
        candidates.len() == windows.len(),
        forall|i: int| 0 <= i < windows.len() ==> scores[i] == window_score(windows[i]),
        forall|i: int| 0 <= i < windows.len() ==> candidates[i] == is_candidate(windows[i]),
    ensures
        ranked_by(windows, scores, candidates, top) == ranked(windows, top),
    decreases top,
{
    if top >= listing_threshold() {
        lemma_ranked_by_own_scores(windows, scores, candidates, top - 1);
        lemma_marked_is_filter(windows, rank_marks(scores, candidates, top), has_rank(top));
    }
}

/// A copy of each window that `keep` marks, in order.
pub fn keep_marked(windows: &Vec<GameWindow>, keep: &Vec<bool>) -> (kept: Vec<GameWindow>)
    ensures
        kept@ == marked(windows@, keep@),
{
    let mut kept: Vec<GameWindow> = Vec::new();
    if keep.len() != windows.len() {
        return kept;
    }
    let mut i: usize = 0;
    assert(windows@.subrange(0, 0) =~= Seq::<GameWindow>::empty());
    while i < windows.len()
        invariant
            i <= windows.len(),
            keep.len() == windows.len(),
            kept@ == marked(windows@.subrange(0, i as int), keep@.subrange(0, i as int)),
        decreases windows.len() - i,
    {
        proof {
            let ws = windows@.subrange(0, i + 1);
            let ks = keep@.subrange(0, i + 1);
            assert(ws.drop_last() =~= windows@.subrange(0, i as int));
            assert(ks.drop_last() =~= keep@.subrange(0, i as int));
        }
        if keep[i] {
            kept.push(windows[i].clone());
        }
        i += 1;
    }
    assert(windows@.subrange(0, windows@.len() as int) =~= windows@);
    assert(keep@.subrange(0, keep@.len() as int) =~= keep@);
    kept
}

/// Ranks windows whose scores and marks are given: the candidates that reach
/// the threshold, best first, or the plain matches where there is none.
/// Scores and marks that are not one for each window rank nothing.
pub fn rank_scored(
    windows: &Vec<GameWindow>,
    scores: &Vec<i32>,
    candidates: &Vec<bool>,
    plain: &Vec<bool>,
) -> (listed: Vec<GameWindow>)
    ensures
        scores.len() == windows.len() && candidates.len() == windows.len() ==> listed@
            == listed_by(windows@, scores@, candidates@, plain@),
        scores.len() != windows.len() || candidates.len() != windows.len() ==> listed@.len() == 0,
{
    let n = windows.len();
    let mut best: Vec<GameWindow> = Vec::new();
    if scores.len() != n || candidates.len() != n {
        return best;
    }
    let mut top: i32 = 11;
    assert(best@ + ranked_by(windows@, scores@, candidates@, top as int) =~= ranked_by(
        windows@,
        scores@,
        candidates@,
        max_score(),
    ));
    while top >= 2
        invariant
            1 <= top <= 11,
            n == windows.len(),
            scores.len() == n,
            candidates.len() == n,
            best@ + ranked_by(windows@, scores@, candidates@, top as int) == ranked_by(
                windows@,
                scores@,
                candidates@,
                max_score(),
            ),
        decreases top,
    {
        let mut keep: Vec<bool> = Vec::new();
        let mut k: usize = 0;
        while k < n
            invariant
                n == windows.len(),
                scores.len() == n,
                candidates.len() == n,
                k <= n,
                keep.len() == k,
                forall|m: int| 0 <= m < k ==> keep[m] == (candidates[m] && scores[m] == top),
            decreases n - k,
        {
            keep.push(candidates[k] && scores[k] == top);
            k += 1;
        }
        assert(keep@ =~= rank_marks(scores@, candidates@, top as int));
        let ghost before = best@;
        let mut kept = keep_marked(windows, &keep);
        best.append(&mut kept);
        proof {
            assert(before + (marked(windows@, keep@) + ranked_by(
                windows@,
                scores@,
                candidates@,
                top - 1,
            )) =~= best@ + ranked_by(windows@, scores@, candidates@, top - 1));
        }
        top -= 1;
    }
    proof {
        assert(ranked_by(windows@, scores@, candidates@, 1) =~= Seq::<GameWindow>::empty());
        assert(best@ =~= ranked_by(windows@, scores@, candidates@, max_score()));
    }
    if best.len() > 0 {
        best
    } else {
        keep_marked(windows, plain)
    }
}

/// The windows with every repetition of an earlier one left out.
pub fn dedupe_windows(windows: &Vec<GameWindow>) -> (unique: Vec<GameWindow>)
    ensures
        unique@ == without_duplicates(windows@),
{
    let mut unique: Vec<GameWindow> = Vec::new();
    let mut i: usize = 0;
    assert(windows@.subrange(0, 0) =~= Seq::<GameWindow>::empty());
    while i < windows.len()
        invariant
            i <= windows.len(),
            unique@ == without_duplicates(windows@.subrange(0, i as int)),
        decreases windows.len() - i,
    {
        let mut seen = false;
        let mut j: usize = 0;
        while j < i
            invariant
                j <= i < windows.len(),
                seen == exists|k: int|
                    0 <= k < j && same_window(#[trigger] windows@[k], windows@[i as int]),
            decreases i - j,
        {
            if is_same_window(&windows[j], &windows[i]) {
                seen = true;
            }
            j += 1;
        }
        proof {
            let upto = windows@.subrange(0, i + 1);
            assert(upto.drop_last() =~= windows@.subrange(0, i as int));
            assert(upto.last() == windows@[i as int]);
            if seen {
                let k = choose|k: int|
                    0 <= k < i && same_window(#[trigger] windows@[k], windows@[i as int]);
                assert(same_window(upto[k], upto[upto.len() - 1]));
            }
            if seen_before(upto, upto.len() - 1) {
                let k = choose|k: int|
                    0 <= k < upto.len() - 1 && same_window(
                        #[trigger] upto[k],
                        upto[upto.len() - 1],
                    );
                assert(same_window(windows@[k], windows@[i as int]));
            }
        }
        if !seen {
            unique.push(windows[i].clone());
        }
        i += 1;
    }
    assert(windows@.subrange(0, windows@.len() as int) =~= windows@);
    unique
}

/// Picks the game windows out of all the windows of the desktop. Windows
/// that repeat an earlier one are left out; of the rest, the candidates that
/// reach the threshold are listed, best first, or the plain matches where
/// there is none.
pub fn list_game_windows(windows: &Vec<GameWindow>) -> (listed: Vec<GameWindow>)
    ensures
        listed@ == listed_windows(windows@),
{
    let unique = dedupe_windows(windows);
    rank_windows(&unique)
}

/// The candidates that reach the threshold, best first, or the plain matches
/// where there is none.
pub fn rank_windows(windows: &Vec<GameWindow>) -> (listed: Vec<GameWindow>)
    ensures
        listed@ == ranked_or_plain(windows@),
{
    let n = windows.len();
    let mut scores: Vec<i32> = Vec::new();
    let mut candidates: Vec<bool> = Vec::new();
    let mut plain: Vec<bool> = Vec::new();
    let mut i: usize = 0;
    while i < n
        invariant
            n == windows.len(),
            i <= n,
            scores.len() == i,
            candidates.len() == i,
            plain.len() == i,
            forall|k: int| 0 <= k < i ==> scores[k] == window_score(windows[k]),
            forall|k: int| 0 <= k < i ==> candidates[k] == is_candidate(windows[k]),
            forall|k: int| 0 <= k < i ==> plain[k] == is_plain_match()(windows[k]),
        decreases n - i,
    {
        scores.push(score_window(&windows[i]));
        candidates.push(window_is_candidate(&windows[i]));
        plain.push(window_is_plain_match(&windows[i]));
        i += 1;
    }
    proof {
        lemma_ranked_by_own_scores(windows@, scores@, candidates@, max_score());
        lemma_marked_is_filter(windows@, plain@, is_plain_match());
    }
    rank_scored(windows, &scores, &candidates, &plain)
}

} // verus!
