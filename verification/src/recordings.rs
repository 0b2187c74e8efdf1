//! The list of recordings: each video with its replay, newest first.

use crate::paths::{file_name, file_name_of, Platform};
use crate::replay::{ReplaySummary, SlippiMetadata};
use crate::text::chars_of;
use vstd::prelude::*;
use vstd::string::*;

verus! {

/// One recording: a video, and the replay of the game that it shows.
#[derive(Debug)]
pub struct RecordingSession {
    pub id: String,
    pub start_time: String,
    pub end_time: Option<String>,
    pub slp_path: String,
    pub video_path: Option<String>,
    pub duration: Option<u64>,
    pub file_size: Option<u64>,
    pub slippi_metadata: Option<SlippiMetadata>,
}

/// The date and time, in RFC 3339 form and in UTC, of a number of seconds
/// since the start of 1970, for the numbers that the calendar can represent.
pub uninterp spec fn rfc3339_of(seconds: i64) -> Option<Seq<char>>;

/// Formats a time stamp with `chrono`: `DateTime::from_timestamp`, which
/// gives nothing for a number of seconds out of its range, and
/// `DateTime::to_rfc3339`. The contract names the result.
#[verifier::external_body]
fn rfc3339_from_timestamp(seconds: i64) -> (text: Option<String>)
    ensures
        match text {
            Some(t) => rfc3339_of(seconds) == Some(t@),
            None => rfc3339_of(seconds) is None,
        },
{
    match chrono::DateTime::from_timestamp(seconds, 0) {
        Some(time) => Some(time.to_rfc3339()),
        None => None,
    }
}

/// The time shown for a time stamp that the calendar cannot represent: the
/// start of 1970.
pub open spec fn epoch_text() -> Seq<char> {
    "1970-01-01T00:00:00+00:00"@
}

/// The time shown for a file that was created `seconds` after the start of
/// 1970.
pub open spec fn timestamp_text_of(seconds: u64) -> Seq<char> {
    match rfc3339_of(seconds as i64) {
        Some(text) => text,
        None => epoch_text(),
    }
}

/// Takes in what the calendar answered for a time stamp: its text, or the
/// start of 1970 where it has none.
pub fn settle_timestamp(text: Option<String>) -> (shown: String)
    ensures
        shown@ == match text {
            Some(t) => t@,
            None => epoch_text(),
        },
{
    match text {
        Some(t) => t,
        None => "1970-01-01T00:00:00+00:00".to_owned(),
    }
}

/// The time shown for a file that was created `seconds` after the start of
/// 1970.
pub fn timestamp_text(seconds: u64) -> (text: String)
    ensures
        text@ == timestamp_text_of(seconds),
{
    let signed: i64 = #[verifier::truncate]
    (seconds as i64);
    settle_timestamp(rfc3339_from_timestamp(signed))
}

/// Whether `path` is the replay of the video with the stem `video_stem`: its
/// file name is the stem with the extension `slp`.
pub open spec fn is_replay_of(platform: Platform, path: Seq<char>, video_stem: Seq<char>) -> bool {
    file_name(platform, path) == Some(video_stem + ".slp"@)
}

/// Finds the replay of a video among the files of the replay directory: the
/// first whose file name is the stem of the video with the extension `slp`.
pub fn find_matching_slp(platform: Platform, video_filename: &str, candidates: &Vec<String>) -> (found:
    Option<String>)
    ensures
        match found {
            Some(path) => exists|i: int|
                0 <= i < candidates@.len() && path@ == (#[trigger] candidates@[i])@ && is_replay_of(platform, 
                    candidates@[i]@,
                    video_filename@,
                ) && forall|j: int|
                    0 <= j < i ==> !is_replay_of(platform, (#[trigger] candidates@[j])@, video_filename@),
            None => forall|j: int|
                0 <= j < candidates@.len() ==> !is_replay_of(platform, 
                    (#[trigger] candidates@[j])@,
                    video_filename@,
                ),
        },
{
    let mut wanted = video_filename.to_owned();
    wanted.append(".slp");
    let mut i: usize = 0;
    while i < candidates.len()
        invariant
            i <= candidates.len(),
            wanted@ == video_filename@ + ".slp"@,
            forall|j: int|
                0 <= j < i ==> !is_replay_of(platform, (#[trigger] candidates@[j])@, video_filename@),
        decreases candidates.len() - i,
    {
        match file_name_of(platform, candidates[i].as_str()) {
            Some(name) => {
                if name == wanted {
                    return Some(candidates[i].clone());
                }
            },
            None => {},
        }
        i += 1;
    }
    None
}

/// Whether `session` is the recording of the video at `video_path`, of
/// `file_size` bytes and started at `start_time`, with the replay at `slp`
/// and its summary, where they were found.
pub open spec fn describes(
    platform: Platform,
    session: RecordingSession,
    video_path: Seq<char>,
    file_size: u64,
    start_time: Seq<char>,
    slp: Option<String>,
    summary: Option<ReplaySummary>,
) -> bool {
    &&& session.id@ == match file_name(platform, video_path) {
        Some(name) => name,
        None => "unknown"@,
    }
    &&& session.start_time@ == start_time
    &&& session.slp_path@ == match slp {
        Some(path) => path@,
        None => Seq::empty(),
    }
    &&& session.video_path is Some
    &&& session.video_path.unwrap()@ == video_path
    &&& session.file_size == Some(file_size)
    &&& match summary {
        Some(s) => {
            &&& session.slippi_metadata == Some(s.metadata)
            &&& session.duration == Some(s.duration)
            &&& session.end_time == Some(s.start_time)
        },
        None => {
            &&& session.slippi_metadata is None
            &&& session.duration is None
            &&& session.end_time is None
        },
    }
}

/// Describes the recording of one video.
///
/// The recording is named after the file name of the video. It starts when
/// the file was created, or at `now` where the file system does not say.
pub fn create_recording_session(
    platform: Platform,
    video_path: &str,
    file_size: u64,
    created_seconds: Option<u64>,
    now: &str,
    slp: Option<String>,
    summary: Option<ReplaySummary>,
) -> (session: RecordingSession)
    ensures
        describes(
            platform,
            session,
            video_path@,
            file_size,
            match created_seconds {
                Some(seconds) => timestamp_text_of(seconds),
                None => now@,
            },
            slp,
            summary,
        ),
{
    let id = match file_name_of(platform, video_path) {
        Some(name) => name,
        None => "unknown".to_owned(),
    };
    let start_time = match created_seconds {
        Some(seconds) => timestamp_text(seconds),
        None => now.to_owned(),
    };
    let slp_path = match slp {
        Some(path) => path,
        None => String::new(),
    };
    match summary {
        Some(s) => RecordingSession {
            id,
            start_time,
            end_time: Some(s.start_time),
            slp_path,
            video_path: Some(video_path.to_owned()),
            duration: Some(s.duration),
            file_size: Some(file_size),
            slippi_metadata: Some(s.metadata),
        },
        None => RecordingSession {
            id,
            start_time,
            end_time: None,
            slp_path,
            video_path: Some(video_path.to_owned()),
            duration: None,
            file_size: Some(file_size),
            slippi_metadata: None,
        },
    }
}

/// Whether the text `a` comes before the text `b` in the order of strings:
/// at the first place where they differ `a` has the smaller character, or
/// `a` ends there.
pub open spec fn text_less(a: Seq<char>, b: Seq<char>) -> bool
    decreases a.len(),
{
    if b.len() == 0 {
        false
    } else if a.len() == 0 {
        true
    } else if a[0] != b[0] {
        a[0] < b[0]
    } else {
        text_less(a.drop_first(), b.drop_first())
    }
}

/// `sorted` with `session` put in front of the first recording that did not
/// start later than it.
pub open spec fn insert_newest(sorted: Seq<RecordingSession>, session: RecordingSession) -> Seq<
    RecordingSession,
>
    decreases sorted.len(),
{
    if sorted.len() == 0 || !text_less(session.start_time@, sorted[0].start_time@) {
        seq![session] + sorted
    } else {
        seq![sorted[0]] + insert_newest(sorted.drop_first(), session)
    }
}

/// The recordings ordered by their start, the latest first; recordings that
/// started at the same time keep their order.
pub open spec fn newest_first(sessions: Seq<RecordingSession>) -> Seq<RecordingSession>
    decreases sessions.len(),
{
    if sessions.len() == 0 {
        sessions
    } else {
        insert_newest(newest_first(sessions.drop_first()), sessions[0])
    }
}

/// Whether no recording starts later than one that stands before it.
pub open spec fn is_newest_first(sessions: Seq<RecordingSession>) -> bool {
    forall|i: int, j: int|
        0 <= i < j < sessions.len() ==> !text_less(
            (#[trigger] sessions[i]).start_time@,
            (#[trigger] sessions[j]).start_time@,
        )
}

/// No text comes before itself, and of two texts at most one comes before
/// the other.
pub proof fn lemma_text_order_is_strict(a: Seq<char>, b: Seq<char>)
    ensures
        !text_less(a, a),
        text_less(a, b) ==> !text_less(b, a),
    decreases a.len(),
{
    if a.len() > 0 {
        lemma_text_order_is_strict(a.drop_first(), a.drop_first());
        if b.len() > 0 && a[0] == b[0] {
            lemma_text_order_is_strict(a.drop_first(), b.drop_first());
        }
    }
}

/// A text that comes before a third comes before a second, or the second
/// comes before the third.
pub proof fn lemma_text_order_is_total(a: Seq<char>, b: Seq<char>, c: Seq<char>)
    requires
        text_less(a, c),
    ensures
        text_less(a, b) || text_less(b, c),
    decreases a.len(),
{
    if b.len() == 0 {
        assert(text_less(b, c));
    } else if a.len() == 0 {
        assert(text_less(a, b));
    } else if a[0] == c[0] && b[0] == a[0] {
        lemma_text_order_is_total(a.drop_first(), b.drop_first(), c.drop_first());
    } else if a[0] != b[0] && a[0] < b[0] {
        assert(text_less(a, b));
    } else {
        assert(b[0] < c[0]);
        assert(text_less(b, c));
    }
}

proof fn lemma_insert_to_multiset(s: Seq<RecordingSession>, i: int, x: RecordingSession)
    requires
        0 <= i <= s.len(),
    ensures
        s.insert(i, x).to_multiset() == s.to_multiset().insert(x),
{
    broadcast use vstd::seq_lib::group_to_multiset_ensures;

    let t = s.insert(i, x);
    assert(t.remove(i) =~= s);
    vstd::seq_lib::to_multiset_remove(t, i);
    assert(t[i] == x);
    assert(t.contains(x));
    assert(t.to_multiset() =~= t.to_multiset().remove(x).insert(x));
}

/// Putting a recording into an ordered list leaves the list ordered, with
/// one recording more.
pub proof fn lemma_insert_keeps_order(sorted: Seq<RecordingSession>, session: RecordingSession)
    requires
        is_newest_first(sorted),
    ensures
        is_newest_first(insert_newest(sorted, session)),
        insert_newest(sorted, session).len() == sorted.len() + 1,
        insert_newest(sorted, session).to_multiset() == sorted.to_multiset().insert(session),
        forall|k: int|
            0 <= k < sorted.len() + 1 ==> (#[trigger] insert_newest(sorted, session)[k]) == session
                || exists|m: int|
                0 <= m < sorted.len() && insert_newest(sorted, session)[k] == sorted[m],
    decreases sorted.len(),
{
    broadcast use vstd::seq_lib::group_to_multiset_ensures;

    let out = insert_newest(sorted, session);
    if sorted.len() == 0 || !text_less(session.start_time@, sorted[0].start_time@) {
        assert(out =~= seq![session] + sorted);
        assert forall|i: int, j: int| 0 <= i < j < out.len() implies !text_less(
            (#[trigger] out[i]).start_time@,
            (#[trigger] out[j]).start_time@,
        ) by {
            if i == 0 {
                assert(out[j] == sorted[j - 1]);
                if j - 1 > 0 {
                    assert(!text_less(sorted[0].start_time@, sorted[j - 1].start_time@));
                    if text_less(session.start_time@, sorted[j - 1].start_time@) {
                        lemma_text_order_is_total(
                            session.start_time@,
                            sorted[0].start_time@,
                            sorted[j - 1].start_time@,
                        );
                    }
                }
            } else {
                assert(out[i] == sorted[i - 1]);
                assert(out[j] == sorted[j - 1]);
            }
        }
        assert forall|k: int| 0 <= k < sorted.len() + 1 implies (#[trigger] out[k]) == session
            || exists|m: int| 0 <= m < sorted.len() && out[k] == sorted[m] by {
            if k > 0 {
                assert(out[k] == sorted[k - 1]);
            }
        }
        assert(out =~= sorted.insert(0, session));
        lemma_insert_to_multiset(sorted, 0, session);
    } else {
        let rest = sorted.drop_first();
        assert forall|i: int, j: int| 0 <= i < j < rest.len() implies !text_less(
            (#[trigger] rest[i]).start_time@,
            (#[trigger] rest[j]).start_time@,
        ) by {
            assert(rest[i] == sorted[i + 1]);
            assert(rest[j] == sorted[j + 1]);
        }
        lemma_insert_keeps_order(rest, session);
        let tail = insert_newest(rest, session);
        assert(out =~= seq![sorted[0]] + tail);
        assert forall|i: int, j: int| 0 <= i < j < out.len() implies !text_less(
            (#[trigger] out[i]).start_time@,
            (#[trigger] out[j]).start_time@,
        ) by {
            if i == 0 {
                assert(out[j] == tail[j - 1]);
                if tail[j - 1] == session {
                    lemma_text_order_is_strict(session.start_time@, sorted[0].start_time@);
                } else {
                    let m = choose|m: int| 0 <= m < rest.len() && tail[j - 1] == rest[m];
                    assert(rest[m] == sorted[m + 1]);
                }
            } else {
                assert(out[i] == tail[i - 1]);
                assert(out[j] == tail[j - 1]);
            }
        }
        assert forall|k: int| 0 <= k < sorted.len() + 1 implies (#[trigger] out[k]) == session
            || exists|m: int| 0 <= m < sorted.len() && out[k] == sorted[m] by {
            if k == 0 {
                assert(out[0] == sorted[0]);
            } else {
                assert(out[k] == tail[k - 1]);
                if tail[k - 1] != session {
                    let m = choose|m: int| 0 <= m < rest.len() && tail[k - 1] == rest[m];
                    assert(rest[m] == sorted[m + 1]);
                }
            }
        }
        assert(out =~= tail.insert(0, sorted[0]));
        lemma_insert_to_multiset(tail, 0, sorted[0]);
        assert(sorted =~= rest.insert(0, sorted[0]));
        lemma_insert_to_multiset(rest, 0, sorted[0]);
        assert(out.to_multiset() =~= sorted.to_multiset().insert(session));
    }
}

/// Ordering recordings gives an ordered list of the same recordings.
pub proof fn lemma_newest_first_sorts(sessions: Seq<RecordingSession>)
    ensures
        is_newest_first(newest_first(sessions)),
        newest_first(sessions).len() == sessions.len(),
        newest_first(sessions).to_multiset() == sessions.to_multiset(),
    decreases sessions.len(),
{
    if sessions.len() > 0 {
        let rest = sessions.drop_first();
        lemma_newest_first_sorts(rest);
        lemma_insert_keeps_order(newest_first(rest), sessions[0]);
        assert(sessions =~= rest.insert(0, sessions[0]));
        lemma_insert_to_multiset(rest, 0, sessions[0]);
    }
}

/// Whether the text `a` comes before the text `b` in the order of strings.
pub fn is_text_less(a: &Vec<char>, b: &Vec<char>) -> (less: bool)
    ensures
        less == text_less(a@, b@),
{
    let mut i: usize = 0;
    assert(a@.subrange(0, a@.len() as int) =~= a@);
    assert(b@.subrange(0, b@.len() as int) =~= b@);
    loop
        invariant
            i <= a.len(),
            i <= b.len(),
            text_less(a@, b@) == text_less(
                a@.subrange(i as int, a@.len() as int),
                b@.subrange(i as int, b@.len() as int),
            ),
        decreases a.len() - i,
    {
        let ghost x = a@.subrange(i as int, a@.len() as int);
        let ghost y = b@.subrange(i as int, b@.len() as int);
        if i >= b.len() {
            return false;
        }
        if i >= a.len() {
            return true;
        }
        assert(x[0] == a@[i as int]);
        assert(y[0] == b@[i as int]);
        let ca: char = a[i];
        let cb: char = b[i];
        if ca != cb {
            return ca < cb;
        }
        assert(x.drop_first() =~= a@.subrange(i + 1, a@.len() as int));
        assert(y.drop_first() =~= b@.subrange(i + 1, b@.len() as int));
        i += 1;
    }
}

proof fn lemma_insert_position(
    sorted: Seq<RecordingSession>,
    session: RecordingSession,
    p: int,
)
    requires
        0 <= p <= sorted.len(),
        forall|k: int|
            0 <= k < p ==> text_less(session.start_time@, (#[trigger] sorted[k]).start_time@),
        p == sorted.len() || !text_less(session.start_time@, sorted[p].start_time@),
    ensures
        insert_newest(sorted, session) == sorted.insert(p, session),
    decreases p,
{
    if p == 0 {
        assert(seq![session] + sorted =~= sorted.insert(0, session));
    } else {
        let rest = sorted.drop_first();
        assert forall|k: int| 0 <= k < p - 1 implies text_less(
            session.start_time@,
            (#[trigger] rest[k]).start_time@,
        ) by {
            assert(rest[k] == sorted[k + 1]);
        }
        if p < sorted.len() {
            assert(rest[p - 1] == sorted[p]);
        }
        lemma_insert_position(rest, session, p - 1);
        assert(seq![sorted[0]] + rest.insert(p - 1, session) =~= sorted.insert(p, session));
    }
}

/// Orders recordings by their start, the latest first. Recordings that
/// started at the same time keep their order.
pub fn sort_recordings(sessions: Vec<RecordingSession>) -> (sorted: Vec<RecordingSession>)
    ensures
        sorted@ == newest_first(sessions@),
        is_newest_first(sorted@),
        sorted@.to_multiset() == sessions@.to_multiset(),
{
    let ghost all = sessions@;
    let mut pending = sessions;
    let mut sorted: Vec<RecordingSession> = Vec::new();
    assert(all.subrange(all.len() as int, all.len() as int) =~= Seq::<RecordingSession>::empty());
    while pending.len() > 0
        invariant
            pending@ == all.subrange(0, pending@.len() as int),
            pending@.len() <= all.len(),
            sorted@ == newest_first(all.subrange(pending@.len() as int, all.len() as int)),
        decreases pending.len(),
    {
        let ghost n = pending@.len() as int;
        let session = pending.pop().unwrap();
        assert(session == all[n - 1]);
        let start = chars_of(session.start_time.as_str());
        let mut p: usize = 0;
        let mut placed = false;
        while p < sorted.len() && !placed
            invariant
                p <= sorted.len(),
                start@ == session.start_time@,
                forall|k: int|
                    0 <= k < p ==> text_less(
                        session.start_time@,
                        (#[trigger] sorted@[k]).start_time@,
                    ),
                placed ==> p < sorted.len() && !text_less(
                    session.start_time@,
                    sorted@[p as int].start_time@,
                ),
            decreases sorted.len() - p + (if placed { 0int } else { 1int }),
        {
            let other = chars_of(sorted[p].start_time.as_str());
            if is_text_less(&start, &other) {
                p += 1;
            } else {
                placed = true;
            }
        }
        proof {
            lemma_insert_position(sorted@, session, p as int);
            let tail = all.subrange(n - 1, all.len() as int);
            assert(tail.drop_first() =~= all.subrange(n, all.len() as int));
            assert(tail[0] == session);
            assert(pending@ =~= all.subrange(0, n - 1));
        }
        sorted.insert(p, session);
    }
    proof {
        assert(all.subrange(0, all.len() as int) =~= all);
        lemma_newest_first_sorts(all);
    }
    sorted
}

} // verus!
