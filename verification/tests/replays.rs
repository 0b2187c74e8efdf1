use replay_recorder::events::{
    extract_death_events, frames_are_consistent, is_dying, rollback_flags, state_is_death,
    CommonState, FrameData, GameEvent,
};
use replay_recorder::paths::Platform;
use replay_recorder::recordings::{
    create_recording_session, find_matching_slp, is_text_less, sort_recordings, timestamp_text,
    RecordingSession,
};
use replay_recorder::replay::{
    name_entry, number_text, player_tag, summarize_replay, text_entry, winner_port, wrap_to_i32,
    NameEntry, PlayerEnd, PlayerNames, ReplayData, ReplayError, ReplaySummary, StartPlayer,
};

fn names(code: Option<&str>, netplay: Option<&str>) -> PlayerNames {
    PlayerNames {
        code: match code {
            Some(c) => NameEntry::Text(c.to_string()),
            None => NameEntry::Missing,
        },
        netplay: netplay.map(|s| s.to_string()),
    }
}

fn sample() -> ReplayData {
    ReplayData {
        players: vec![
            StartPlayer { port: 0, character: 2, costume: 1 },
            StartPlayer { port: 1, character: 20, costume: 0 },
            StartPlayer { port: 3, character: 9, costume: 4 },
        ],
        names: vec![names(Some("ABC#123"), Some("abc")), names(None, Some("netty")), names(None, None)],
        placements: Some(vec![
            PlayerEnd { port: 0, placement: 1 },
            PlayerEnd { port: 3, placement: 0 },
            PlayerEnd { port: 1, placement: 0 },
        ]),
        stage: 31,
        is_pal: Some(true),
        last_frame: Some(7261),
        start_at: Some("2025-11-10T20:03:49Z".to_string()),
        played_on: Some("dolphin".to_string()),
        frame_count: 7385,
    }
}

#[test]
fn numbers_are_written_in_decimal() {
    let mut n: u16 = 0;
    while n <= 255 {
        assert_eq!(number_text(n as u8), format!("{}", n));
        n += 1;
    }
}

#[test]
fn tag_is_code_then_netplay_then_port() {
    let both = names(Some("ABC#123"), Some("abc"));
    assert_eq!(player_tag(Some(&both), 0), "ABC#123");
    let net = names(None, Some("netty"));
    assert_eq!(player_tag(Some(&net), 1), "netty");
    let none = names(None, None);
    assert_eq!(player_tag(Some(&none), 3), "P3");
    assert_eq!(player_tag(None, 0), "P0");
    assert_eq!(player_tag(None, 255), "P255");
    let odd = PlayerNames { code: NameEntry::NotText, netplay: Some("netty".to_string()) };
    assert_eq!(player_tag(Some(&odd), 2), "P2");
}

#[test]
fn metadata_answers_are_taken_in() {
    assert_eq!(name_entry(None), NameEntry::Missing);
    assert_eq!(name_entry(Some(None)), NameEntry::NotText);
    assert_eq!(name_entry(Some(Some("a".to_string()))), NameEntry::Text("a".to_string()));
    assert_eq!(text_entry(None), None);
    assert_eq!(text_entry(Some(None)), None);
    assert_eq!(text_entry(Some(Some("a".to_string()))), Some("a".to_string()));
}

#[test]
fn numbers_wrap_to_32_bits() {
    let samples = [
        0i64, 1, -1, 59, 7261, -123, i32::MAX as i64, i32::MIN as i64, (i32::MAX as i64) + 1,
        (i32::MIN as i64) - 1, 1i64 << 32, (1i64 << 32) - 1, -(1i64 << 32), (1i64 << 31) + 5,
        i64::MAX, i64::MIN, 0x1234_5678_9abc_def0,
    ];
    for x in samples {
        assert_eq!(wrap_to_i32(x), x as i32);
    }
}

#[test]
fn winner_is_the_first_player_placed_first() {
    assert_eq!(winner_port(&Vec::new()), None);
    assert_eq!(winner_port(&vec![PlayerEnd { port: 2, placement: 1 }]), None);
    assert_eq!(
        winner_port(&vec![
            PlayerEnd { port: 2, placement: 1 },
            PlayerEnd { port: 3, placement: 0 },
            PlayerEnd { port: 1, placement: 0 },
        ]),
        Some(3)
    );
}

#[test]
fn summary_shows_players_winner_and_duration() {
    let summary = summarize_replay(&sample(), "now");
    let meta = &summary.metadata;
    assert_eq!(meta.characters, vec![2, 20, 9]);
    assert_eq!(meta.stage, 31);
    assert_eq!(meta.players.len(), 3);
    assert_eq!(meta.players[0].player_tag, "ABC#123");
    assert_eq!(meta.players[0].character_id, 2);
    assert_eq!(meta.players[0].character_color, 1);
    assert_eq!(meta.players[0].port, 0);
    assert_eq!(meta.players[1].player_tag, "netty");
    assert_eq!(meta.players[2].player_tag, "P3");
    assert_eq!(meta.players[2].port, 3);
    assert_eq!(meta.game_duration, 7261);
    assert_eq!(meta.start_time, "2025-11-10T20:03:49Z");
    assert!(meta.is_pal);
    assert_eq!(meta.winner_port, Some(3));
    assert_eq!(meta.played_on, Some("dolphin".to_string()));
    assert_eq!(meta.total_frames, 7385);
    assert_eq!(summary.duration, 121);
    assert_eq!(summary.start_time, "2025-11-10T20:03:49Z");
}

#[test]
fn summary_of_a_bare_replay_uses_the_defaults() {
    let bare = ReplayData {
        players: vec![StartPlayer { port: 2, character: 1, costume: 0 }],
        names: Vec::new(),
        placements: None,
        stage: 2,
        is_pal: None,
        last_frame: None,
        start_at: None,
        played_on: None,
        frame_count: 0,
    };
    let summary = summarize_replay(&bare, "2026-01-01T00:00:00+00:00");
    assert_eq!(summary.metadata.players[0].player_tag, "P2");
    assert_eq!(summary.metadata.game_duration, 0);
    assert_eq!(summary.duration, 0);
    assert_eq!(summary.start_time, "2026-01-01T00:00:00+00:00");
    assert_eq!(summary.metadata.start_time, "2026-01-01T00:00:00+00:00");
    assert!(!summary.metadata.is_pal);
    assert_eq!(summary.metadata.winner_port, None);
    assert_eq!(summary.metadata.played_on, None);
}

#[test]
fn duration_is_in_whole_seconds_and_never_negative() {
    let mut data = sample();
    data.last_frame = Some(59);
    assert_eq!(summarize_replay(&data, "n").duration, 0);
    data.last_frame = Some(60);
    assert_eq!(summarize_replay(&data, "n").duration, 1);
    data.last_frame = Some(-123);
    let negative = summarize_replay(&data, "n");
    assert_eq!(negative.metadata.game_duration, -123);
    assert_eq!(negative.duration, 0);
    data.last_frame = Some(i32::MAX as i64);
    assert_eq!(summarize_replay(&data, "n").duration, 35791394);
    data.last_frame = Some(1i64 << 32);
    assert_eq!(summarize_replay(&data, "n").metadata.game_duration, 0);
    data.last_frame = Some((1i64 << 31) + 5);
    assert_eq!(summarize_replay(&data, "n").metadata.game_duration, i32::MIN + 5);
}

#[test]
fn death_states_are_the_first_eleven() {
    let mut state: u16 = 0;
    while state <= 10 {
        assert!(state_is_death(Some(state)));
        state += 1;
    }
    assert!(!state_is_death(Some(11)));
    assert!(!state_is_death(Some(14)));
    assert!(!state_is_death(Some(u16::MAX)));
    assert!(!state_is_death(None));
}

#[test]
fn every_named_state_but_the_last_is_a_death() {
    assert!(is_dying(&CommonState::DeadDown));
    assert!(is_dying(&CommonState::DeadLeft));
    assert!(is_dying(&CommonState::DeadRight));
    assert!(is_dying(&CommonState::DeadUp));
    assert!(is_dying(&CommonState::DeadUpStar));
    assert!(is_dying(&CommonState::DeadUpStarIce));
    assert!(is_dying(&CommonState::DeadUpFall));
    assert!(is_dying(&CommonState::DeadUpFallHitCamera));
    assert!(is_dying(&CommonState::DeadUpFallHitCameraFlat));
    assert!(is_dying(&CommonState::DeadUpFallIce));
    assert!(is_dying(&CommonState::DeadUpFallHitCameraIce));
    assert!(!is_dying(&CommonState::Other));
}

#[test]
fn rolled_back_frames_are_all_but_the_last_of_a_number() {
    let ids = vec![Some(-123), Some(-122), Some(-121), Some(-122), Some(-121), Some(-120), None, Some(0)];
    assert_eq!(
        rollback_flags(&ids),
        vec![false, true, true, false, false, false, true, false]
    );
    assert_eq!(rollback_flags(&Vec::new()), Vec::<bool>::new());
    assert_eq!(rollback_flags(&vec![Some(i32::MIN), Some(i32::MAX), Some(i32::MIN)]), vec![true, false, false]);
}

fn deaths(events: &Vec<GameEvent>) -> Vec<(i32, u8, String)> {
    events
        .iter()
        .map(|e| match e {
            GameEvent::Death(d) => (d.frame, d.port, d.player_tag.clone()),
        })
        .collect()
}

#[test]
fn a_death_is_reported_once_when_it_begins() {
    let wait = Some(14u16);
    let dead = Some(0u16);
    let star = Some(4u16);
    let frames = FrameData {
        ids: vec![Some(10), Some(11), Some(12), Some(13), Some(14), Some(15), Some(16)],
        states: vec![
            vec![wait, dead, dead, star, wait, dead, None],
            vec![dead, wait, wait, wait, wait, dead, dead],
        ],
        ports: vec![0, 3],
        tags: vec!["ABC#123".to_string(), "P3".to_string()],
    };
    assert!(frames_are_consistent(&frames));
    let events = extract_death_events(&frames).unwrap();
    assert_eq!(
        deaths(&events),
        vec![
            (10, 3, "P3".to_string()),
            (11, 0, "ABC#123".to_string()),
            (15, 0, "ABC#123".to_string()),
            (15, 3, "P3".to_string()),
        ]
    );
}

#[test]
fn rolled_back_frames_report_no_death() {
    let wait = Some(14u16);
    let dead = Some(1u16);
    let frames = FrameData {
        ids: vec![Some(1), Some(2), Some(2), Some(3), Some(3), None],
        states: vec![vec![wait, dead, wait, dead, dead, dead]],
        ports: vec![1],
        tags: vec!["tag".to_string()],
    };
    let events = extract_death_events(&frames).unwrap();
    assert_eq!(deaths(&events), vec![(3, 1, "tag".to_string())]);
}

#[test]
fn frames_of_another_shape_are_refused() {
    let short = FrameData {
        ids: vec![Some(1), Some(2)],
        states: vec![vec![Some(0)]],
        ports: vec![1],
        tags: vec!["t".to_string()],
    };
    assert!(!frames_are_consistent(&short));
    assert!(matches!(extract_death_events(&short), Err(ReplayError::Inconsistent)));
    let no_port = FrameData {
        ids: vec![Some(1)],
        states: vec![vec![Some(0)]],
        ports: Vec::new(),
        tags: vec!["t".to_string()],
    };
    assert!(matches!(extract_death_events(&no_port), Err(ReplayError::Inconsistent)));
    let no_tag = FrameData {
        ids: vec![Some(1)],
        states: vec![vec![Some(0)]],
        ports: vec![0],
        tags: Vec::new(),
    };
    assert!(matches!(extract_death_events(&no_tag), Err(ReplayError::Inconsistent)));
    let empty = FrameData { ids: Vec::new(), states: Vec::new(), ports: Vec::new(), tags: Vec::new() };
    assert_eq!(extract_death_events(&empty).unwrap().len(), 0);
}

#[test]
fn time_stamps_are_written_in_rfc_3339() {
    assert_eq!(timestamp_text(0), "1970-01-01T00:00:00+00:00");
    assert_eq!(timestamp_text(1431648000), "2015-05-15T00:00:00+00:00");
    assert_eq!(timestamp_text(1762805029), "2025-11-10T20:03:49+00:00");
    assert_eq!(timestamp_text(u64::MAX), "1969-12-31T23:59:59+00:00");
    assert_eq!(timestamp_text(i64::MAX as u64), "1970-01-01T00:00:00+00:00");
}

#[test]
fn matching_replay_has_the_stem_of_the_video() {
    let candidates = vec![
        "/slp".to_string(),
        "/slp/Game_1.slp.bak".to_string(),
        "/slp/2025/Game_1.slp".to_string(),
        "/slp/Game_1.slp".to_string(),
        "/slp/Game_2.slp".to_string(),
    ];
    assert_eq!(find_matching_slp(Platform::Linux, "Game_1", &candidates), Some("/slp/2025/Game_1.slp".to_string()));
    assert_eq!(find_matching_slp(Platform::Linux, "Game_2", &candidates), Some("/slp/Game_2.slp".to_string()));
    assert_eq!(find_matching_slp(Platform::Linux, "Game_3", &candidates), None);
    assert_eq!(find_matching_slp(Platform::Linux, "game_1", &candidates), None);
    assert_eq!(find_matching_slp(Platform::Linux, "", &candidates), None);
    assert_eq!(find_matching_slp(Platform::Linux, "Game_1", &Vec::new()), None);
}

fn summary() -> ReplaySummary {
    summarize_replay(&sample(), "now")
}

#[test]
fn session_is_named_after_the_video() {
    let session = create_recording_session(
        Platform::Linux,
        "/videos/Game_1.mp4",
        1234,
        Some(1431648000),
        "now",
        Some("/slp/Game_1.slp".to_string()),
        Some(summary()),
    );
    assert_eq!(session.id, "Game_1.mp4");
    assert_eq!(session.start_time, "2015-05-15T00:00:00+00:00");
    assert_eq!(session.end_time, Some("2025-11-10T20:03:49Z".to_string()));
    assert_eq!(session.slp_path, "/slp/Game_1.slp");
    assert_eq!(session.video_path, Some("/videos/Game_1.mp4".to_string()));
    assert_eq!(session.duration, Some(121));
    assert_eq!(session.file_size, Some(1234));
    assert_eq!(session.slippi_metadata.unwrap().winner_port, Some(3));
}

#[test]
fn session_without_replay_is_bare() {
    let session = create_recording_session(Platform::Linux, "/", 0, None, "2026-01-01T00:00:00+00:00", None, None);
    assert_eq!(session.id, "unknown");
    assert_eq!(session.start_time, "2026-01-01T00:00:00+00:00");
    assert_eq!(session.end_time, None);
    assert_eq!(session.slp_path, "");
    assert_eq!(session.video_path, Some("/".to_string()));
    assert_eq!(session.duration, None);
    assert_eq!(session.file_size, Some(0));
    assert!(session.slippi_metadata.is_none());
}

fn chars(s: &str) -> Vec<char> {
    s.chars().collect()
}

#[test]
fn text_order_is_the_order_of_strings() {
    let texts = ["", "a", "ab", "b", "B", "2025-11-10", "2025-11-09", "é", "z", "ab\u{0}"];
    for a in texts {
        for b in texts {
            assert_eq!(is_text_less(&chars(a), &chars(b)), a < b);
        }
    }
}

fn session(id: &str, start: &str) -> RecordingSession {
    create_recording_session(Platform::Linux, id, 0, None, start, None, None)
}

#[test]
fn recordings_are_sorted_newest_first() {
    let sessions = vec![
        session("a", "2025-01-02"),
        session("b", "2025-03-01"),
        session("c", "2025-01-02"),
        session("d", "2024-12-31"),
        session("e", "2025-03-01"),
        session("f", "2025-01-02"),
    ];
    let sorted = sort_recordings(sessions);
    let ids: Vec<String> = sorted.iter().map(|s| s.id.clone()).collect();
    assert_eq!(ids, vec!["b", "e", "a", "c", "f", "d"]);
    assert_eq!(sort_recordings(Vec::new()).len(), 0);
}

#[test]
fn sorting_agrees_with_the_standard_stable_sort() {
    let starts = ["b", "a", "c", "a", "", "b", "ab", "c", "", "a"];
    let mut expected: Vec<(usize, String)> =
        starts.iter().enumerate().map(|(i, s)| (i, s.to_string())).collect();
    expected.sort_by(|a, b| b.1.cmp(&a.1));
    let sessions: Vec<RecordingSession> = starts
        .iter()
        .enumerate()
        .map(|(i, s)| session(format!("{}", i).as_str(), s))
        .collect();
    let sorted = sort_recordings(sessions);
    let got: Vec<(String, String)> =
        sorted.iter().map(|s| (s.id.clone(), s.start_time.clone())).collect();
    let want: Vec<(String, String)> =
        expected.iter().map(|(i, s)| (format!("{}", i), s.clone())).collect();
    assert_eq!(got, want);
}
