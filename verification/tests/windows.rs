use replay_recorder::error::CaptureError;
use replay_recorder::resolve::{
    capture_score_lowered, check_game_window, desired_dimensions, even_dimension,
    find_best_window, find_dolphin_window, find_window_handle, parse_leading_digits,
    score_capture_window,
};
use replay_recorder::target::{parse_identifier, TargetSelection};
use replay_recorder::window::{
    dedupe_windows, is_near_ratio, is_same_window, keep_marked, list_game_windows, rank_scored,
    rank_windows, score_lowered, score_window, window_is_candidate, window_is_plain_match,
    GameWindow,
};

fn window(process: &str, title: &str, class: &str, width: i32, height: i32, pid: u32) -> GameWindow {
    GameWindow {
        process_name: process.to_string(),
        window_title: title.to_string(),
        width,
        height,
        process_id: pid,
        class_name: class.to_string(),
        is_cloaked: false,
        is_child: false,
        has_owner: false,
    }
}

fn chars(s: &str) -> Vec<char> {
    s.chars().collect()
}

fn titles(windows: &Vec<GameWindow>) -> Vec<String> {
    windows.iter().map(|w| w.window_title.clone()).collect()
}

#[test]
fn parse_identifier_splits_title_and_pid() {
    assert_eq!(
        parse_identifier("Slippi Dolphin (PID:1234)"),
        ("Slippi Dolphin".to_string(), Some(1234))
    );
    assert_eq!(parse_identifier("  Dolphin  "), ("Dolphin".to_string(), None));
    assert_eq!(parse_identifier(""), (String::new(), None));
    assert_eq!(parse_identifier("   "), (String::new(), None));
    assert_eq!(parse_identifier("(PID:77)"), (String::new(), Some(77)));
    assert_eq!(parse_identifier("Game (PID:)"), ("Game".to_string(), None));
    assert_eq!(parse_identifier("Game (PID:12a34)"), ("Game".to_string(), Some(1234)));
    assert_eq!(
        parse_identifier("A (PID:1) B (PID:2)"),
        ("A (PID:1) B".to_string(), Some(2))
    );
    assert_eq!(parse_identifier("Game (PID:4294967296)"), ("Game".to_string(), None));
    assert_eq!(parse_identifier("Game (pid:5)"), ("Game (pid:5)".to_string(), None));
}

#[test]
fn selection_is_read_from_the_identifier() {
    let both = TargetSelection::from_identifier(Some("Slippi Dolphin (PID:1234)"));
    assert_eq!(both.title, Some("Slippi Dolphin".to_string()));
    assert_eq!(both.pid, Some(1234));
    let pid_only = TargetSelection::from_identifier(Some("(PID:9)"));
    assert_eq!(pid_only.title, None);
    assert_eq!(pid_only.pid, Some(9));
    let title_only = TargetSelection::from_identifier(Some(" Melee "));
    assert_eq!(title_only.title, Some("Melee".to_string()));
    assert_eq!(title_only.pid, None);
    let nothing = TargetSelection::from_identifier(None);
    assert_eq!(nothing.title, None);
    assert_eq!(nothing.pid, None);
    let blank = TargetSelection::from_identifier(Some("  "));
    assert_eq!(blank.title, None);
    assert_eq!(blank.pid, None);
    let none = TargetSelection::none();
    assert_eq!(none.title, None);
    assert_eq!(none.pid, None);
    let copy = both.clone();
    assert_eq!(copy.title, both.title);
    assert_eq!(copy.pid, both.pid);
}

#[test]
fn score_adds_the_weights_of_the_signals() {
    let game = window("Slippi Dolphin.exe", "Slippi Dolphin - Melee", "wxWindowNR", 1280, 720, 1);
    assert_eq!(score_window(&game), 11);
    let dialog = window("Dolphin.exe", "Settings", "#32770", 400, 300, 1);
    assert_eq!(score_window(&dialog), -5);
    let worst = window("x", "Launcher", "#32770 tooltips", 10, 100, 1);
    assert_eq!(score_window(&worst), -7);
    let plain = window("x", "Notepad", "Notepad", 800, 500, 1);
    assert_eq!(score_window(&plain), 3);
    let mut cloaked = window("x", "Notepad", "Notepad", 800, 500, 1);
    cloaked.is_cloaked = true;
    assert_eq!(score_window(&cloaked), 0);
    let upper = window("x", "SLIPPI", "DOLPHIN", 10, 100, 1);
    assert_eq!(score_window(&upper), 6);
}

#[test]
fn score_of_lowered_texts_is_exact() {
    assert_eq!(score_lowered(&chars("melee"), &chars(""), 640, 480, false), 8);
    assert_eq!(score_lowered(&chars("melee"), &chars(""), 639, 480, false), 5);
    assert_eq!(score_lowered(&chars("melee launcher"), &chars(""), 0, 0, false), 0);
    assert_eq!(score_lowered(&chars(""), &chars("tooltips_class32"), 0, 0, false), -4);
    assert_eq!(score_lowered(&chars(""), &chars("x#32770"), 0, 0, false), 0);
    assert_eq!(score_lowered(&chars("MELEE"), &chars(""), 0, 0, false), 0);
}

#[test]
fn aspect_ratio_is_compared_exactly() {
    assert!(is_near_ratio(4, 3, 4, 3));
    assert!(is_near_ratio(1920, 1080, 16, 9));
    assert!(!is_near_ratio(1920, 1080, 4, 3));
    assert!(is_near_ratio(105, 75, 4, 3));
    assert!(!is_near_ratio(106, 75, 4, 3));
    assert!(is_near_ratio(95, 75, 4, 3));
    assert!(!is_near_ratio(94, 75, 4, 3));
    assert!(!is_near_ratio(4, 0, 4, 3));
    assert!(!is_near_ratio(4, -3, 4, 3));
    assert!(!is_near_ratio(-4, 3, 4, 3));
    assert!(is_near_ratio(i32::MAX, i32::MAX, 1, 1));
    assert!(!is_near_ratio(i32::MIN, i32::MAX, 64, 64));
}

#[test]
fn candidates_and_plain_matches() {
    let by_process = window("Slippi Dolphin.exe", "x", "y", 640, 480, 1);
    assert!(window_is_candidate(&by_process));
    assert!(!window_is_plain_match(&by_process));
    let by_class = window("x", "y", "wxWindowNR", 640, 480, 1);
    assert!(window_is_candidate(&by_class));
    let small = window("dolphin", "dolphin", "dolphin", 639, 480, 1);
    assert!(!window_is_candidate(&small));
    let launcher = window("x", "Slippi Launcher", "y", 800, 600, 1);
    assert!(window_is_candidate(&launcher));
    assert!(!window_is_plain_match(&launcher));
    let melee = window("x", "Melee", "y", 800, 600, 1);
    assert!(window_is_plain_match(&melee));
}

#[test]
fn duplicates_are_collapsed_onto_the_first() {
    let a = window("p", "Melee", "c", 800, 600, 1);
    let mut b = window("other", "Melee", "c", 800, 600, 1);
    b.is_child = true;
    let c = window("p", "Melee", "c", 800, 601, 1);
    let d = window("p", "Melee", "c", 800, 600, 2);
    assert!(is_same_window(&a, &b));
    assert!(!is_same_window(&a, &c));
    assert!(!is_same_window(&a, &d));
    let unique = dedupe_windows(&vec![a.clone(), b, c, a.clone(), d]);
    assert_eq!(unique.len(), 3);
    assert_eq!(unique[0].process_name, "p");
    assert!(!unique[0].is_child);
    assert_eq!(unique[1].height, 601);
    assert_eq!(unique[2].process_id, 2);
    assert_eq!(dedupe_windows(&Vec::new()).len(), 0);
}

#[test]
fn listing_ranks_candidates_by_score() {
    let low = window("dolphin", "first", "c", 641, 480, 1);
    let best = window("dolphin", "Slippi Dolphin", "wxWindowNR", 1280, 720, 2);
    let tie_a = window("dolphin", "tie a", "c", 1280, 720, 3);
    let tie_b = window("dolphin", "tie b", "c", 1920, 1080, 4);
    let small = window("dolphin", "Melee", "dolphin", 100, 100, 5);
    let other = window("notepad", "Notes", "c", 1280, 720, 6);
    assert_eq!(score_window(&low), 5);
    assert_eq!(score_window(&tie_a), 5);
    let listed = list_game_windows(&vec![
        low.clone(),
        best.clone(),
        tie_a.clone(),
        small,
        tie_b.clone(),
        other,
        best.clone(),
    ]);
    assert_eq!(titles(&listed), vec!["Slippi Dolphin", "first", "tie a", "tie b"]);
}

#[test]
fn duplicates_are_collapsed_before_ranking() {
    let mut hidden = window("dolphin", "Slippi Dolphin", "wxWindowNR", 1280, 720, 2);
    hidden.is_cloaked = true;
    let shown = window("dolphin", "Slippi Dolphin", "wxWindowNR", 1280, 720, 2);
    assert_eq!(titles(&list_game_windows(&vec![shown.clone(), hidden.clone()])), vec!["Slippi Dolphin"]);
    assert_eq!(list_game_windows(&vec![hidden.clone(), shown.clone()]).len(), 0);
    assert_eq!(titles(&rank_windows(&vec![hidden, shown.clone(), shown])), vec!["Slippi Dolphin", "Slippi Dolphin"]);
}

#[test]
fn marked_windows_are_kept_in_order() {
    let windows = vec![
        window("p", "a", "c", 1, 1, 1),
        window("p", "b", "c", 1, 1, 1),
        window("p", "c", "c", 1, 1, 1),
    ];
    assert_eq!(titles(&keep_marked(&windows, &vec![true, false, true])), vec!["a", "c"]);
    assert_eq!(keep_marked(&windows, &vec![false, false, false]).len(), 0);
    assert_eq!(keep_marked(&windows, &vec![true, true]).len(), 0);
    assert_eq!(keep_marked(&Vec::new(), &Vec::new()).len(), 0);
}

#[test]
fn given_scores_rank_the_windows() {
    let windows = vec![
        window("p", "a", "c", 1, 1, 1),
        window("p", "b", "c", 1, 1, 1),
        window("p", "c", "c", 1, 1, 1),
        window("p", "d", "c", 1, 1, 1),
        window("p", "e", "c", 1, 1, 1),
    ];
    let all = vec![true, true, true, true, true];
    let none = vec![false, false, false, false, false];
    let ranked = rank_scored(&windows, &vec![2, 11, 1, 11, 5], &all, &none);
    assert_eq!(titles(&ranked), vec!["b", "d", "e", "a"]);
    let some = vec![true, false, true, true, false];
    let ranked = rank_scored(&windows, &vec![2, 11, 1, 11, 5], &some, &none);
    assert_eq!(titles(&ranked), vec!["d", "a"]);
    let plain = vec![false, true, false, false, true];
    let fallback = rank_scored(&windows, &vec![1, 1, 1, 12, -7], &all, &plain);
    assert_eq!(titles(&fallback), vec!["b", "e"]);
    assert_eq!(rank_scored(&windows, &vec![1, 1, 1, 1, 1], &all, &vec![true]).len(), 0);
    assert_eq!(rank_scored(&windows, &vec![5], &all, &plain).len(), 0);
    assert_eq!(rank_scored(&windows, &vec![5, 5, 5, 5, 5], &vec![true], &plain).len(), 0);
}

#[test]
fn listing_leaves_out_candidates_under_the_threshold() {
    let dialog = window("dolphin", "Slippi Settings", "#32770", 1000, 480, 1);
    assert!(window_is_candidate(&dialog));
    assert_eq!(score_window(&dialog), -1);
    let fine = window("dolphin", "x", "y", 1000, 480, 2);
    assert_eq!(score_window(&fine), 3);
    let listed = list_game_windows(&vec![dialog, fine]);
    assert_eq!(titles(&listed), vec!["x"]);
}

#[test]
fn listing_falls_back_to_plain_matches() {
    let dialog = window("x", "Melee", "tooltips #32770x", 1000, 480, 1);
    assert_eq!(score_window(&dialog), 2);
    let tool = window("x", "Melee", "#32770 tooltips", 1000, 480, 7);
    assert_eq!(score_window(&tool), 2);
    let only_plain = window("x", "Dolphin", "#32770", 1000, 480, 3);
    assert_eq!(score_window(&only_plain), 2);
    let listed = list_game_windows(&vec![only_plain.clone()]);
    assert_eq!(titles(&listed), vec!["Dolphin"]);
    let negative = window("x", "Slippi", "#32770", 1000, 100, 4);
    let plain_a = window("x", "Dolphin Launcher", "#32770", 1000, 480, 5);
    let listed = list_game_windows(&vec![negative, plain_a]);
    assert_eq!(listed.len(), 0);
    assert_eq!(list_game_windows(&Vec::new()).len(), 0);
}

#[test]
fn game_window_is_detected_above_the_threshold() {
    let game = window("Slippi Dolphin.exe", "Faster Melee", "wxWindowNR", 1280, 720, 42);
    let launcher = window("Slippi Launcher.exe", "Slippi Launcher", "Chrome", 1280, 720, 7);
    let windows = vec![launcher.clone(), game.clone()];
    assert!(check_game_window(&windows, None));
    assert!(check_game_window(&windows, Some("")));
    assert!(check_game_window(&windows, Some("x (PID:42)")));
    assert!(check_game_window(&windows, Some("PID: 42abc")));
    assert!(check_game_window(&windows, Some("x (PID:7)")));
    assert!(!check_game_window(&windows, Some("x (PID:8)")));
    assert!(check_game_window(&windows, Some("  faster  ")));
    assert!(!check_game_window(&windows, Some("notepad")));
    assert!(check_game_window(&windows, Some("PID:abc")));
    let weak = window("dolphin", "x", "y", 100, 100, 1);
    assert!(!check_game_window(&vec![weak], None));
    assert!(!check_game_window(&Vec::new(), None));
    let strong_other = window("notepad", "Melee", "wxWindowNR", 1280, 720, 9);
    assert!(!check_game_window(&vec![strong_other.clone()], None));
    assert!(check_game_window(&vec![strong_other], Some("MELEE")));
}

#[test]
fn leading_digits_stop_at_the_first_other_character() {
    let text = chars("123abc456");
    assert_eq!(parse_leading_digits(&text, 0, text.len()), Some(123));
    assert_eq!(parse_leading_digits(&text, 3, text.len()), None);
    assert_eq!(parse_leading_digits(&text, 6, text.len()), Some(456));
    assert_eq!(parse_leading_digits(&text, 9, text.len()), None);
    let big = chars("4294967295x");
    assert_eq!(parse_leading_digits(&big, 0, big.len()), Some(u32::MAX));
    let bigger = chars("42949672950");
    assert_eq!(parse_leading_digits(&bigger, 0, bigger.len()), None);
}

#[test]
fn identifier_names_the_first_window_that_answers() {
    let windows = vec![
        window("a", "", "c", 10, 10, 5),
        window("a", "Other", "c", 10, 10, 5),
        window("a", "Slippi Dolphin", "c", 10, 10, 6),
        window("a", "SLIPPI dolphin 2", "c", 10, 10, 5),
    ];
    assert_eq!(find_window_handle("slippi", &windows, false), Some(2));
    assert_eq!(find_window_handle("Slippi (PID:5)", &windows, false), Some(3));
    assert_eq!(find_window_handle("(PID:5)", &windows, false), Some(1));
    assert_eq!(find_window_handle("", &windows, true), None);
    assert_eq!(find_window_handle("nothing", &windows, true), None);
    assert_eq!(find_window_handle("Slippi (PID:9)", &windows, false), None);
    assert_eq!(find_window_handle("Slippi (PID:9)", &windows, true), Some(2));
    assert_eq!(find_window_handle("Other (PID:x)", &windows, true), Some(1));
}

#[test]
fn capture_score_is_area_plus_bonuses() {
    let game = window("p", "Slippi Dolphin", "wxWindowNR", 1280, 720, 1);
    assert_eq!(score_capture_window(&game, Some("SLIPPI")), 2_500_921_600);
    assert_eq!(score_capture_window(&game, Some("zzz")), 1_500_921_600);
    assert_eq!(score_capture_window(&game, None), 1_500_921_600);
    let proxy = window("p", "x", "D3DProxyWindow", 200, 200, 1);
    assert_eq!(score_capture_window(&proxy, None), 5_000_040_000);
    let small = window("p", "Slippi", "wxWindowNR", 199, 2000, 1);
    assert_eq!(score_capture_window(&small, Some("slippi")), -1);
    let largest = window("p", "x", "y", i32::MAX, i32::MAX, 1);
    assert_eq!(
        score_capture_window(&largest, None),
        (i32::MAX as i64) * (i32::MAX as i64)
    );
    assert_eq!(
        capture_score_lowered(&chars("melee"), &chars("d3dproxy wxwindownr"), 200, 200, &Some(chars("el"))),
        40_000 + 1_000_000_000 + 500_000_000 + 5_000_000_000 + 1_000_000_000
    );
}

#[test]
fn process_id_match_is_selected_over_title_keyword() {
    let windows = vec![
        window("notepad", "Notes", "Edit", 300, 300, 10),
        window("dolphin", "Slippi Dolphin", "wxWindowNR", 1920, 1080, 20),
    ];
    let selection = TargetSelection { title: Some("Slippi".to_string()), pid: Some(10) };
    let target = find_best_window(&selection, &windows, false).unwrap();
    assert_eq!(target.index, 0);
    assert_eq!(target.pid, 10);
    assert_eq!(target.title, "Notes");
    assert_eq!(target.width, 300);
    assert_eq!(target.height, 300);
}

#[test]
fn best_window_of_a_process_is_the_last_of_the_highest_score() {
    let windows = vec![
        window("d", "one", "c", 800, 600, 5),
        window("d", "two", "c", 600, 800, 5),
        window("d", "three", "c", 1000, 1000, 6),
    ];
    let selection = TargetSelection { title: None, pid: Some(5) };
    let target = find_best_window(&selection, &windows, false).unwrap();
    assert_eq!(target.index, 1);
    let missing = TargetSelection { title: None, pid: Some(7) };
    assert_eq!(find_best_window(&missing, &windows, false).unwrap_err(), CaptureError::TargetNotFound);
}

#[test]
fn missing_process_may_widen_to_the_title() {
    let windows = vec![
        window("d", "Melee netplay", "c", 801, 601, 5),
        window("d", "Melee", "c", 800, 600, 6),
    ];
    let gone = TargetSelection { title: Some("Melee".to_string()), pid: Some(9) };
    assert_eq!(
        find_best_window(&gone, &windows, false).unwrap_err(),
        CaptureError::TargetNotFound
    );
    let target = find_best_window(&gone, &windows, true).unwrap();
    assert_eq!(target.index, 1);
    assert_eq!(target.pid, 6);
    let untitled = TargetSelection { title: None, pid: Some(9) };
    assert_eq!(
        find_best_window(&untitled, &windows, true).unwrap_err(),
        CaptureError::TargetNotFound
    );
    let present = TargetSelection { title: Some("Melee".to_string()), pid: Some(5) };
    assert_eq!(find_best_window(&present, &windows, true).unwrap().index, 0);
}

#[test]
fn title_selects_the_exact_window_first() {
    let windows = vec![
        window("d", "Melee netplay", "c", 801, 601, 5),
        window("d", "Melee", "c", 800, 600, 6),
        window("d", "Melee", "c", 900, 700, 7),
    ];
    let exact = TargetSelection { title: Some("Melee".to_string()), pid: None };
    let target = find_best_window(&exact, &windows, false).unwrap();
    assert_eq!(target.index, 1);
    assert_eq!(target.width, 800);
    assert_eq!(target.height, 600);
    let part = TargetSelection { title: Some("netplay".to_string()), pid: None };
    let target = find_best_window(&part, &windows, false).unwrap();
    assert_eq!(target.index, 0);
    assert_eq!(target.width, 800);
    assert_eq!(target.height, 600);
    let case = TargetSelection { title: Some("melee".to_string()), pid: None };
    assert_eq!(find_best_window(&case, &windows, false).unwrap_err(), CaptureError::TargetNotFound);
}

#[test]
fn default_selection_prefers_the_game() {
    let windows = vec![
        window("x", "Huge", "c", 3000, 2000, 1),
        window("d", "Slippi Dolphin", "wxWindowNR", 640, 480, 2),
    ];
    let target = find_best_window(&TargetSelection::none(), &windows, false).unwrap();
    assert_eq!(target.index, 1);
    assert_eq!(
        find_best_window(&TargetSelection::none(), &Vec::new(), false).unwrap_err(),
        CaptureError::TargetNotFound
    );
}

#[test]
fn an_unselected_window_under_the_threshold_is_no_target() {
    let small = vec![window("d", "Slippi Dolphin", "wxWindowNR", 100, 100, 5)];
    assert_eq!(
        find_best_window(&TargetSelection::none(), &small, false).unwrap_err(),
        CaptureError::TargetNotFound
    );
    let short = vec![window("d", "Slippi Dolphin", "wxWindowNR", 1920, 199, 5)];
    assert_eq!(
        find_best_window(&TargetSelection::none(), &short, false).unwrap_err(),
        CaptureError::TargetNotFound
    );
    let mixed = vec![
        window("d", "Slippi Dolphin", "wxWindowNR", 199, 199, 5),
        window("x", "Notes", "c", 200, 200, 6),
    ];
    assert_eq!(find_best_window(&TargetSelection::none(), &mixed, false).unwrap().index, 1);
}

#[test]
fn a_selected_window_is_the_target_whatever_its_size() {
    let selection = TargetSelection { title: None, pid: Some(5) };
    let windows = vec![
        window("d", "Notes", "c", 100, 60, 5),
        window("x", "Slippi Dolphin", "wxWindowNR", 1280, 720, 6),
    ];
    let target = find_best_window(&selection, &windows, false).unwrap();
    assert_eq!(target.index, 0);
    assert_eq!(target.pid, 5);
    assert_eq!(target.width, 100);
    assert_eq!(target.height, 60);
    let odd = vec![window("d", "Melee", "c", 3, 199, 5)];
    let target = find_best_window(&selection, &odd, false).unwrap();
    assert_eq!(target.width, 2);
    assert_eq!(target.height, 198);
    let titled = TargetSelection { title: Some("Melee".to_string()), pid: None };
    let target = find_best_window(&titled, &odd, false).unwrap();
    assert_eq!(target.index, 0);
    assert_eq!(target.width, 2);
    let both = TargetSelection { title: Some("Melee".to_string()), pid: Some(5) };
    assert_eq!(find_best_window(&both, &odd, false).unwrap().index, 0);
}

#[test]
fn a_window_without_area_is_no_target() {
    let selection = TargetSelection { title: None, pid: Some(5) };
    let tiny = vec![window("d", "Melee", "c", 1, 500, 5)];
    assert_eq!(find_best_window(&selection, &tiny, false).unwrap_err(), CaptureError::TargetNotFound);
    let negative = vec![window("d", "Melee", "c", -20, 500, 5)];
    assert_eq!(find_best_window(&selection, &negative, false).unwrap_err(), CaptureError::TargetNotFound);
    let flat = vec![window("d", "Melee", "c", 500, 0, 5)];
    let titled = TargetSelection { title: Some("Melee".to_string()), pid: None };
    assert_eq!(find_best_window(&titled, &flat, false).unwrap_err(), CaptureError::TargetNotFound);
    let gone = TargetSelection { title: None, pid: Some(9) };
    let present = vec![window("d", "Melee", "c", 500, 500, 5)];
    assert_eq!(find_best_window(&gone, &present, false).unwrap_err(), CaptureError::TargetNotFound);
}

#[test]
fn dimensions_are_made_even() {
    assert_eq!(even_dimension(0), 0);
    assert_eq!(even_dimension(1), 0);
    assert_eq!(even_dimension(2), 2);
    assert_eq!(even_dimension(1081), 1080);
    assert_eq!(even_dimension(u32::MAX), u32::MAX - 1);
}

#[test]
fn desired_dimensions_are_at_least_the_minimum() {
    assert_eq!(desired_dimensions(1280, 720), (1280, 720));
    assert_eq!(desired_dimensions(100, 720), (320, 720));
    assert_eq!(desired_dimensions(-5, 0), (320, 320));
    assert_eq!(desired_dimensions(320, 319), (320, 320));
    assert_eq!(desired_dimensions(i32::MAX, i32::MIN), (i32::MAX, 320));
}

#[test]
fn dolphin_window_is_found_by_its_title() {
    let windows = vec![
        window("d", "Dolphin Configuration", "c", 1, 1, 1),
        window("d", "Dolphin", "c", 1, 1, 1),
        window("d", "Melee Graphics", "c", 1, 1, 1),
        window("d", "Dolphin 5.0 | FPS: 60", "c", 1, 1, 1),
        window("d", "Slippi Dolphin", "c", 1, 1, 1),
    ];
    assert_eq!(find_dolphin_window(&windows), Ok(3));
    assert_eq!(
        find_dolphin_window(&vec![window("d", "slippi dolphin", "c", 1, 1, 1)]),
        Err(CaptureError::TargetNotFound)
    );
    assert_eq!(
        find_dolphin_window(&vec![window("d", "Melee Settings", "c", 1, 1, 1)]),
        Err(CaptureError::TargetNotFound)
    );
    assert_eq!(find_dolphin_window(&vec![window("d", "Super Melee", "c", 1, 1, 1)]), Ok(0));
}
