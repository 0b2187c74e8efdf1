use replay_recorder::paths::{file_name_of, file_stem_of, has_extension, Platform};
use replay_recorder::resolve::{check_game_window, find_window_handle, score_capture_window};
use replay_recorder::target::parse_identifier;
use replay_recorder::text::trimmed;
use replay_recorder::window::{score_window, GameWindow};

/// A small deterministic generator of test inputs.
struct Generator(u64);

impl Generator {
    fn next(&mut self, bound: usize) -> usize {
        self.0 = self.0.wrapping_mul(6364136223846793005).wrapping_add(1442695040888963407);
        ((self.0 >> 33) as usize) % bound
    }

    fn text(&mut self, alphabet: &[&str], max_len: usize) -> String {
        let len = self.next(max_len + 1);
        let mut text = String::new();
        for _ in 0..len {
            text.push_str(alphabet[self.next(alphabet.len())]);
        }
        text
    }
}

#[test]
fn trimming_agrees_with_the_standard_library() {
    let alphabet = [" ", "\t", "\n", "\u{a0}", "\u{2003}", "\u{3000}", "a", "B", "é", "\u{200b}", "_"];
    let mut generator = Generator(1);
    for _ in 0..2000 {
        let text = generator.text(&alphabet, 8);
        assert_eq!(trimmed(&text), text.trim());
    }
}

fn reference_identifier(identifier: &str) -> (String, Option<u32>) {
    let trimmed = identifier.trim();
    if trimmed.is_empty() {
        return (String::new(), None);
    }
    if let Some(idx) = trimmed.rfind("(PID:") {
        let title = trimmed[..idx].trim_end().to_string();
        let digits: String = trimmed[idx + 5..].chars().filter(|c| c.is_ascii_digit()).collect();
        (title, digits.parse::<u32>().ok())
    } else {
        (trimmed.to_string(), None)
    }
}

#[test]
fn identifiers_are_read_as_by_the_standard_library() {
    let alphabet = [" ", "(PID:", "(PID", "PID:", ")", "1", "23", "4294967295", "0", "a", "Melee", "é", "\t", "("];
    let mut generator = Generator(2);
    for _ in 0..4000 {
        let text = generator.text(&alphabet, 7);
        assert_eq!(parse_identifier(&text), reference_identifier(&text));
    }
}

#[test]
fn file_names_agree_with_the_standard_library() {
    let alphabet = ["/", ".", "..", "a", "b.slp", "Game", ".mp4", "x.tar", " ", "\\"];
    let mut generator = Generator(3);
    for _ in 0..4000 {
        let text = generator.text(&alphabet, 6);
        let path = std::path::Path::new(&text);
        let name = path.file_name().map(|n| n.to_string_lossy().to_string());
        let stem = path.file_stem().map(|n| n.to_string_lossy().to_string());
        let extension = path.extension().map(|n| n.to_string_lossy().to_string());
        assert_eq!(file_name_of(Platform::Linux, &text), name);
        assert_eq!(file_stem_of(Platform::Linux, &text), stem);
        assert_eq!(has_extension(Platform::Linux, &text, "slp"), extension == Some("slp".to_string()));
        assert_eq!(has_extension(Platform::Linux, &text, "mp4"), extension == Some("mp4".to_string()));
        assert_eq!(has_extension(Platform::Linux, &text, ""), extension == Some(String::new()));
    }
}

fn window(generator: &mut Generator) -> GameWindow {
    let titles = ["Slippi", "Melee", "Dolphin", "Launcher", "Settings", "Configuration", " ", "x", "FPS", "É"];
    let classes = ["wxWindowNR", "Dolphin", "#32770", "tooltips_class32", "x", "D3DProxyWindow", " "];
    let processes = ["Slippi Dolphin.exe", "notepad.exe", "MELEE", "dolphin-emu", "x"];
    let sizes = [0, 1, 100, 199, 200, 479, 480, 639, 640, 720, 800, 1080, 1280, 1920, -5];
    GameWindow {
        process_name: processes[generator.next(processes.len())].to_string(),
        window_title: generator.text(&titles, 3),
        width: sizes[generator.next(sizes.len())],
        height: sizes[generator.next(sizes.len())],
        process_id: generator.next(4) as u32,
        class_name: generator.text(&classes, 2),
        is_cloaked: generator.next(4) == 0,
        is_child: false,
        has_owner: false,
    }
}

fn reference_score(w: &GameWindow) -> i32 {
    let mut s = 0;
    let title = w.window_title.to_lowercase();
    if title.contains("slippi") || title.contains("melee") || title.contains("dolphin") {
        s += 3;
    }
    if title.contains("launcher") || title.contains("settings") || title.contains("configuration") {
        s -= 3;
    }
    if w.width >= 640 && w.height >= 480 && !w.is_cloaked {
        s += 3;
    }
    if w.height > 0 {
        let ar = (w.width as f32) / (w.height as f32);
        let d43 = (ar - (4.0 / 3.0)).abs();
        let d169 = (ar - (16.0 / 9.0)).abs();
        if d43 < 0.08 || d169 < 0.08 {
            s += 2;
        }
    }
    let class = w.class_name.to_lowercase();
    if class.contains("dolphin") || class.contains("wxwindownr") {
        s += 3;
    }
    if class.starts_with("#32770") || class.contains("tooltips") {
        s -= 4;
    }
    s
}

fn reference_capture_score(w: &GameWindow, hint: Option<&str>) -> i64 {
    let width = w.width as i64;
    let height = w.height as i64;
    if width < 200 || height < 200 {
        return -1;
    }
    let mut score = width * height;
    let lc_title = w.window_title.to_lowercase();
    if let Some(h) = hint {
        if lc_title.contains(&h.to_lowercase()) {
            score += 1_000_000_000;
        }
    }
    if lc_title.contains("slippi") || lc_title.contains("melee") || lc_title.contains("dolphin") {
        score += 500_000_000;
    }
    let ln = w.class_name.to_lowercase();
    if ln.contains("d3dproxy") {
        score += 5_000_000_000;
    }
    if ln.contains("wxwindownr") {
        score += 1_000_000_000;
    }
    score
}

#[test]
fn scores_are_the_sums_of_the_weights() {
    let mut generator = Generator(4);
    for _ in 0..3000 {
        let w = window(&mut generator);
        assert_eq!(score_window(&w), reference_score(&w));
        assert_eq!(score_capture_window(&w, None), reference_capture_score(&w, None));
        assert_eq!(score_capture_window(&w, Some("MeLee")), reference_capture_score(&w, Some("MeLee")));
    }
}

fn reference_detection(windows: &Vec<GameWindow>, stored: Option<&str>) -> bool {
    let stored_id = stored.map(|s| s.trim().to_string()).filter(|s| !s.is_empty());
    let mut pid_filter: Option<u32> = None;
    let mut title_filter: Option<String> = None;
    if let Some(id) = stored_id {
        if let Some(pos) = id.find("PID:") {
            let after = id[pos + 4..].trim_start();
            let digits: String = after.chars().take_while(|c| c.is_ascii_digit()).collect();
            pid_filter = digits.parse::<u32>().ok();
        } else {
            title_filter = Some(id.to_lowercase());
        }
    }
    let mut candidates: Vec<&GameWindow> = windows.iter().collect();
    if let Some(pid) = pid_filter {
        candidates.retain(|w| w.process_id == pid);
    }
    if let Some(ref tf) = title_filter {
        candidates.retain(|w| w.window_title.to_lowercase().contains(tf));
    }
    if pid_filter.is_none() && title_filter.is_none() {
        candidates.retain(|w| {
            let pn = w.process_name.to_lowercase();
            pn.contains("dolphin") || pn.contains("slippi") || pn.contains("melee")
        });
    }
    match candidates.into_iter().max_by_key(|w| reference_score(w)) {
        Some(w) => reference_score(w) >= 4,
        None => false,
    }
}

fn reference_handle(identifier: &str, windows: &Vec<GameWindow>) -> Option<usize> {
    let (title, pid) = reference_identifier(identifier);
    if title.is_empty() && pid.is_none() {
        return None;
    }
    let needle = title.to_lowercase();
    let search = |pid: Option<u32>| {
        windows.iter().position(|w| {
            pid.map_or(true, |p| w.process_id == p)
                && !w.window_title.is_empty()
                && (needle.is_empty() || w.window_title.to_lowercase().contains(&needle))
        })
    };
    let found = search(pid);
    if found.is_none() && pid.is_some() {
        return search(None);
    }
    found
}

#[test]
fn detection_and_lookup_follow_the_reference() {
    let identifiers = [
        "", " ", "melee", "Slippi (PID:1)", "(PID:2)", "PID: 3", "x PID:0 y", "PID:", "FPS",
        "dolphin (PID:9)", "É", "(PID:x)",
    ];
    let mut generator = Generator(5);
    for _ in 0..400 {
        let count = generator.next(5);
        let mut windows = Vec::new();
        for _ in 0..count {
            windows.push(window(&mut generator));
        }
        assert_eq!(check_game_window(&windows, None), reference_detection(&windows, None));
        for identifier in identifiers {
            assert_eq!(
                check_game_window(&windows, Some(identifier)),
                reference_detection(&windows, Some(identifier))
            );
            assert_eq!(
                find_window_handle(identifier, &windows, true),
                reference_handle(identifier, &windows)
            );
        }
    }
}
