use replay_recorder::detector::{classify_event, FsEventKind, GameDetector, ReplaySignal};
use replay_recorder::error::CaptureError;
use replay_recorder::paths::Platform;

fn paths(list: &[&str]) -> Vec<String> {
    list.iter().map(|p| p.to_string()).collect()
}

fn shown(signals: &Vec<ReplaySignal>) -> Vec<String> {
    signals
        .iter()
        .map(|s| match s {
            ReplaySignal::ReplayCreated(p) => format!("created {}", p),
            ReplaySignal::ReplayModified(p) => format!("modified {}", p),
        })
        .collect()
}

#[test]
fn created_replays_are_signalled() {
    let signals = classify_event(Platform::Linux, 
        FsEventKind::Create,
        &paths(&["/r/Game1.slp", "/r/notes.txt", "/r/sub/Game2.slp", "/r/noext"]),
    );
    assert_eq!(shown(&signals), vec!["created /r/Game1.slp", "created /r/sub/Game2.slp"]);
}

#[test]
fn modified_replays_are_signalled() {
    let signals = classify_event(Platform::Linux, FsEventKind::Modify, &paths(&["/r/a.tmp", "/r/Game1.slp"]));
    assert_eq!(shown(&signals), vec!["modified /r/Game1.slp"]);
}

#[test]
fn other_events_are_dropped() {
    let replay = paths(&["/r/Game1.slp"]);
    assert_eq!(classify_event(Platform::Linux, FsEventKind::Remove, &replay).len(), 0);
    assert_eq!(classify_event(Platform::Linux, FsEventKind::Access, &replay).len(), 0);
    assert_eq!(classify_event(Platform::Linux, FsEventKind::Other, &replay).len(), 0);
    assert_eq!(classify_event(Platform::Linux, FsEventKind::Create, &Vec::new()).len(), 0);
    assert_eq!(classify_event(Platform::Linux, FsEventKind::Create, &paths(&["/r/.slp", "/r/x.SLP"])).len(), 0);
}

#[test]
fn backslash_separates_on_windows_only() {
    let replay = paths(&["C:\\r\\.slp", "C:\\r\\Game.slp"]);
    assert_eq!(
        shown(&classify_event(Platform::Windows, FsEventKind::Create, &replay)),
        vec!["created C:\\r\\Game.slp"]
    );
    assert_eq!(
        shown(&classify_event(Platform::Linux, FsEventKind::Create, &replay)),
        vec!["created C:\\r\\.slp", "created C:\\r\\Game.slp"]
    );
}

#[test]
fn detector_goes_from_idle_to_watching_and_back() {
    let mut detector = GameDetector::new("/r".to_string());
    assert!(!detector.is_watching());
    assert_eq!(detector.slippi_path(), "/r");
    let replay = paths(&["/r/Game1.slp"]);
    assert_eq!(detector.on_event(Platform::Linux, FsEventKind::Create, &replay).len(), 0);
    assert_eq!(detector.start_watching(true, true), Ok(()));
    assert!(detector.is_watching());
    assert_eq!(shown(&detector.on_event(Platform::Linux, FsEventKind::Create, &replay)), vec!["created /r/Game1.slp"]);
    detector.stop_watching();
    assert!(!detector.is_watching());
    assert_eq!(detector.on_event(Platform::Linux, FsEventKind::Modify, &replay).len(), 0);
    detector.stop_watching();
    assert!(!detector.is_watching());
    assert_eq!(detector.slippi_path(), "/r");
}

#[test]
fn detector_refuses_a_missing_directory() {
    let mut detector = GameDetector::new("/missing".to_string());
    assert_eq!(detector.start_watching(false, false), Err(CaptureError::PathNotFound));
    assert_eq!(detector.start_watching(false, true), Err(CaptureError::PathNotFound));
    assert!(!detector.is_watching());
    assert_eq!(detector.start_watching(true, false), Err(CaptureError::InitializationFailed));
    assert!(!detector.is_watching());
    assert_eq!(detector.start_watching(true, true), Ok(()));
    assert_eq!(detector.start_watching(false, true), Err(CaptureError::PathNotFound));
    assert!(detector.is_watching());
}
