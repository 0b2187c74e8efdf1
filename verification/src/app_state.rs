//! The shared state of the application and the rules that move it.
//!
//! The state holds the detector while the replay directory is watched, the
//! capture session while a recording runs, the replay that the recording
//! belongs to, and the settings. Signals of the detector and commands of the
//! user are the only things that change it.

use crate::detector::{signal_views, signals_for, texts, FsEventKind, GameDetector, ReplaySignal, SignalView};
use crate::error::CaptureError;
use crate::paths::{video_path, video_path_for, Platform};
use crate::recorder::{Recorder, SessionView};
use crate::settings::{text_of, Settings, SettingsView};
use crate::target::{selection_of, TargetSelection};
use crate::text::same_text;
use vstd::prelude::*;
use vstd::string::*;

verus! {

/// What observers are told.
#[derive(Debug)]
pub enum Notification {
    /// A new replay was detected at this path.
    ReplayDetected(String),
    /// A recording started; it writes to this path.
    RecordingStarted(String),
    /// A recording stopped; it was written to this path.
    RecordingStopped(String),
}

/// A notification as plain values.
pub enum NotificationView {
    ReplayDetected(Seq<char>),
    RecordingStarted(Seq<char>),
    RecordingStopped(Seq<char>),
}

impl View for Notification {
    type V = NotificationView;

    open spec fn view(&self) -> NotificationView {
        match self {
            Notification::ReplayDetected(path) => NotificationView::ReplayDetected(path@),
            Notification::RecordingStarted(path) => NotificationView::RecordingStarted(path@),
            Notification::RecordingStopped(path) => NotificationView::RecordingStopped(path@),
        }
    }
}

/// Notifications as plain values.
pub open spec fn notes(notifications: Seq<Notification>) -> Seq<NotificationView> {
    notifications.map_values(|n: Notification| n@)
}

/// The name under which a notification is published.
pub open spec fn event_name_of(notification: NotificationView) -> Seq<char> {
    match notification {
        NotificationView::ReplayDetected(_) => "replay-detected"@,
        NotificationView::RecordingStarted(_) => "recording-started"@,
        NotificationView::RecordingStopped(_) => "recording-stopped"@,
    }
}

/// The path that a notification carries.
pub open spec fn payload_of(notification: NotificationView) -> Seq<char> {
    match notification {
        NotificationView::ReplayDetected(path) => path,
        NotificationView::RecordingStarted(path) => path,
        NotificationView::RecordingStopped(path) => path,
    }
}

impl Notification {
    /// The name under which the notification is published.
    pub fn event_name(&self) -> (name: &'static str)
        ensures
            name@ == event_name_of(self@),
    {
        match self {
            Notification::ReplayDetected(_) => "replay-detected",
            Notification::RecordingStarted(_) => "recording-started",
            Notification::RecordingStopped(_) => "recording-stopped",
        }
    }

    /// The path that the notification carries.
    pub fn payload(&self) -> (path: &String)
        ensures
            path@ == payload_of(self@),
    {
        match self {
            Notification::ReplayDetected(path) => path,
            Notification::RecordingStarted(path) => path,
            Notification::RecordingStopped(path) => path,
        }
    }
}

/// The seconds to wait between the last write to a replay and the stop of its
/// recording, so that the writer can finish.
pub const SETTLE_SECONDS: u64 = 3;

/// A stop that is to run later, for the recording of one replay.
#[derive(Debug)]
pub struct DeferredStop {
    /// The replay whose recording is to be stopped.
    pub path: String,
    /// The seconds to wait before the stop runs.
    pub delay_seconds: u64,
}

/// The state as plain values.
pub struct StateView {
    /// The directory that is watched, while a detector is installed.
    pub watching: Option<Seq<char>>,
    /// The capture session, while a recording runs.
    pub recording: Option<SessionView>,
    /// The replay that the running recording belongs to.
    pub tracked_replay: Option<Seq<char>>,
    /// When the tracked replay was last seen to change.
    pub last_modification: Option<u64>,
    /// The replay that was detected last.
    pub last_detected: Option<Seq<char>>,
    pub settings: SettingsView,
    /// The operating system whose paths the engine reads.
    pub platform: Platform,
}

/// What holds of every state: a replay is tracked only while a recording
/// runs, and a modification is remembered only of a tracked replay.
pub open spec fn consistent(state: StateView) -> bool {
    &&& state.tracked_replay is Some ==> state.recording is Some
    &&& state.last_modification is Some ==> state.tracked_replay is Some
}

/// The state at start-up, with the given settings, on the given platform.
pub open spec fn initial_state(settings: SettingsView, platform: Platform) -> StateView {
    StateView {
        watching: None,
        recording: None,
        tracked_replay: None,
        last_modification: None,
        last_detected: None,
        settings,
        platform,
    }
}

/// The state once watching has started on `directory`.
pub open spec fn after_watching(state: StateView, directory: Seq<char>) -> StateView {
    StateView { watching: Some(directory), ..state }
}

/// The state once watching has stopped.
pub open spec fn after_stop_watching(state: StateView) -> StateView {
    StateView { watching: None, ..state }
}

/// The state once a replay has been detected.
pub open spec fn after_detected(state: StateView, path: Seq<char>) -> StateView {
    StateView { last_detected: Some(path), ..state }
}

/// The session that a start asks the backend for: it writes to `output`, with
/// the quality and the target of the settings.
pub open spec fn session_for(settings: SettingsView, output: Seq<char>) -> SessionView {
    SessionView { output, quality: settings.quality, target: selection_of(settings.target) }
}

/// The state once the session `session` has started, for the replay `replay`,
/// if for any.
pub open spec fn after_started(
    state: StateView,
    session: SessionView,
    replay: Option<Seq<char>>,
) -> StateView {
    StateView { recording: Some(session), tracked_replay: replay, last_modification: None, ..state }
}

/// The state once the capture session has been stopped: nothing records,
/// nothing is tracked.
pub open spec fn after_stopped(state: StateView) -> StateView {
    StateView { recording: None, tracked_replay: None, last_modification: None, ..state }
}

/// Whether a newly detected replay starts a recording: recordings start by
/// themselves, and none runs.
pub open spec fn starts_recording(state: StateView) -> bool {
    state.settings.auto_start && state.recording is None
}

/// The state after a replay was created at `path`; `started` says whether
/// the backend started the session that was asked for.
pub open spec fn after_replay_created(state: StateView, path: Seq<char>, started: bool) -> StateView {
    if starts_recording(state) && started {
        after_started(
            after_detected(state, path),
            session_for(state.settings, video_path(state.platform, state.settings.recording_dir, path)),
            Some(path),
        )
    } else {
        after_detected(state, path)
    }
}

/// Whether a write to `path` schedules a stop: `path` is the tracked replay.
pub open spec fn schedules_stop(state: StateView, path: Seq<char>) -> bool {
    state.tracked_replay == Some(path)
}

/// The state after the replay at `path` was modified at `instant`.
pub open spec fn after_replay_modified(state: StateView, path: Seq<char>, instant: u64) -> StateView {
    if schedules_stop(state, path) {
        StateView { last_modification: Some(instant), ..state }
    } else {
        state
    }
}

/// The state after a deferred stop for `path` has run: stopped if `path` is
/// still the tracked replay, unchanged otherwise.
pub open spec fn after_deferred_stop(state: StateView, path: Seq<char>) -> StateView {
    if schedules_stop(state, path) {
        after_stopped(state)
    } else {
        state
    }
}

/// The state after a stop command: stopped if a recording runs, unchanged
/// otherwise.
pub open spec fn after_stop_command(state: StateView) -> StateView {
    if state.recording is Some {
        after_stopped(state)
    } else {
        state
    }
}

/// The notifications of a stop that the backend answered with `outcome`.
pub open spec fn stop_notes(outcome: Result<String, CaptureError>) -> Seq<NotificationView> {
    match outcome {
        Ok(path) => seq![NotificationView::RecordingStopped(path@)],
        Err(_) => Seq::empty(),
    }
}

/// The notifications of a stop: observers hear of the output path where the
/// backend finished the file, and of nothing where it failed.
pub fn stop_notifications(outcome: &Result<String, CaptureError>) -> (notifications: Vec<
    Notification,
>)
    ensures
        notes(notifications@) == stop_notes(*outcome),
{
    let mut notifications: Vec<Notification> = Vec::new();
    match outcome {
        Ok(path) => {
            notifications.push(Notification::RecordingStopped(path.clone()));
            assert(notes(notifications@) =~= stop_notes(*outcome));
        },
        Err(_) => {
            assert(notes(notifications@) =~= stop_notes(*outcome));
        },
    }
    notifications
}

/// The state after a start command that the backend answered with success
/// or failure: a running recording is never replaced.
pub open spec fn after_start_command(
    state: StateView,
    output: Seq<char>,
    replay: Option<Seq<char>>,
    started: bool,
) -> StateView {
    if state.recording is None && started {
        after_started(state, session_for(state.settings, output), replay)
    } else {
        state
    }
}

/// Every rule keeps the state consistent: a replay is tracked only while a
/// recording runs.
pub proof fn lemma_rules_keep_consistency(
    state: StateView,
    path: Seq<char>,
    output: Seq<char>,
    replay: Option<Seq<char>>,
    started: bool,
    instant: u64,
)
    requires
        consistent(state),
    ensures
        consistent(initial_state(state.settings, state.platform)),
        consistent(after_watching(state, path)),
        consistent(after_stop_watching(state)),
        consistent(after_replay_created(state, path, started)),
        consistent(after_replay_modified(state, path, instant)),
        consistent(after_deferred_stop(state, path)),
        consistent(after_start_command(state, output, replay, started)),
        consistent(after_stop_command(state)),
{
}

/// There is never more than one capture session: while a recording runs, no
/// new replay and no start command puts another in its place.
pub proof fn lemma_recordings_never_stack(
    state: StateView,
    path: Seq<char>,
    output: Seq<char>,
    replay: Option<Seq<char>>,
    started: bool,
)
    requires
        state.recording is Some,
    ensures
        after_replay_created(state, path, started) == after_detected(state, path),
        after_replay_created(state, path, started).recording == state.recording,
        after_replay_created(state, path, started).tracked_replay == state.tracked_replay,
        after_start_command(state, output, replay, started) == state,
{
}

/// Stopping to watch twice in a row is the same as stopping once.
pub proof fn lemma_stop_watching_is_idempotent(state: StateView)
    ensures
        after_stop_watching(after_stop_watching(state)) == after_stop_watching(state),
        after_stop_watching(state).watching is None,
{
}

/// Of two writes to the tracked replay only one stops the recording: once the
/// deferred stop of the first has run, a second write schedules nothing, and
/// a second deferred stop for the same replay changes nothing.
pub proof fn lemma_repeated_modification_stops_once(
    state: StateView,
    path: Seq<char>,
    first: u64,
    second: u64,
)
    requires
        consistent(state),
        schedules_stop(state, path),
    ensures
        ({
            let stopped = after_deferred_stop(after_replay_modified(state, path, first), path);
            &&& stopped.recording is None
            &&& stopped.tracked_replay is None
            &&& !schedules_stop(stopped, path)
            &&& after_replay_modified(stopped, path, second) == stopped
            &&& after_deferred_stop(stopped, path) == stopped
        }),
        ({
            let twice = after_replay_modified(after_replay_modified(state, path, first), path, second);
            &&& after_deferred_stop(after_deferred_stop(twice, path), path) == after_deferred_stop(
                twice,
                path,
            )
            &&& after_deferred_stop(twice, path) == after_stopped(state)
        }),
{
}

/// A stop command without a recording changes nothing.
pub proof fn lemma_stop_without_recording(state: StateView)
    requires
        state.recording is None,
    ensures
        after_stop_command(state) == state,
{
}

/// The shared state of the application, for a backend of type `R`.
pub struct AppState<R: Recorder> {
    game_detector: Option<GameDetector>,
    recorder: Option<R>,
    settings: Settings,
    last_replay_path: Option<String>,
    current_recording_file: Option<String>,
    last_file_modification: Option<u64>,
    platform: Platform,
}

impl<R: Recorder> View for AppState<R> {
    type V = StateView;

    closed spec fn view(&self) -> StateView {
        StateView {
            watching: match self.game_detector {
                Some(detector) => Some(detector.directory()),
                None => None,
            },
            recording: match self.recorder {
                Some(recorder) => Some(recorder.session()),
                None => None,
            },
            tracked_replay: match self.current_recording_file {
                Some(path) => Some(path@),
                None => None,
            },
            last_modification: self.last_file_modification,
            last_detected: match self.last_replay_path {
                Some(path) => Some(path@),
                None => None,
            },
            settings: self.settings@,
            platform: self.platform,
        }
    }
}

impl<R: Recorder> AppState<R> {
    /// A held detector watches, a held capture session is active, and the
    /// state is consistent.
    #[verifier::type_invariant]
    closed spec fn inv(&self) -> bool {
        &&& match self.game_detector {
            Some(detector) => detector.watches(),
            None => true,
        }
        &&& match self.recorder {
            Some(recorder) => recorder.active(),
            None => true,
        }
        &&& self.current_recording_file is Some ==> self.recorder is Some
        &&& self.last_file_modification is Some ==> self.current_recording_file is Some
    }

    /// The state at start-up: nothing is watched, nothing records.
    pub fn new(settings: Settings, platform: Platform) -> (state: Self)
        ensures
            state@ == initial_state(settings@, platform),
    {
        AppState {
            game_detector: None,
            recorder: None,
            settings,
            last_replay_path: None,
            current_recording_file: None,
            last_file_modification: None,
            platform,
        }
    }

    /// The settings.
    pub fn settings(&self) -> (settings: &Settings)
        ensures
            settings@ == self@.settings,
    {
        &self.settings
    }

    /// Replaces the settings.
    pub fn set_settings(&mut self, settings: Settings)
        ensures
            final(self)@ == (StateView { settings: settings@, ..old(self)@ }),
    {
        proof {
            use_type_invariant(&*self);
        }
        self.settings = settings;
    }

    /// The stored identifier of the window to record.
    pub fn get_game_process_name(&self) -> (name: Option<String>)
        ensures
            match name {
                Some(n) => self@.settings.target == Some(n@),
                None => self@.settings.target is None,
            },
    {
        match &self.settings.target {
            Some(t) => Some(t.clone()),
            None => None,
        }
    }

    /// Stores the identifier of the window to record.
    pub fn set_game_process_name(&mut self, process_name: String)
        ensures
            final(self)@ == (StateView {
                settings: SettingsView { target: Some(process_name@), ..old(self)@.settings },
                ..old(self)@
            }),
    {
        proof {
            use_type_invariant(&*self);
        }
        self.settings.target = Some(process_name);
    }

    /// The replay that was detected last.
    pub fn get_last_replay_path(&self) -> (path: Option<String>)
        ensures
            match path {
                Some(p) => self@.last_detected == Some(p@),
                None => self@.last_detected is None,
            },
    {
        match &self.last_replay_path {
            Some(p) => Some(p.clone()),
            None => None,
        }
    }

    /// The replay that the running recording belongs to.
    pub fn tracked_replay_path(&self) -> (path: Option<String>)
        ensures
            match path {
                Some(p) => self@.tracked_replay == Some(p@),
                None => self@.tracked_replay is None,
            },
            consistent(self@),
    {
        proof {
            use_type_invariant(self);
        }
        match &self.current_recording_file {
            Some(p) => Some(p.clone()),
            None => None,
        }
    }

    /// When the tracked replay was last seen to change.
    pub fn last_modification(&self) -> (instant: Option<u64>)
        ensures
            instant == self@.last_modification,
    {
        self.last_file_modification
    }

    /// Whether a recording runs.
    pub fn is_recording(&self) -> (recording: bool)
        ensures
            recording == (self@.recording is Some),
            consistent(self@),
    {
        proof {
            use_type_invariant(self);
        }
        self.recorder.is_some()
    }

    /// Whether the replay directory is watched.
    pub fn is_watching(&self) -> (watching: bool)
        ensures
            watching == (self@.watching is Some),
    {
        self.game_detector.is_some()
    }

    /// Starts watching `path`. It fails with `PathNotFound` where the
    /// directory does not exist and with `InitializationFailed` where the
    /// watch could not be installed; a failure changes nothing. A detector
    /// that was installed before is replaced.
    pub fn start_watching(&mut self, path: String, directory_exists: bool, watch_installed: bool) -> (started:
        Result<(), CaptureError>)
        ensures
            !directory_exists ==> started == Err::<(), CaptureError>(CaptureError::PathNotFound)
                && final(self)@ == old(self)@,
            directory_exists && !watch_installed ==> started == Err::<(), CaptureError>(
                CaptureError::InitializationFailed,
            ) && final(self)@ == old(self)@,
            directory_exists && watch_installed ==> started is Ok && final(self)@
                == after_watching(old(self)@, path@),
            consistent(final(self)@),
    {
        proof {
            use_type_invariant(&*self);
        }
        let mut detector = GameDetector::new(path);
        match detector.start_watching(directory_exists, watch_installed) {
            Ok(_) => {
                self.game_detector = Some(detector);
                Ok(())
            },
            Err(e) => Err(e),
        }
    }

    /// Stops watching. Stopping while nothing is watched changes nothing.
    pub fn stop_watching(&mut self)
        ensures
            final(self)@ == after_stop_watching(old(self)@),
            consistent(final(self)@),
    {
        proof {
            use_type_invariant(&*self);
        }
        self.game_detector = None;
    }

    /// The signals for one file system event: those of the detector while the
    /// directory is watched, none otherwise.
    pub fn on_fs_event(&self, kind: FsEventKind, paths: &Vec<String>) -> (signals: Vec<
        ReplaySignal,
    >)
        ensures
            signal_views(signals@) == if self@.watching is Some {
                signals_for(self@.platform, kind, texts(paths@))
            } else {
                Seq::empty()
            },
    {
        proof {
            use_type_invariant(self);
        }
        match &self.game_detector {
            Some(detector) => detector.on_event(self.platform, kind, paths),
            None => {
                let signals: Vec<ReplaySignal> = Vec::new();
                assert(signal_views(signals@) =~= Seq::<SignalView>::empty());
                signals
            },
        }
    }

    /// Takes in the result of a start. Where the backend started the session,
    /// it becomes the capture session of the state, `replay` is tracked, and
    /// observers hear of `output_path`. In any other case, and where a
    /// recording runs already, nothing changes and nothing is said.
    pub fn settle_start(
        &mut self,
        recorder: R,
        started: &Result<(), CaptureError>,
        output_path: &str,
        replay: Option<&str>,
    ) -> (notifications: Vec<Notification>)
        ensures
            ({
                let taken = started is Ok && recorder.active() && old(self)@.recording is None;
                &&& final(self)@ == if taken {
                    after_started(old(self)@, recorder.session(), text_of(replay))
                } else {
                    old(self)@
                }
                &&& notes(notifications@) == if taken {
                    seq![NotificationView::RecordingStarted(output_path@)]
                } else {
                    Seq::empty()
                }
            }),
            consistent(final(self)@),
    {
        proof {
            use_type_invariant(&*self);
        }
        let mut notifications: Vec<Notification> = Vec::new();
        if started.is_ok() && recorder.is_recording() && self.recorder.is_none() {
            self.recorder = Some(recorder);
            self.current_recording_file = match replay {
                Some(path) => Some(path.to_owned()),
                None => None,
            };
            notifications.push(Notification::RecordingStarted(output_path.to_owned()));
            assert(notes(notifications@) =~= seq![
                NotificationView::RecordingStarted(output_path@),
            ]);
        } else {
            assert(notes(notifications@) =~= Seq::<NotificationView>::empty());
        }
        notifications
    }

    /// Reacts to a new replay at `path`.
    ///
    /// The replay is remembered as the last one detected, and observers hear
    /// of it. Where recordings start by themselves and none runs, `recorder`
    /// is started on the video path of the replay, with the quality and the
    /// target of the settings. If it starts, the replay is tracked and
    /// observers hear of the recording; if it fails, the state is as if no
    /// start had been tried.
    pub fn on_replay_created(&mut self, path: &str, recorder: R) -> (notifications: Vec<
        Notification,
    >)
        ensures
            ({
                let detected = NotificationView::ReplayDetected(path@);
                let output = video_path(
                    old(self)@.platform,
                    old(self)@.settings.recording_dir,
                    path@,
                );
                let started = NotificationView::RecordingStarted(output);
                ||| {
                    &&& final(self)@ == after_replay_created(old(self)@, path@, true)
                    &&& starts_recording(old(self)@)
                    &&& !recorder.active()
                    &&& notes(notifications@) == seq![detected, started]
                }
                ||| {
                    &&& final(self)@ == after_replay_created(old(self)@, path@, false)
                    &&& notes(notifications@) == seq![detected]
                }
            }),
            !starts_recording(old(self)@) || recorder.active() ==> final(self)@ == after_detected(
                old(self)@,
                path@,
            ) && notes(notifications@) == seq![NotificationView::ReplayDetected(path@)],
            R::starts_when_idle() && starts_recording(old(self)@) && !recorder.active()
                ==> final(self)@ == after_replay_created(old(self)@, path@, true) && notes(
                notifications@,
            ).len() == 2,
            consistent(final(self)@),
    {
        proof {
            use_type_invariant(&*self);
        }
        let mut notifications: Vec<Notification> = Vec::new();
        self.last_replay_path = Some(path.to_owned());
        notifications.push(Notification::ReplayDetected(path.to_owned()));
        assert(notes(notifications@) =~= seq![NotificationView::ReplayDetected(path@)]);
        if !self.settings.auto_start || self.recorder.is_some() {
            return notifications;
        }
        let output = video_path_for(self.platform, self.settings.recording_dir.as_str(), path);
        let target = TargetSelection::from_identifier(
            match &self.settings.target {
                Some(t) => Some(t.as_str()),
                None => None,
            },
        );
        let mut recorder = recorder;
        let ghost idle = !recorder.active();
        let started = recorder.start_recording(output.as_str(), self.settings.quality, &target);
        let mut more = self.settle_start(recorder, &started, output.as_str(), Some(path));
        proof {
            if started is Ok && idle {
                assert(self@ =~= after_replay_created(old(self)@, path@, true));
                let all = notifications@ + more@;
                assert(notes(more@).len() == 1);
                assert(notes(more@)[0] == more@[0]@);
                assert(notes(notifications@)[0] == notifications@[0]@);
                assert(all[0] == notifications@[0]);
                assert(all[1] == more@[0]);
                assert(notes(notifications@ + more@) =~= seq![
                    NotificationView::ReplayDetected(path@),
                    NotificationView::RecordingStarted(output@),
                ]);
            } else {
                assert(notes(more@) =~= Seq::<NotificationView>::empty());
                assert(more@ =~= Seq::<Notification>::empty());
                assert(notes(notifications@ + more@) =~= seq![
                    NotificationView::ReplayDetected(path@),
                ]);
            }
        }
        notifications.append(&mut more);
        notifications
    }

    /// Reacts to a write to the replay at `path`, seen at `instant`.
    ///
    /// A write to the tracked replay is remembered and schedules a stop of the
    /// recording after the settling time. A write to any other file is
    /// ignored.
    pub fn on_replay_modified(&mut self, path: &str, instant: u64) -> (scheduled: Option<
        DeferredStop,
    >)
        ensures
            final(self)@ == after_replay_modified(old(self)@, path@, instant),
            match scheduled {
                Some(stop) => schedules_stop(old(self)@, path@) && stop.path@ == path@
                    && stop.delay_seconds == SETTLE_SECONDS,
                None => !schedules_stop(old(self)@, path@),
            },
            consistent(final(self)@),
    {
        proof {
            use_type_invariant(&*self);
        }
        let is_current = match &self.current_recording_file {
            Some(current) => same_text(current.as_str(), path),
            None => false,
        };
        if is_current {
            self.last_file_modification = Some(instant);
            Some(DeferredStop { path: path.to_owned(), delay_seconds: SETTLE_SECONDS })
        } else {
            None
        }
    }

    /// Takes the capture session out of the state, so that it can be stopped
    /// while the state is free for others. Without a recording this fails
    /// with `NotActive` and changes nothing. With one, nothing records and
    /// nothing is tracked afterwards, and the session that ran is handed out,
    /// still active.
    pub fn take_session(&mut self) -> (taken: Result<R, CaptureError>)
        ensures
            final(self)@ == after_stop_command(old(self)@),
            match taken {
                Ok(recorder) => recorder.active() && old(self)@.recording == Some(
                    recorder.session(),
                ),
                Err(e) => old(self)@.recording is None && e == CaptureError::NotActive,
            },
            consistent(final(self)@),
    {
        proof {
            use_type_invariant(&*self);
        }
        if self.recorder.is_none() {
            return Err(CaptureError::NotActive);
        }
        self.last_file_modification = None;
        self.current_recording_file = None;
        let mut slot: Option<R> = None;
        std::mem::swap(&mut self.recorder, &mut slot);
        Ok(slot.unwrap())
    }

    /// Takes the capture session out of the state for a deferred stop, if
    /// the replay of the deferred stop is still the tracked one. A stop that
    /// comes too late, after its recording has ended, takes nothing and
    /// changes nothing.
    pub fn take_for_deferred_stop(&mut self, stop: &DeferredStop) -> (taken: Option<R>)
        ensures
            final(self)@ == after_deferred_stop(old(self)@, stop.path@),
            match taken {
                Some(recorder) => schedules_stop(old(self)@, stop.path@) && recorder.active()
                    && old(self)@.recording == Some(recorder.session()),
                None => !schedules_stop(old(self)@, stop.path@),
            },
            consistent(final(self)@),
    {
        proof {
            use_type_invariant(&*self);
        }
        let is_current = match &self.current_recording_file {
            Some(current) => same_text(current.as_str(), stop.path.as_str()),
            None => false,
        };
        if is_current {
            match self.take_session() {
                Ok(recorder) => Some(recorder),
                Err(_) => None,
            }
        } else {
            None
        }
    }

    /// The stop sequence. Without a recording it fails with `NotActive` and
    /// changes nothing. With one, the session is stopped and, whatever the
    /// backend answers, nothing records and nothing is tracked afterwards.
    /// Observers hear of the output path where the backend finished the file.
    pub fn stop_recording(&mut self) -> (stopped: (Result<String, CaptureError>, Vec<Notification>))
        ensures
            final(self)@ == after_stop_command(old(self)@),
            old(self)@.recording is None ==> stopped.0 == Err::<String, CaptureError>(
                CaptureError::NotActive,
            ),
            old(self)@.recording is Some ==> match stopped.0 {
                Ok(path) => path@ == old(self)@.recording.unwrap().output,
                Err(e) => e == CaptureError::InitializationFailed,
            },
            R::stops_when_active() && old(self)@.recording is Some ==> stopped.0 is Ok,
            notes(stopped.1@) == stop_notes(stopped.0),
            consistent(final(self)@),
    {
        let outcome = match self.take_session() {
            Ok(recorder) => {
                let mut recorder = recorder;
                recorder.stop_recording()
            },
            Err(e) => Err(e),
        };
        let notifications = stop_notifications(&outcome);
        (outcome, notifications)
    }

    /// Runs a deferred stop. The recording is stopped if the replay of the
    /// deferred stop is still the tracked one; a failure of the backend is
    /// absorbed. A stop that comes too late, after its recording has ended,
    /// does nothing.
    pub fn run_deferred_stop(&mut self, stop: &DeferredStop) -> (notifications: Vec<Notification>)
        ensures
            final(self)@ == after_deferred_stop(old(self)@, stop.path@),
            !schedules_stop(old(self)@, stop.path@) ==> notes(notifications@) == Seq::<
                NotificationView,
            >::empty(),
            schedules_stop(old(self)@, stop.path@) ==> notes(notifications@) == Seq::<
                NotificationView,
            >::empty() || notes(notifications@) == seq![
                NotificationView::RecordingStopped(old(self)@.recording.unwrap().output),
            ],
            R::stops_when_active() && schedules_stop(old(self)@, stop.path@) ==> notes(
                notifications@,
            ).len() == 1,
            consistent(final(self)@),
    {
        match self.take_for_deferred_stop(stop) {
            Some(recorder) => {
                let mut recorder = recorder;
                let outcome = recorder.stop_recording();
                stop_notifications(&outcome)
            },
            None => {
                let notifications: Vec<Notification> = Vec::new();
                assert(notes(notifications@) =~= Seq::<NotificationView>::empty());
                notifications
            },
        }
    }

    /// The start command. A running recording is never replaced: with one,
    /// the command fails with `AlreadyActive` and changes nothing. Without
    /// one, `recorder` is started on `output_path` with the quality and the
    /// target of the settings, whether or not recordings start by themselves;
    /// `replay` is tracked if the caller names one. A failure of the backend
    /// is handed on and changes nothing.
    pub fn start_recording(
        &mut self,
        output_path: &str,
        replay: Option<&str>,
        recorder: R,
    ) -> (started: (Result<(), CaptureError>, Vec<Notification>))
        ensures
            (started.0 == Err::<(), CaptureError>(CaptureError::AlreadyActive)) == (old(
                self,
            )@.recording is Some || recorder.active()),
            started.0 matches Err(e) ==> e == CaptureError::AlreadyActive || e
                == CaptureError::TargetNotFound || e == CaptureError::InitializationFailed,
            R::starts_when_idle() && old(self)@.recording is None && !recorder.active()
                ==> started.0 is Ok,
            match started.0 {
                Ok(_) => {
                    &&& old(self)@.recording is None
                    &&& !recorder.active()
                    &&& final(self)@ == after_start_command(
                        old(self)@,
                        output_path@,
                        text_of(replay),
                        true,
                    )
                    &&& notes(started.1@) == seq![NotificationView::RecordingStarted(output_path@)]
                },
                Err(_) => {
                    &&& final(self)@ == old(self)@
                    &&& notes(started.1@) == Seq::<NotificationView>::empty()
                },
            },
            consistent(final(self)@),
    {
        proof {
            use_type_invariant(&*self);
        }
        if self.recorder.is_some() {
            let notifications: Vec<Notification> = Vec::new();
            assert(notes(notifications@) =~= Seq::<NotificationView>::empty());
            return (Err(CaptureError::AlreadyActive), notifications);
        }
        let target = TargetSelection::from_identifier(
            match &self.settings.target {
                Some(t) => Some(t.as_str()),
                None => None,
            },
        );
        let mut recorder = recorder;
        let started = recorder.start_recording(output_path, self.settings.quality, &target);
        let notifications = self.settle_start(recorder, &started, output_path, replay);
        (started, notifications)
    }

    /// Shuts the engine down: watching stops, and a recording that still runs
    /// is stopped as well as the backend can. Observers hear of the output
    /// path where the backend finished the file of a recording that ran, and
    /// of nothing else.
    pub fn shutdown(&mut self) -> (notifications: Vec<Notification>)
        ensures
            final(self)@ == after_stop_command(after_stop_watching(old(self)@)),
            final(self)@.watching is None,
            final(self)@.recording is None,
            old(self)@.recording is None ==> notes(notifications@) == Seq::<
                NotificationView,
            >::empty(),
            old(self)@.recording is Some ==> notes(notifications@) == Seq::<
                NotificationView,
            >::empty() || notes(notifications@) == seq![
                NotificationView::RecordingStopped(old(self)@.recording.unwrap().output),
            ],
            R::stops_when_active() && old(self)@.recording is Some ==> notes(
                notifications@,
            ).len() == 1,
            consistent(final(self)@),
    {
        self.stop_watching();
        let (_, notifications) = self.stop_recording();
        notifications
    }
}

} // verus!
