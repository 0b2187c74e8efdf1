//! The game session detector: it turns file system events under the replay
//! directory into the two signals that the recording engine reacts to.

use crate::error::CaptureError;
use crate::paths::{is_replay_file, is_replay_path, Platform};
use vstd::prelude::*;
use vstd::string::*;

verus! {

/// What happened to the paths of a file system event.
#[derive(Debug, Clone, Copy, PartialEq, Eq, Structural)]
pub enum FsEventKind {
    Create,
    Modify,
    Remove,
    Access,
    Other,
}

/// A signal of the detector.
#[derive(Debug)]
pub enum ReplaySignal {
    /// A new replay file appeared: a game has started.
    ReplayCreated(String),
    /// A replay file was written to.
    ReplayModified(String),
}

/// A signal as plain values.
pub enum SignalView {
    ReplayCreated(Seq<char>),
    ReplayModified(Seq<char>),
}

impl View for ReplaySignal {
    type V = SignalView;

    open spec fn view(&self) -> SignalView {
        match self {
            ReplaySignal::ReplayCreated(path) => SignalView::ReplayCreated(path@),
            ReplaySignal::ReplayModified(path) => SignalView::ReplayModified(path@),
        }
    }
}

/// The paths of an event as texts.
pub open spec fn texts(paths: Seq<String>) -> Seq<Seq<char>> {
    paths.map_values(|p: String| p@)
}

/// Signals as plain values.
pub open spec fn signal_views(signals: Seq<ReplaySignal>) -> Seq<SignalView> {
    signals.map_values(|s: ReplaySignal| s@)
}

/// The signals that an event gives rise to: one for each of its paths that
/// names a replay file, in order, where the event creates or modifies; none
/// for any other event.
pub open spec fn signals_for(platform: Platform, kind: FsEventKind, paths: Seq<Seq<char>>) -> Seq<
    SignalView,
> {
    let replays = paths.filter(|p: Seq<char>| is_replay_path(platform, p));
    match kind {
        FsEventKind::Create => replays.map_values(|p: Seq<char>| SignalView::ReplayCreated(p)),
        FsEventKind::Modify => replays.map_values(|p: Seq<char>| SignalView::ReplayModified(p)),
        _ => Seq::empty(),
    }
}

/// Classifies one file system event.
pub fn classify_event(platform: Platform, kind: FsEventKind, paths: &Vec<String>) -> (signals: Vec<
    ReplaySignal,
>)
    ensures
        signal_views(signals@) == signals_for(platform, kind, texts(paths@)),
{
    let mut signals: Vec<ReplaySignal> = Vec::new();
    let creates = match kind {
        FsEventKind::Create => true,
        FsEventKind::Modify => false,
        _ => {
            assert(signal_views(signals@) =~= Seq::<SignalView>::empty());
            return signals;
        },
    };
    let ghost pred = |p: Seq<char>| is_replay_path(platform, p);
    let mut i: usize = 0;
    proof {
        reveal(Seq::filter);
        assert(texts(paths@).subrange(0, 0).filter(pred) =~= Seq::<Seq<char>>::empty());
        assert(signal_views(signals@) =~= signals_for(platform, kind, texts(paths@).subrange(0, 0)));
    }
    while i < paths.len()
        invariant
            i <= paths.len(),
            pred == |p: Seq<char>| is_replay_path(platform, p),
            creates == (kind == FsEventKind::Create),
            kind == FsEventKind::Create || kind == FsEventKind::Modify,
            signal_views(signals@) == signals_for(platform, kind, texts(paths@).subrange(0, i as int)),
        decreases paths.len() - i,
    {
        proof {
            let before = texts(paths@).subrange(0, i as int);
            assert(texts(paths@).subrange(0, i + 1) =~= before.push(paths@[i as int]@));
            before.lemma_filter_push(paths@[i as int]@, pred);
        }
        let ghost old_signals = signals@;
        if is_replay_file(platform, paths[i].as_str()) {
            let path = paths[i].clone();
            if creates {
                signals.push(ReplaySignal::ReplayCreated(path));
            } else {
                signals.push(ReplaySignal::ReplayModified(path));
            }
            proof {
                assert(signal_views(signals@) =~= signal_views(old_signals).push(
                    signals@.last()@,
                ));
            }
        }
        i += 1;
        assert(signal_views(signals@) =~= signals_for(platform, kind, texts(paths@).subrange(0, i as int)));
    }
    assert(texts(paths@).subrange(0, paths@.len() as int) =~= texts(paths@));
    signals
}

/// Watches one replay directory. A detector is idle until it is started and
/// idle again once it is stopped.
pub struct GameDetector {
    slippi_path: String,
    watching: bool,
}

impl GameDetector {
    /// The directory that the detector is for.
    pub closed spec fn directory(&self) -> Seq<char> {
        self.slippi_path@
    }

    /// Whether the detector is watching its directory.
    pub closed spec fn watches(&self) -> bool {
        self.watching
    }

    /// An idle detector for `slippi_path`.
    pub fn new(slippi_path: String) -> (detector: Self)
        ensures
            detector.directory() == slippi_path@,
            !detector.watches(),
    {
        GameDetector { slippi_path, watching: false }
    }

    /// The directory that the detector is for.
    pub fn slippi_path(&self) -> (path: &String)
        ensures
            path@ == self.directory(),
    {
        &self.slippi_path
    }

    /// Whether the detector is watching.
    pub fn is_watching(&self) -> (watching: bool)
        ensures
            watching == self.watches(),
    {
        self.watching
    }

    /// Starts watching. It fails with `PathNotFound` where the directory does
    /// not exist, and with `InitializationFailed` where the recursive watch
    /// could not be installed; a failure leaves the detector as it was.
    pub fn start_watching(&mut self, directory_exists: bool, watch_installed: bool) -> (started:
        Result<(), CaptureError>)
        ensures
            final(self).directory() == old(self).directory(),
            !directory_exists ==> started == Err::<(), CaptureError>(CaptureError::PathNotFound)
                && final(self).watches() == old(self).watches(),
            directory_exists && !watch_installed ==> started == Err::<(), CaptureError>(
                CaptureError::InitializationFailed,
            ) && final(self).watches() == old(self).watches(),
            directory_exists && watch_installed ==> started is Ok && final(self).watches(),
    {
        if !directory_exists {
            return Err(CaptureError::PathNotFound);
        }
        if !watch_installed {
            return Err(CaptureError::InitializationFailed);
        }
        self.watching = true;
        Ok(())
    }

    /// Stops watching. Stopping an idle detector changes nothing.
    pub fn stop_watching(&mut self)
        ensures
            !final(self).watches(),
            final(self).directory() == old(self).directory(),
    {
        self.watching = false;
    }

    /// The signals for one file system event: those of its classification
    /// while the detector watches, none while it is idle.
    pub fn on_event(&self, platform: Platform, kind: FsEventKind, paths: &Vec<String>) -> (signals:
        Vec<ReplaySignal>)
        ensures
            signal_views(signals@) == if self.watches() {
                signals_for(platform, kind, texts(paths@))
            } else {
                Seq::empty()
            },
    {
        if self.watching {
            classify_event(platform, kind, paths)
        } else {
            let signals: Vec<ReplaySignal> = Vec::new();
            assert(signal_views(signals@) =~= Seq::<SignalView>::empty());
            signals
        }
    }
}

} // verus!
