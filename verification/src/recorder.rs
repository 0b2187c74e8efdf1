//! The capture session: what every recording backend offers.

use crate::error::CaptureError;
use crate::mock::MockRecorder;
use crate::quality::RecordingQuality;
use crate::target::{TargetSelection, TargetSelectionView};
use vstd::prelude::*;

verus! {

/// A capture session as plain values: what records, into which file, and how
/// well.
pub struct SessionView {
    /// The file that the session writes.
    pub output: Seq<char>,
    /// The quality tier, whose bitrate the encoder is given unchanged.
    pub quality: RecordingQuality,
    /// The target that the session was asked to record.
    pub target: TargetSelectionView,
}

/// A backend that records one capture session at a time.
///
/// A backend is idle or active. While it is active it owns every native
/// resource of the session and writes to one output file.
///
/// The specification functions are the model that the contracts of the
/// methods speak of; they are never run. A backend that is written outside
/// verified code promises to behave as the contracts say.
pub trait Recorder {
    /// Whether a session is running.
    spec fn active(&self) -> bool;

    /// The session that runs, meaningful while one does.
    spec fn session(&self) -> SessionView;

    /// Whether a backend of this kind starts whenever it is idle. A backend
    /// that depends on the desktop says no.
    spec fn starts_when_idle() -> bool;

    /// Whether a backend of this kind finishes its file whenever it is
    /// stopped while active. A backend that depends on an encoder says no.
    spec fn stops_when_active() -> bool;

    /// Starts a session that records `target` into `output_path` at the
    /// bitrate of `quality`.
    ///
    /// A second start without a stop in between fails with `AlreadyActive`
    /// and leaves the running session alone. A start of an idle backend fails
    /// with `TargetNotFound` where no window or display answers to `target`,
    /// and with `InitializationFailed` where a resource cannot be set up;
    /// either failure leaves the backend idle.
    fn start_recording(
        &mut self,
        output_path: &str,
        quality: RecordingQuality,
        target: &TargetSelection,
    ) -> (started: Result<(), CaptureError>)
        ensures
            old(self).active() ==> started == Err::<(), CaptureError>(CaptureError::AlreadyActive)
                && final(self).active() && final(self).session() == old(self).session(),
            !old(self).active() ==> match started {
                Ok(_) => final(self).active() && final(self).session() == (SessionView {
                    output: output_path@,
                    quality,
                    target: target@,
                }),
                Err(e) => !final(self).active() && (e == CaptureError::TargetNotFound || e
                    == CaptureError::InitializationFailed),
            },
            !old(self).active() && Self::starts_when_idle() ==> started is Ok,
    ;

    /// Stops the session, finishes the output file and releases every
    /// resource. Whatever the result, the backend is idle afterwards. An idle
    /// backend answers `NotActive`; an active one answers the path of the
    /// file, or `InitializationFailed` where the file could not be finished.
    fn stop_recording(&mut self) -> (stopped: Result<String, CaptureError>)
        ensures
            !final(self).active(),
            !old(self).active() ==> stopped == Err::<String, CaptureError>(
                CaptureError::NotActive,
            ),
            old(self).active() ==> match stopped {
                Ok(path) => path@ == old(self).session().output,
                Err(e) => e == CaptureError::InitializationFailed,
            },
            old(self).active() && Self::stops_when_active() ==> stopped is Ok,
    ;

    /// Whether a session is running. Does not block.
    fn is_recording(&self) -> (recording: bool)
        ensures
            recording == self.active(),
    ;
}

/// The backend that this library provides on its own: the mock recorder, which
/// follows the protocol of a capture session without touching the screen.
pub fn get_recorder() -> (recorder: MockRecorder)
    ensures
        !recorder.active(),
{
    MockRecorder::new()
}

} // verus!
