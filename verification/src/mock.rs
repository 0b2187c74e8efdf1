//! A recorder that records nothing: it only keeps the state of a session.

use crate::error::CaptureError;
use crate::quality::RecordingQuality;
use crate::recorder::{Recorder, SessionView};
use crate::target::TargetSelection;
use vstd::prelude::*;
use vstd::string::*;

verus! {

/// A deterministic stand-in for a capture backend.
pub struct MockRecorder {
    is_recording: bool,
    output_path: Option<String>,
    quality: RecordingQuality,
    target: TargetSelection,
}

impl MockRecorder {
    /// Whether the mock counts as recording.
    pub closed spec fn recording(&self) -> bool {
        self.is_recording
    }

    /// The path that the mock hands out when it is stopped: the one it was
    /// last started with, or `unknown.mp4` before its first start.
    pub closed spec fn last_output(&self) -> Seq<char> {
        match self.output_path {
            Some(p) => p@,
            None => "unknown.mp4"@,
        }
    }

    /// The session that the mock was last started with.
    pub closed spec fn last_session(&self) -> SessionView {
        SessionView { output: self.last_output(), quality: self.quality, target: self.target@ }
    }

    /// An idle mock.
    pub fn new() -> (recorder: Self)
        ensures
            !recorder.recording(),
            recorder.last_output() == "unknown.mp4"@,
    {
        MockRecorder {
            is_recording: false,
            output_path: None,
            quality: RecordingQuality::High,
            target: TargetSelection::none(),
        }
    }
}

impl Recorder for MockRecorder {
    open spec fn active(&self) -> bool {
        self.recording()
    }

    open spec fn session(&self) -> SessionView {
        self.last_session()
    }

    open spec fn starts_when_idle() -> bool {
        true
    }

    open spec fn stops_when_active() -> bool {
        true
    }

    /// Starting an idle mock always succeeds.
    fn start_recording(
        &mut self,
        output_path: &str,
        quality: RecordingQuality,
        target: &TargetSelection,
    ) -> (started: Result<(), CaptureError>)
        ensures
            !old(self).recording() ==> started is Ok,
            old(self).recording() ==> *final(self) == *old(self),
    {
        if self.is_recording {
            return Err(CaptureError::AlreadyActive);
        }
        self.is_recording = true;
        self.output_path = Some(output_path.to_owned());
        self.quality = quality;
        self.target = target.clone();
        Ok(())
    }

    /// Stopping an active mock always succeeds; the mock remembers its path.
    fn stop_recording(&mut self) -> (stopped: Result<String, CaptureError>)
        ensures
            old(self).recording() ==> stopped is Ok,
            final(self).last_session() == old(self).last_session(),
    {
        if !self.is_recording {
            return Err(CaptureError::NotActive);
        }
        let output_path = match &self.output_path {
            Some(p) => p.clone(),
            None => "unknown.mp4".to_owned(),
        };
        self.is_recording = false;
        Ok(output_path)
    }

    fn is_recording(&self) -> (recording: bool) {
        self.is_recording
    }
}

impl Default for MockRecorder {
    fn default() -> (recorder: Self)
        ensures
            !recorder.recording(),
            recorder.last_output() == "unknown.mp4"@,
    {
        MockRecorder::new()
    }
}

} // verus!
