//! Quality tiers of a capture session and the bitrate each one encodes at.

use vstd::prelude::*;

verus! {

/// Quality tier of a recording.
#[derive(Debug, Clone, Copy, PartialEq, Eq, Structural)]
pub enum RecordingQuality {
    Low,
    Medium,
    High,
    Ultra,
}

/// Bits per second that a tier encodes at.
pub open spec fn bitrate_of(quality: RecordingQuality) -> nat {
    match quality {
        RecordingQuality::Low => 5_000_000,
        RecordingQuality::Medium => 10_000_000,
        RecordingQuality::High => 18_000_000,
        RecordingQuality::Ultra => 35_000_000,
    }
}

impl RecordingQuality {
    /// The bitrate in bits per second for this tier; a backend hands it to its
    /// encoder unchanged.
    pub fn bitrate(&self) -> (bits: u32)
        ensures
            bits == bitrate_of(*self),
    {
        match self {
            RecordingQuality::Low => 5_000_000,
            RecordingQuality::Medium => 10_000_000,
            RecordingQuality::High => 18_000_000,
            RecordingQuality::Ultra => 35_000_000,
        }
    }
}

impl Default for RecordingQuality {
    fn default() -> (quality: Self)
        ensures
            quality == RecordingQuality::High,
    {
        RecordingQuality::High
    }
}

} // verus!
