//! The plain values that the recorder's parts hand to each other.

use vstd::prelude::*;

verus! {

/// The two tracks of a recording: the user's own microphone, and what the system plays.
#[derive(Debug, Clone, Copy, PartialEq, Eq, Structural, Hash)]
pub enum TrackKind {
    SelfMic,
    RemoteAudio,
}

/// Identifies one recording session.
#[derive(Debug, Clone, Copy, PartialEq, Eq, Structural, Hash)]
pub struct SessionId(pub u128);

/// One frame of captured audio on its way to the timeline. `S` is the sample type.
#[derive(Debug, Clone, PartialEq)]
pub struct CapturedFrame<S> {
    pub track: TrackKind,
    /// Arrival time on the host's monotonic clock.
    pub host_time_ns: u64,
    /// Elapsed time by the device's own count of samples, for diagnosis only.
    pub source_time_ns: Option<u64>,
    pub sample_rate: u32,
    pub channels: u16,
    /// The samples of all channels, interleaved.
    pub samples: Vec<S>,
    pub discontinuity: bool,
}

/// One word of a transcript. Its times count from the first sample that the provider was
/// given.
#[derive(Debug, PartialEq, Eq)]
pub struct Word {
    pub text: String,
    pub start_ms: Option<u64>,
    pub end_ms: Option<u64>,
    /// Which of several speakers on the track said it, where the provider tells.
    pub speaker: Option<u32>,
}

/// A stretch of transcript, as it is kept.
#[derive(Debug, PartialEq, Eq)]
pub struct TranscriptSegment {
    pub session_id: SessionId,
    pub track: Option<TrackKind>,
    pub speaker: Option<u32>,
    pub text: String,
    pub start_ms: Option<u64>,
    pub end_ms: Option<u64>,
    /// Whether the provider is done with it. Only what is final is read later.
    pub is_final: bool,
    /// Whether it was transcribed after the recording, to fill a gap.
    pub is_retranscribed: bool,
}

/// A stretch of audio that is committed to disk.
#[derive(Debug, PartialEq, Eq)]
pub struct AudioSegment {
    pub session_id: SessionId,
    pub track: TrackKind,
    pub sequence: u64,
    /// Where it begins on the recording's timeline.
    pub timeline_start_ms: u64,
    pub duration_ms: u32,
    pub local_path: String,
}

impl AudioSegment {
    /// Where it ends on the recording's timeline.
    pub open spec fn end_ms(self) -> int {
        self.timeline_start_ms + self.duration_ms
    }
}

} // verus!
