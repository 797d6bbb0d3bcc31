//! The conversion layer between a capture backend and the timeline: sorts delivered
//! frames into the two tracks, with the format and the interval that their stream
//! announced.

use crate::domain::{CapturedFrame, TrackKind};
use crate::frame::CapturedFrameRecord;
use crate::rebinding::BindingKind;
use vstd::prelude::*;

verus! {

/// The track that a binding feeds. Process loopback feeds none.
pub open spec fn track_of(binding: BindingKind) -> Option<TrackKind> {
    match binding {
        BindingKind::Microphone => Some(TrackKind::SelfMic),
        BindingKind::EndpointLoopback => Some(TrackKind::RemoteAudio),
        BindingKind::ProcessLoopback => None,
    }
}

/// The microphone is always the `Self` track, endpoint loopback is always `Remote`;
/// process loopback has no track.
pub fn track_for_binding(binding: BindingKind) -> (track: Option<TrackKind>)
    ensures
        track == track_of(binding),
{
    match binding {
        BindingKind::Microphone => Some(TrackKind::SelfMic),
        BindingKind::EndpointLoopback => Some(TrackKind::RemoteAudio),
        BindingKind::ProcessLoopback => None,
    }
}

/// What the logic needs of a buffer that a backend with a 100 ns performance counter
/// delivers.
#[derive(Debug, Clone, Copy, PartialEq, Eq, Structural)]
pub struct QpcFrameRecord {
    pub stream: BindingKind,
    pub capture_epoch: u64,
    /// The device's own cumulative sample counter.
    pub device_position_frames: u64,
    /// The performance counter, in units of 100 ns.
    pub capture_qpc_100ns: u64,
    pub discontinuity: bool,
}

/// The nanoseconds of a counter in units of 100 ns, up to the largest count.
pub open spec fn qpc_ns(capture_qpc_100ns: u64) -> int {
    if capture_qpc_100ns * 100 > u64::MAX {
        u64::MAX as int
    } else {
        capture_qpc_100ns * 100
    }
}

/// Turns a performance-counter reading into nanoseconds.
pub fn qpc_to_ns(capture_qpc_100ns: u64) -> (ns: u64)
    ensures
        ns == qpc_ns(capture_qpc_100ns),
{
    if capture_qpc_100ns > u64::MAX / 100 {
        u64::MAX
    } else {
        capture_qpc_100ns * 100
    }
}

/// The elapsed time by the device's own count, where the stream has a rate to go by.
/// `device_elapsed_ns` is the position divided by the rate; it is of no use at rate zero.
fn source_time(sample_rate: u32, device_elapsed_ns: u64) -> (ns: Option<u64>)
    ensures
        ns == if sample_rate > 0 {
            Some(device_elapsed_ns)
        } else {
            None
        },
{
    if sample_rate > 0 {
        Some(device_elapsed_ns)
    } else {
        None
    }
}

/// Converts a delivered buffer whose timestamp is in nanoseconds already.
pub fn to_captured_frame<S>(
    track: TrackKind,
    record: &CapturedFrameRecord,
    samples: Vec<S>,
    format: StreamFormat,
    device_elapsed_ns: u64,
) -> (frame: CapturedFrame<S>)
    ensures
        frame == (CapturedFrame {
            track,
            host_time_ns: record.capture_time_ns,
            source_time_ns: if format.sample_rate > 0 {
                Some(device_elapsed_ns)
            } else {
                None
            },
            sample_rate: format.sample_rate,
            channels: format.channels,
            samples,
            discontinuity: record.discontinuity,
        }),
{
    CapturedFrame {
        track,
        host_time_ns: record.capture_time_ns,
        source_time_ns: source_time(format.sample_rate, device_elapsed_ns),
        sample_rate: format.sample_rate,
        channels: format.channels,
        samples,
        discontinuity: record.discontinuity,
    }
}

/// Converts a delivered buffer whose timestamp is a performance-counter reading.
pub fn qpc_to_captured_frame<S>(
    track: TrackKind,
    record: &QpcFrameRecord,
    samples: Vec<S>,
    format: StreamFormat,
    device_elapsed_ns: u64,
) -> (frame: CapturedFrame<S>)
    ensures
        frame == (CapturedFrame {
            track,
            host_time_ns: qpc_ns(record.capture_qpc_100ns) as u64,
            source_time_ns: if format.sample_rate > 0 {
                Some(device_elapsed_ns)
            } else {
                None
            },
            sample_rate: format.sample_rate,
            channels: format.channels,
            samples,
            discontinuity: record.discontinuity,
        }),
{
    CapturedFrame {
        track,
        host_time_ns: qpc_to_ns(record.capture_qpc_100ns),
        source_time_ns: source_time(format.sample_rate, device_elapsed_ns),
        sample_rate: format.sample_rate,
        channels: format.channels,
        samples,
        discontinuity: record.discontinuity,
    }
}

/// The format that a stream announced when it started.
#[derive(Debug, Clone, Copy, PartialEq, Eq, Structural)]
pub struct StreamFormat {
    pub sample_rate: u32,
    pub channels: u16,
}

/// What a stream announced when it started.
#[derive(Debug, Clone, Copy, PartialEq, Eq, Structural)]
pub struct StreamStart {
    pub format: StreamFormat,
    pub nominal_frame_interval_ns: u64,
}

/// Everything collected over a session.
#[derive(Debug, Clone)]
pub struct CollectedFrames<S> {
    pub self_frames: Vec<CapturedFrame<S>>,
    pub remote_frames: Vec<CapturedFrame<S>>,
    /// The interval that each binding's stream announced; zero if it never started.
    pub self_nominal_frame_interval_ns: u64,
    pub remote_nominal_frame_interval_ns: u64,
}

/// Collects the frames of a session.
pub struct FrameCollector<S> {
    pub self_frames: Vec<CapturedFrame<S>>,
    pub remote_frames: Vec<CapturedFrame<S>>,
    pub microphone: Option<StreamStart>,
    pub endpoint_loopback: Option<StreamStart>,
    pub process_loopback: Option<StreamStart>,
}

impl<S> FrameCollector<S> {
    /// What the stream of a binding announced last, if it started at all.
    pub open spec fn started(&self, binding: BindingKind) -> Option<StreamStart> {
        match binding {
            BindingKind::Microphone => self.microphone,
            BindingKind::EndpointLoopback => self.endpoint_loopback,
            BindingKind::ProcessLoopback => self.process_loopback,
        }
    }

    /// The format of a binding's frames. A frame that arrives before its stream has
    /// announced itself counts as 48 kHz mono.
    pub open spec fn format_of(&self, binding: BindingKind) -> StreamFormat {
        match self.started(binding) {
            Some(start) => start.format,
            None => StreamFormat { sample_rate: 48_000, channels: 1 },
        }
    }

    pub open spec fn interval_of(&self, binding: BindingKind) -> u64 {
        match self.started(binding) {
            Some(start) => start.nominal_frame_interval_ns,
            None => 0,
        }
    }

    pub fn new() -> (collector: Self)
        ensures
            collector.self_frames@.len() == 0,
            collector.remote_frames@.len() == 0,
            forall|binding: BindingKind| collector.started(binding) is None,
    {
        FrameCollector {
            self_frames: Vec::new(),
            remote_frames: Vec::new(),
            microphone: None,
            endpoint_loopback: None,
            process_loopback: None,
        }
    }

    /// A stream announced its format and its interval.
    pub fn stream_started(&mut self, binding: BindingKind, start: StreamStart)
        ensures
            final(self).self_frames == old(self).self_frames,
            final(self).remote_frames == old(self).remote_frames,
            final(self).started(binding) == Some(start),
            forall|other: BindingKind|
                other != binding ==> final(self).started(other) == old(self).started(other),
    {
        match binding {
            BindingKind::Microphone => {
                self.microphone = Some(start);
            },
            BindingKind::EndpointLoopback => {
                self.endpoint_loopback = Some(start);
            },
            BindingKind::ProcessLoopback => {
                self.process_loopback = Some(start);
            },
        }
    }

    /// Where a frame of this binding belongs, and in which format its samples are.
    /// `None` for a binding without a track, whose frames are left out.
    pub fn route(&self, binding: BindingKind) -> (route: Option<(TrackKind, StreamFormat)>)
        ensures
            route == match track_of(binding) {
                Some(track) => Some((track, self.format_of(binding))),
                None => None,
            },
    {
        let start: Option<StreamStart> = match binding {
            BindingKind::Microphone => self.microphone,
            BindingKind::EndpointLoopback => self.endpoint_loopback,
            BindingKind::ProcessLoopback => self.process_loopback,
        };
        let format: StreamFormat = match start {
            Some(start) => start.format,
            None => StreamFormat { sample_rate: 48_000, channels: 1 },
        };
        match track_for_binding(binding) {
            Some(track) => Some((track, format)),
            None => None,
        }
    }

    /// Adds a frame to its track.
    pub fn collect(&mut self, frame: CapturedFrame<S>)
        ensures
            frame.track == TrackKind::SelfMic ==> final(self).self_frames@ == old(
                self,
            ).self_frames@.push(frame) && final(self).remote_frames == old(self).remote_frames,
            frame.track == TrackKind::RemoteAudio ==> final(self).remote_frames@ == old(
                self,
            ).remote_frames@.push(frame) && final(self).self_frames == old(self).self_frames,
            forall|binding: BindingKind|
                final(self).started(binding) == old(self).started(binding),
    {
        match frame.track {
            TrackKind::SelfMic => {
                self.self_frames.push(frame);
            },
            TrackKind::RemoteAudio => {
                self.remote_frames.push(frame);
            },
        }
    }

    /// Everything collected.
    pub fn finish(self) -> (collected: CollectedFrames<S>)
        ensures
            collected.self_frames == self.self_frames,
            collected.remote_frames == self.remote_frames,
            collected.self_nominal_frame_interval_ns == self.interval_of(BindingKind::Microphone),
            collected.remote_nominal_frame_interval_ns == self.interval_of(
                BindingKind::EndpointLoopback,
            ),
    {
        let self_interval: u64 = match self.microphone {
            Some(start) => start.nominal_frame_interval_ns,
            None => 0,
        };
        let remote_interval: u64 = match self.endpoint_loopback {
            Some(start) => start.nominal_frame_interval_ns,
            None => 0,
        };
        CollectedFrames {
            self_frames: self.self_frames,
            remote_frames: self.remote_frames,
            self_nominal_frame_interval_ns: self_interval,
            remote_nominal_frame_interval_ns: remote_interval,
        }
    }
}

/// Counts chunks that had to be dropped because their consumer fell behind, and says
/// which of the drops to report: the first at once, then every hundredth, so that a long
/// stall stays visible without flooding the log.
pub struct DropCounter {
    pub drops: u64,
}

impl DropCounter {
    pub fn new() -> (counter: Self)
        ensures
            counter.drops == 0,
    {
        DropCounter { drops: 0 }
    }

    pub fn note_drop(&mut self) -> (report: bool)
        requires
            old(self).drops < u64::MAX,
        ensures
            final(self).drops == old(self).drops + 1,
            report == (final(self).drops == 1 || final(self).drops % 100 == 0),
    {
        self.drops = self.drops + 1;
        self.drops == 1 || self.drops % 100 == 0
    }
}

/// The tracks are kept apart: what the microphone hears is the self track, what an
/// endpoint plays is the remote one, and nothing else feeds either.
pub proof fn law_tracks_are_kept_apart(binding: BindingKind)
    ensures
        track_of(binding) == Some(TrackKind::SelfMic) <==> binding == BindingKind::Microphone,
        track_of(binding) == Some(TrackKind::RemoteAudio) <==> binding
            == BindingKind::EndpointLoopback,
        track_of(binding) is None <==> binding == BindingKind::ProcessLoopback,
{
}

/// Readings of the counter keep their distance: a unit of it is a hundred nanoseconds.
pub proof fn law_a_unit_is_a_hundred_nanoseconds(earlier: u64, later: u64)
    requires
        earlier <= later,
        later * 100 <= u64::MAX,
    ensures
        qpc_ns(later) - qpc_ns(earlier) == (later - earlier) * 100,
        qpc_ns(0) == 0,
{
}

/// Frames are taken to be in the format that their stream announced last, and streams do
/// not mix: what one announces is nothing to the others.
pub proof fn law_frames_have_the_format_of_their_stream<S>(
    before: FrameCollector<S>,
    after: FrameCollector<S>,
    binding: BindingKind,
    other: BindingKind,
    start: StreamStart,
)
    requires
        after.started(binding) == Some(start),
        forall|kind: BindingKind|
            kind != binding ==> #[trigger] after.started(kind) == before.started(kind),
        other != binding,
    ensures
        after.format_of(binding) == start.format,
        after.interval_of(binding) == start.nominal_frame_interval_ns,
        after.format_of(other) == before.format_of(other),
        after.interval_of(other) == before.interval_of(other),
        before.started(other) is None ==> before.format_of(other).sample_rate == 48_000
            && before.format_of(other).channels == 1 && before.interval_of(other) == 0,
{
    assert(after.started(other) == before.started(other));
}

} // verus!
