//! What a capture backend records about each buffer that it delivers.

use crate::rebinding::BindingKind;
use crate::timestamp::CMTimeLike;
use vstd::prelude::*;

verus! {

#[derive(Debug, Clone, Copy, PartialEq, Eq, Structural)]
pub struct CapturedFrameRecord {
    pub stream: BindingKind,
    /// Per-buffer sequence, counting up from zero within a stream.
    pub packet_seq: u64,
    /// Host-clock timestamp in nanoseconds.
    pub capture_time_ns: u64,
    /// Cumulative sample count since the start of the stream, counted up locally.
    pub device_position_frames: u64,
    pub frame_count: u32,
    pub discontinuity: bool,
    pub silent: bool,
    /// Always `false`: this backend reports no timestamp errors.
    pub timestamp_error: bool,
    /// Capture generation, counting up whenever the stream is bound anew.
    pub capture_epoch: u64,
    /// Only set for process loopback.
    pub target_pid: Option<u32>,
}

impl CapturedFrameRecord {
    pub fn from_raw(
        stream: BindingKind,
        packet_seq: u64,
        capture_time_ns: u64,
        device_position_frames: u64,
        frame_count: u32,
        discontinuity: bool,
        silent: bool,
        capture_epoch: u64,
        target_pid: Option<u32>,
    ) -> (record: Self)
        ensures
            record == (CapturedFrameRecord {
                stream,
                packet_seq,
                capture_time_ns,
                device_position_frames,
                frame_count,
                discontinuity,
                silent,
                timestamp_error: false,
                capture_epoch,
                target_pid,
            }),
    {
        CapturedFrameRecord {
            stream,
            packet_seq,
            capture_time_ns,
            device_position_frames,
            frame_count,
            discontinuity,
            silent,
            timestamp_error: false,
            capture_epoch,
            target_pid,
        }
    }
}

/// The number of frames in a buffer that holds `sample_count` samples over all
/// channels; an empty buffer counts as one frame.
pub open spec fn frames_in_buffer(sample_count: u32, channels: u16) -> int {
    let per_channel = sample_count as int / if channels >= 1 {
        channels as int
    } else {
        1
    };
    if per_channel >= 1 {
        per_channel
    } else {
        1
    }
}

/// Numbers the buffers of one stream and keeps its position.
#[derive(Debug, Clone, Copy, PartialEq, Eq, Structural)]
pub struct FrameStamper {
    pub binding: BindingKind,
    pub channels: u16,
    pub capture_epoch: u64,
    /// The sequence number of the next buffer.
    pub packet_seq: u64,
    /// The position of the next buffer.
    pub device_position_frames: u64,
}

/// What a stamper records of a buffer.
pub open spec fn stamped(
    stamper: FrameStamper,
    sample_count: u32,
    time: CMTimeLike,
) -> CapturedFrameRecord {
    CapturedFrameRecord {
        stream: stamper.binding,
        packet_seq: stamper.packet_seq,
        capture_time_ns: if crate::timestamp::is_countable(time) {
            crate::timestamp::nanoseconds(time) as u64
        } else {
            0
        },
        device_position_frames: stamper.device_position_frames,
        frame_count: frames_in_buffer(sample_count, stamper.channels) as u32,
        discontinuity: false,
        silent: false,
        timestamp_error: false,
        capture_epoch: stamper.capture_epoch,
        target_pid: None,
    }
}

/// A counter that has gone on by some steps. After the largest number it starts again
/// from zero.
pub open spec fn counted_on(counter: u64, by: int) -> u64 {
    if counter + by <= u64::MAX {
        (counter + by) as u64
    } else {
        (counter + by - u64::MAX - 1) as u64
    }
}

/// A stamper after a buffer.
pub open spec fn moved_on(stamper: FrameStamper, sample_count: u32) -> FrameStamper {
    FrameStamper {
        packet_seq: counted_on(stamper.packet_seq, 1),
        device_position_frames: counted_on(
            stamper.device_position_frames,
            frames_in_buffer(sample_count, stamper.channels),
        ),
        ..stamper
    }
}

impl FrameStamper {
    pub fn new(binding: BindingKind, channels: u16, capture_epoch: u64) -> (stamper: Self)
        ensures
            stamper == (FrameStamper {
                binding,
                channels,
                capture_epoch,
                packet_seq: 0,
                device_position_frames: 0,
            }),
    {
        FrameStamper { binding, channels, capture_epoch, packet_seq: 0, device_position_frames: 0 }
    }

    /// The record for a buffer of `sample_count` samples whose timestamp is `time`. A
    /// malformed timestamp is recorded as zero.
    pub fn stamp(&mut self, sample_count: u32, time: CMTimeLike) -> (record: CapturedFrameRecord)
        ensures
            record == stamped(*old(self), sample_count, time),
            *final(self) == moved_on(*old(self), sample_count),
    {
        let capture_time_ns: u64 = match crate::timestamp::cmtime_to_ns(time) {
            Some(ns) => ns,
            None => 0,
        };
        let channels: u32 = if self.channels >= 1 {
            self.channels as u32
        } else {
            1
        };
        let per_channel: u32 = sample_count / channels;
        let frame_count: u32 = if per_channel >= 1 {
            per_channel
        } else {
            1
        };
        let packet_seq: u64 = self.packet_seq;
        let position: u64 = self.device_position_frames;
        self.packet_seq = packet_seq.wrapping_add(1);
        self.device_position_frames = position.wrapping_add(frame_count as u64);
        CapturedFrameRecord::from_raw(
            self.binding,
            packet_seq,
            capture_time_ns,
            position,
            frame_count,
            false,
            false,
            self.capture_epoch,
            None,
        )
    }
}

/// Buffers follow each other without a gap, as long as the counters do not start again:
/// each one starts where the one before it ended, and has the next number.
pub proof fn law_positions_are_contiguous(
    stamper: FrameStamper,
    first_count: u32,
    first_time: CMTimeLike,
    second_count: u32,
    second_time: CMTimeLike,
)
    requires
        stamper.packet_seq < u64::MAX,
        stamper.device_position_frames + frames_in_buffer(first_count, stamper.channels)
            <= u64::MAX,
    ensures
        ({
            let first = stamped(stamper, first_count, first_time);
            let second = stamped(moved_on(stamper, first_count), second_count, second_time);
            &&& second.device_position_frames == first.device_position_frames + first.frame_count
            &&& second.packet_seq == first.packet_seq + 1
            &&& second.stream == first.stream
            &&& second.capture_epoch == first.capture_epoch
        }),
{
    let channels = if stamper.channels >= 1 {
        stamper.channels as int
    } else {
        1
    };
    vstd::arithmetic::div_mod::lemma_div_is_ordered_by_denominator(first_count as int, 1, channels);
}

/// A buffer has as many frames as each channel has whole samples of, and one at least.
pub proof fn law_a_buffer_has_a_sample_of_every_channel_per_frame(sample_count: u32, channels: u16)
    requires
        channels > 0,
    ensures
        sample_count >= channels ==> frames_in_buffer(sample_count, channels) * channels
            <= sample_count < frames_in_buffer(sample_count, channels) * channels + channels,
        sample_count < channels ==> frames_in_buffer(sample_count, channels) == 1,
        sample_count > 0 ==> frames_in_buffer(sample_count, 0) == sample_count,
{
    let n = sample_count as int;
    let c = channels as int;
    vstd::arithmetic::div_mod::lemma_fundamental_div_mod(n, c);
    assert(c * (n / c) == (n / c) * c) by (nonlinear_arith);
    if n < c {
        vstd::arithmetic::div_mod::lemma_basic_div(n, c);
    } else {
        assert(n / c >= 1) by (nonlinear_arith)
            requires
                n == c * (n / c) + n % c,
                0 <= n % c < c,
                n >= c,
        ;
    }
}

/// A buffer is recorded under the stream and the epoch of its stamper, at the time that the
/// system gave it, and at no time where that one is of no use.
pub proof fn law_a_buffer_is_recorded_at_its_time(
    stamper: FrameStamper,
    sample_count: u32,
    time: CMTimeLike,
)
    ensures
        ({
            let record = stamped(stamper, sample_count, time);
            let ns = record.capture_time_ns;
            &&& record.stream == stamper.binding
            &&& record.capture_epoch == stamper.capture_epoch
            &&& record.packet_seq == stamper.packet_seq
            &&& record.device_position_frames == stamper.device_position_frames
            &&& !record.discontinuity && !record.silent && !record.timestamp_error
            &&& record.target_pid is None
            &&& time.timescale <= 0 || time.value < 0 ==> ns == 0
            &&& time.timescale > 0 && time.value >= 0 ==> ns == 0 || ns * time.timescale
                <= time.value * 1_000_000_000 < ns * time.timescale + time.timescale
            &&& time.timescale > 0 && 0 <= time.value * 1_000_000_000 <= u64::MAX ==> ns
                * time.timescale <= time.value * 1_000_000_000 < ns * time.timescale
                + time.timescale
        }),
{
    if time.timescale > 0 && time.value >= 0 {
        crate::timestamp::law_nanoseconds_are_whole(time);
        let q = crate::timestamp::nanoseconds(time);
        if time.value * 1_000_000_000 <= u64::MAX {
            assert(q <= time.value * 1_000_000_000) by (nonlinear_arith)
                requires
                    q * time.timescale <= time.value * 1_000_000_000,
                    0 <= q * time.timescale,
                    time.timescale >= 1,
            ;
        }
    }
}

/// Counters go up by one for each buffer, and by its frames, until they start again.
pub proof fn law_counters_go_on(counter: u64, by: int)
    requires
        0 <= by <= u64::MAX,
    ensures
        counted_on(counter, by) == counter + by || counted_on(counter, by) == counter + by
            - 0x1_0000_0000_0000_0000,
{
}

} // verus!
