//! Aligns a sequence of variably-timed audio packets from one source onto a single
//! continuous timeline anchored to a monotonic host clock, absorbing small clock drift
//! and hiding packet loss and discontinuities.
//!
//! The number of frames that a packet's interval should contain follows from host time
//! alone. Held against the number of frames that were delivered, it tells how far the
//! source's own clock has drifted for that packet: a small deviation is ordinary drift
//! and is smoothed away by resampling, a large one (or a packet flagged as
//! discontinuous) is handled with a hard jump, by padding or truncation.
//!
//! The samples themselves are opaque here. Where a packet is to be resampled, the caller
//! hands in the resampled frames; [`packet_plan`] says when and how many.

use vstd::prelude::*;

verus! {

/// A single arrival of audio from a source. `samples` is mono at the nominal rate.
#[derive(Debug, Clone)]
pub struct AudioPacket<S> {
    /// Arrival time on a monotonic host clock (nanoseconds).
    pub host_time_ns: u64,
    /// The nominal (drift-free) duration that this packet stands for.
    pub nominal_duration_ns: u64,
    /// The samples delivered for this interval.
    pub samples: Vec<S>,
    /// Whether the source flagged this packet as discontinuous. Such a packet is always
    /// handled as a hard jump, however small the deviation.
    pub discontinuity: bool,
}

/// The largest deviation that counts as ordinary drift, as a fraction: one frame in
/// twenty. Deviations at or below it are smoothed, larger ones are hard jumps. Clock
/// drift is a few hundred parts per million at most, so this leaves a wide margin.
pub const MAX_SMOOTH_RATIO_DEVIATION: (u64, u64) = (1, 20);

/// How far a packet's frame count is off: `difference / frames`.
#[derive(Debug, Clone, Copy, PartialEq, Eq, Structural)]
pub struct RatioDeviation {
    pub difference: u64,
    pub frames: u64,
}

#[derive(Debug, Clone, Copy, PartialEq, Eq, Structural)]
pub struct AlignerStats {
    pub packets_processed: u64,
    /// Intervals in which no data arrived at all.
    pub gaps_detected: u64,
    pub discontinuities_seen: u64,
    pub silence_frames_inserted: u64,
    pub resampled_frames: u64,
    /// How often a discontinuity or a large deviation forced a hard jump.
    pub hard_jumps: u64,
    pub max_single_packet_ratio_deviation: RatioDeviation,
}

impl Default for AlignerStats {
    fn default() -> (stats: Self)
        ensures
            stats@ == StatsModel::zero(),
    {
        AlignerStats {
            packets_processed: 0,
            gaps_detected: 0,
            discontinuities_seen: 0,
            silence_frames_inserted: 0,
            resampled_frames: 0,
            hard_jumps: 0,
            max_single_packet_ratio_deviation: RatioDeviation { difference: 0, frames: 1 },
        }
    }
}

/// What is done with the samples of a packet.
#[derive(Debug, Clone, Copy, PartialEq, Eq, Structural)]
pub enum PacketPlan {
    /// The interval is too short for a frame.
    Nothing,
    /// Nothing was delivered: this many frames of silence.
    Silence { frames: usize },
    /// Too much was delivered: its first `frames` frames.
    Truncate { frames: usize },
    /// Too little was delivered: all of it, then this much silence.
    Pad { silence: usize },
    /// Ordinary drift: resampled to this many frames.
    Resample { frames: usize },
}

/// The counters, without a machine limit.
pub struct StatsModel {
    pub packets_processed: int,
    pub gaps_detected: int,
    pub discontinuities_seen: int,
    pub silence_frames_inserted: int,
    pub resampled_frames: int,
    pub hard_jumps: int,
    pub max_deviation: RatioDeviation,
}

impl StatsModel {
    pub open spec fn zero() -> StatsModel {
        StatsModel {
            packets_processed: 0,
            gaps_detected: 0,
            discontinuities_seen: 0,
            silence_frames_inserted: 0,
            resampled_frames: 0,
            hard_jumps: 0,
            max_deviation: RatioDeviation { difference: 0, frames: 1 },
        }
    }

    pub open spec fn fits(self) -> bool {
        &&& self.packets_processed <= u64::MAX
        &&& self.gaps_detected <= u64::MAX
        &&& self.discontinuities_seen <= u64::MAX
        &&& self.silence_frames_inserted <= u64::MAX
        &&& self.resampled_frames <= u64::MAX
        &&& self.hard_jumps <= u64::MAX
    }
}

impl View for AlignerStats {
    type V = StatsModel;

    open spec fn view(&self) -> StatsModel {
        StatsModel {
            packets_processed: self.packets_processed as int,
            gaps_detected: self.gaps_detected as int,
            discontinuities_seen: self.discontinuities_seen as int,
            silence_frames_inserted: self.silence_frames_inserted as int,
            resampled_frames: self.resampled_frames as int,
            hard_jumps: self.hard_jumps as int,
            max_deviation: self.max_single_packet_ratio_deviation,
        }
    }
}

/// The state of an aligner.
#[verifier::ext_equal]
pub struct AlignerModel<S> {
    pub output: Seq<S>,
    /// The end, in host time, of the interval that the output covers.
    pub next_expected_ns: Option<u64>,
    pub stats: StatsModel,
}

/// The number of frames in an interval, rounded to the nearest.
pub open spec fn frames_in(ns: int, rate_hz: int) -> int {
    (ns * rate_hz + 500_000_000) / 1_000_000_000
}

/// `n` frames of silence.
pub open spec fn silent<S>(silence: S, n: int) -> Seq<S> {
    Seq::new(n as nat, |i: int| silence)
}

pub open spec fn difference(a: int, b: int) -> int {
    if a >= b {
        a - b
    } else {
        b - a
    }
}

/// Whether a packet's frame count is off by no more than ordinary drift.
pub open spec fn is_drift(expected: int, actual: int) -> bool {
    difference(expected, actual) * MAX_SMOOTH_RATIO_DEVIATION.1 <= actual
        * MAX_SMOOTH_RATIO_DEVIATION.0
}

/// What is done with the samples of a packet.
pub open spec fn plan(expected: int, actual: int, discontinuity: bool) -> PacketPlan {
    if expected == 0 {
        PacketPlan::Nothing
    } else if actual == 0 {
        PacketPlan::Silence { frames: expected as usize }
    } else if discontinuity || !is_drift(expected, actual) {
        if actual >= expected {
            PacketPlan::Truncate { frames: expected as usize }
        } else {
            PacketPlan::Pad { silence: (expected - actual) as usize }
        }
    } else {
        PacketPlan::Resample { frames: expected as usize }
    }
}

pub open spec fn plan_of<S>(packet: AudioPacket<S>, rate_hz: u32) -> PacketPlan {
    plan(
        frames_in(packet.nominal_duration_ns as int, rate_hz as int),
        packet.samples@.len() as int,
        packet.discontinuity,
    )
}

/// The frames that a packet contributes.
pub open spec fn body<S>(
    plan: PacketPlan,
    samples: Seq<S>,
    resampled: Seq<S>,
    silence: S,
) -> Seq<S> {
    match plan {
        PacketPlan::Nothing => Seq::empty(),
        PacketPlan::Silence { frames } => silent(silence, frames as int),
        PacketPlan::Truncate { frames } => samples.take(frames as int),
        PacketPlan::Pad { silence: pad } => samples + silent(silence, pad as int),
        PacketPlan::Resample { .. } => resampled,
    }
}

/// The frames of silence between the end of the output and the start of a packet.
pub open spec fn gap_before(next_expected_ns: Option<u64>, host_time_ns: u64, rate_hz: int) -> int {
    match next_expected_ns {
        Some(start) => if host_time_ns > start {
            frames_in(host_time_ns - start, rate_hz)
        } else {
            0
        },
        None => 0,
    }
}

/// Whether nothing arrived between the end of the output and the start of a packet.
pub open spec fn is_gap(next_expected_ns: Option<u64>, host_time_ns: u64) -> bool {
    next_expected_ns matches Some(start) && host_time_ns > start
}

/// The larger of two deviations.
pub open spec fn larger_deviation(a: RatioDeviation, b: RatioDeviation) -> RatioDeviation {
    if b.difference * a.frames > a.difference * b.frames {
        b
    } else {
        a
    }
}

pub open spec fn ingest_stats(
    stats: StatsModel,
    gap: bool,
    gap_frames: int,
    expected: int,
    actual: int,
    discontinuity: bool,
) -> StatsModel {
    let plan = plan(expected, actual, discontinuity);
    StatsModel {
        packets_processed: stats.packets_processed + 1,
        gaps_detected: stats.gaps_detected + if gap {
            1int
        } else {
            0int
        },
        discontinuities_seen: stats.discontinuities_seen + if discontinuity {
            1int
        } else {
            0int
        },
        silence_frames_inserted: stats.silence_frames_inserted + gap_frames + match plan {
            PacketPlan::Silence { frames } => frames as int,
            PacketPlan::Pad { silence } => silence as int,
            _ => 0int,
        },
        resampled_frames: stats.resampled_frames + match plan {
            PacketPlan::Resample { frames } => frames as int,
            _ => 0int,
        },
        hard_jumps: stats.hard_jumps + if plan is Truncate || plan is Pad {
            1int
        } else {
            0int
        },
        max_deviation: if expected == 0 || actual == 0 {
            stats.max_deviation
        } else {
            larger_deviation(
                stats.max_deviation,
                RatioDeviation {
                    difference: difference(expected, actual) as u64,
                    frames: actual as u64,
                },
            )
        },
    }
}

/// What a packet does to an aligner.
pub open spec fn ingest_step<S>(
    m: AlignerModel<S>,
    packet: AudioPacket<S>,
    resampled: Seq<S>,
    rate_hz: u32,
    silence: S,
) -> AlignerModel<S> {
    let gap_frames = gap_before(m.next_expected_ns, packet.host_time_ns, rate_hz as int);
    let expected = frames_in(packet.nominal_duration_ns as int, rate_hz as int);
    AlignerModel {
        output: m.output + silent(silence, gap_frames) + body(
            plan_of(packet, rate_hz),
            packet.samples@,
            resampled,
            silence,
        ),
        next_expected_ns: Some((packet.host_time_ns + packet.nominal_duration_ns) as u64),
        stats: ingest_stats(
            m.stats,
            is_gap(m.next_expected_ns, packet.host_time_ns),
            gap_frames,
            expected,
            packet.samples@.len() as int,
            packet.discontinuity,
        ),
    }
}

/// The frames of silence that bring the output up to a point in host time.
pub open spec fn tail_frames(next_expected_ns: Option<u64>, end_ns: u64, rate_hz: int) -> int {
    let start = match next_expected_ns {
        Some(start) => start,
        None => 0,
    };
    if end_ns > start {
        frames_in(end_ns - start, rate_hz)
    } else {
        0
    }
}

pub open spec fn finalize_step<S>(
    m: AlignerModel<S>,
    end_ns: u64,
    rate_hz: u32,
    silence: S,
) -> AlignerModel<S> {
    let frames = tail_frames(m.next_expected_ns, end_ns, rate_hz as int);
    AlignerModel {
        output: m.output + silent(silence, frames),
        next_expected_ns: Some(end_ns),
        stats: StatsModel {
            silence_frames_inserted: m.stats.silence_frames_inserted + frames,
            ..m.stats
        },
    }
}

impl<S> AlignerModel<S> {
    /// Whether the output and the counters fit the machine.
    pub open spec fn fits(self) -> bool {
        self.output.len() <= usize::MAX && self.stats.fits()
    }

    pub open spec fn empty() -> AlignerModel<S> {
        AlignerModel { output: Seq::empty(), next_expected_ns: None, stats: StatsModel::zero() }
    }
}

/// Aligns one source's packet stream onto a continuous timeline at a fixed nominal
/// rate. Packets are fed in arrival order.
pub struct TimelineAligner<S> {
    pub nominal_rate_hz: u32,
    /// The sample that stands for silence.
    pub silence: S,
    pub output: Vec<S>,
    /// The end, in host time, of the interval that the output covers.
    pub next_expected_ns: Option<u64>,
    pub stats: AlignerStats,
}

impl<S> View for TimelineAligner<S> {
    type V = AlignerModel<S>;

    open spec fn view(&self) -> AlignerModel<S> {
        AlignerModel {
            output: self.output@,
            next_expected_ns: self.next_expected_ns,
            stats: self.stats@,
        }
    }
}

proof fn lemma_frame_product(ns: int, rate_hz: int)
    requires
        0 <= ns <= u64::MAX,
        0 <= rate_hz <= u32::MAX,
    ensures
        0 <= ns * rate_hz <= u64::MAX * u32::MAX,
        0 <= frames_in(ns, rate_hz),
{
    assert(0 <= ns * rate_hz <= u64::MAX * u32::MAX) by (nonlinear_arith)
        requires
            0 <= ns <= u64::MAX,
            0 <= rate_hz <= u32::MAX,
    ;
}

/// The number of frames in an interval, rounded to the nearest.
fn ns_to_frames_round(ns: u64, rate_hz: u32) -> (frames: usize)
    requires
        frames_in(ns as int, rate_hz as int) <= usize::MAX,
    ensures
        frames == frames_in(ns as int, rate_hz as int),
{
    proof {
        lemma_frame_product(ns as int, rate_hz as int);
    }
    let product: u128 = ns as u128 * rate_hz as u128;
    ((product + 500_000_000) / 1_000_000_000) as usize
}

/// What is to be done with the samples of a packet at this rate. It depends on the
/// packet alone, so that resampled frames can be prepared before the packet is fed in.
pub fn packet_plan<S>(packet: &AudioPacket<S>, rate_hz: u32) -> (result: PacketPlan)
    requires
        frames_in(packet.nominal_duration_ns as int, rate_hz as int) <= usize::MAX,
    ensures
        result == plan_of(*packet, rate_hz),
{
    let expected: usize = ns_to_frames_round(packet.nominal_duration_ns, rate_hz);
    let actual: usize = packet.samples.len();
    if expected == 0 {
        PacketPlan::Nothing
    } else if actual == 0 {
        PacketPlan::Silence { frames: expected }
    } else {
        let off: usize = if expected >= actual {
            expected - actual
        } else {
            actual - expected
        };
        let smooth: (u64, u64) = MAX_SMOOTH_RATIO_DEVIATION;
        proof {
            assert(actual * smooth.0 <= u64::MAX * u64::MAX && off * smooth.1 <= u64::MAX
                * u64::MAX) by (nonlinear_arith)
                requires
                    0 <= actual <= u64::MAX,
                    0 <= off <= u64::MAX,
                    0 <= smooth.0 <= u64::MAX,
                    0 <= smooth.1 <= u64::MAX,
            ;
        }
        let drift: bool = off as u128 * smooth.1 as u128 <= actual as u128 * smooth.0 as u128;
        if packet.discontinuity || !drift {
            if actual >= expected {
                PacketPlan::Truncate { frames: expected }
            } else {
                PacketPlan::Pad { silence: expected - actual }
            }
        } else {
            PacketPlan::Resample { frames: expected }
        }
    }
}

impl<S: Copy> TimelineAligner<S> {
    pub fn new(nominal_rate_hz: u32, silence: S) -> (aligner: Self)
        ensures
            aligner@ == AlignerModel::<S>::empty(),
            aligner.nominal_rate_hz == nominal_rate_hz,
            aligner.silence == silence,
    {
        let aligner = TimelineAligner {
            nominal_rate_hz,
            silence,
            output: Vec::new(),
            next_expected_ns: None,
            stats: AlignerStats::default(),
        };
        assert(aligner@ =~= AlignerModel::<S>::empty());
        aligner
    }

    pub fn stats(&self) -> (stats: AlignerStats)
        ensures
            stats == self.stats,
    {
        self.stats
    }

    pub fn output(&self) -> (output: &[S])
        ensures
            output@ == self@.output,
    {
        self.output.as_slice()
    }

    pub fn into_output(self) -> (output: Vec<S>)
        ensures
            output@ == self@.output,
    {
        self.output
    }

    fn push_silence(&mut self, frames: usize)
        requires
            old(self).output@.len() + frames <= usize::MAX,
        ensures
            final(self).output@ == old(self).output@ + silent(old(self).silence, frames as int),
            final(self).nominal_rate_hz == old(self).nominal_rate_hz,
            final(self).silence == old(self).silence,
            final(self).next_expected_ns == old(self).next_expected_ns,
            final(self).stats == old(self).stats,
    {
        let mut i: usize = 0;
        assert(self.output@ =~= old(self).output@ + silent(old(self).silence, 0));
        while i < frames
            invariant
                i <= frames,
                self.output@ == old(self).output@ + silent(old(self).silence, i as int),
                self.nominal_rate_hz == old(self).nominal_rate_hz,
                self.silence == old(self).silence,
                self.next_expected_ns == old(self).next_expected_ns,
                self.stats == old(self).stats,
            decreases frames - i,
        {
            self.output.push(self.silence);
            assert(self.output@ =~= old(self).output@ + silent(old(self).silence, i + 1));
            i = i + 1;
        }
    }

    fn push_frames(&mut self, samples: &[S], frames: usize)
        requires
            frames <= samples@.len(),
        ensures
            final(self).output@ == old(self).output@ + samples@.take(frames as int),
            final(self).nominal_rate_hz == old(self).nominal_rate_hz,
            final(self).silence == old(self).silence,
            final(self).next_expected_ns == old(self).next_expected_ns,
            final(self).stats == old(self).stats,
    {
        let mut i: usize = 0;
        assert(self.output@ =~= old(self).output@ + samples@.take(0));
        while i < frames
            invariant
                i <= frames,
                frames <= samples@.len(),
                self.output@ == old(self).output@ + samples@.take(i as int),
                self.nominal_rate_hz == old(self).nominal_rate_hz,
                self.silence == old(self).silence,
                self.next_expected_ns == old(self).next_expected_ns,
                self.stats == old(self).stats,
            decreases frames - i,
        {
            self.output.push(samples[i]);
            assert(self.output@ =~= old(self).output@ + samples@.take(i + 1));
            i = i + 1;
        }
    }

    /// Feeds in a packet. `resampled` holds its samples resampled to the number of
    /// frames that [`packet_plan`] asks for, and is not looked at where it asks for
    /// none.
    pub fn ingest(&mut self, packet: &AudioPacket<S>, resampled: &[S])
        requires
            plan_of(*packet, old(self).nominal_rate_hz) matches PacketPlan::Resample { frames }
                ==> resampled@.len() == frames,
            frames_in(packet.nominal_duration_ns as int, old(self).nominal_rate_hz as int)
                <= usize::MAX,
            packet.host_time_ns + packet.nominal_duration_ns <= u64::MAX,
            old(self)@.stats.max_deviation.frames > 0,
            ingest_step(
                old(self)@,
                *packet,
                resampled@,
                old(self).nominal_rate_hz,
                old(self).silence,
            ).fits(),
        ensures
            final(self)@ == ingest_step(
                old(self)@,
                *packet,
                resampled@,
                old(self).nominal_rate_hz,
                old(self).silence,
            ),
            final(self).nominal_rate_hz == old(self).nominal_rate_hz,
            final(self).silence == old(self).silence,
            final(self)@.stats.max_deviation.frames > 0,
    {
        let ghost goal = ingest_step(
            self@,
            *packet,
            resampled@,
            self.nominal_rate_hz,
            self.silence,
        );
        let ghost gap = gap_before(
            self.next_expected_ns,
            packet.host_time_ns,
            self.nominal_rate_hz as int,
        );
        let ghost start_output = self.output@;
        let plan: PacketPlan = packet_plan(packet, self.nominal_rate_hz);
        let expected: usize = ns_to_frames_round(packet.nominal_duration_ns, self.nominal_rate_hz);
        let actual: usize = packet.samples.len();
        proof {
            lemma_frame_product(packet.nominal_duration_ns as int, self.nominal_rate_hz as int);
            if self.next_expected_ns is Some && packet.host_time_ns > self.next_expected_ns->0 {
                lemma_frame_product(
                    packet.host_time_ns - self.next_expected_ns->0,
                    self.nominal_rate_hz as int,
                );
            }
            assert(gap >= 0);
            assert(goal.output.len() == start_output.len() + gap + body(
                plan,
                packet.samples@,
                resampled@,
                self.silence,
            ).len());
        }
        match self.next_expected_ns {
            Some(start_ns) => {
                if packet.host_time_ns > start_ns {
                    // Nothing arrived between the end of the output and this packet.
                    let gap_frames: usize = ns_to_frames_round(
                        packet.host_time_ns - start_ns,
                        self.nominal_rate_hz,
                    );
                    self.push_silence(gap_frames);
                    self.stats.silence_frames_inserted = self.stats.silence_frames_inserted
                        + gap_frames as u64;
                    self.stats.gaps_detected = self.stats.gaps_detected + 1;
                }
            },
            None => {},
        }
        assert(self.output@ =~= start_output + silent(self.silence, gap));
        if expected > 0 && actual > 0 {
            self.note_deviation(expected, actual);
        }
        match plan {
            PacketPlan::Nothing => {
                assert(self.output@ =~= goal.output);
            },
            PacketPlan::Silence { frames } => {
                self.push_silence(frames);
                self.stats.silence_frames_inserted = self.stats.silence_frames_inserted
                    + frames as u64;
            },
            PacketPlan::Truncate { frames } => {
                self.stats.hard_jumps = self.stats.hard_jumps + 1;
                self.push_frames(packet.samples.as_slice(), frames);
            },
            PacketPlan::Pad { silence } => {
                self.stats.hard_jumps = self.stats.hard_jumps + 1;
                self.push_frames(packet.samples.as_slice(), packet.samples.len());
                assert(packet.samples@.take(actual as int) =~= packet.samples@);
                self.push_silence(silence);
                self.stats.silence_frames_inserted = self.stats.silence_frames_inserted
                    + silence as u64;
                assert(self.output@ =~= goal.output);
            },
            PacketPlan::Resample { frames } => {
                self.stats.resampled_frames = self.stats.resampled_frames + frames as u64;
                self.push_frames(resampled, resampled.len());
                assert(resampled@.take(resampled@.len() as int) =~= resampled@);
            },
        }
        if packet.discontinuity {
            self.stats.discontinuities_seen = self.stats.discontinuities_seen + 1;
        }
        self.stats.packets_processed = self.stats.packets_processed + 1;
        self.next_expected_ns = Some(packet.host_time_ns + packet.nominal_duration_ns);
        assert(self@ =~= goal);
    }

    fn note_deviation(&mut self, expected: usize, actual: usize)
        requires
            expected > 0,
            actual > 0,
            old(self).stats.max_single_packet_ratio_deviation.frames > 0,
        ensures
            final(self).output == old(self).output,
            final(self).nominal_rate_hz == old(self).nominal_rate_hz,
            final(self).silence == old(self).silence,
            final(self).next_expected_ns == old(self).next_expected_ns,
            final(self).stats@ == (StatsModel {
                max_deviation: larger_deviation(
                    old(self).stats@.max_deviation,
                    RatioDeviation {
                        difference: difference(expected as int, actual as int) as u64,
                        frames: actual as u64,
                    },
                ),
                ..old(self).stats@
            }),
            final(self).stats.max_single_packet_ratio_deviation.frames > 0,
    {
        let off: usize = if expected >= actual {
            expected - actual
        } else {
            actual - expected
        };
        let deviation = RatioDeviation { difference: off as u64, frames: actual as u64 };
        let largest: RatioDeviation = self.stats.max_single_packet_ratio_deviation;
        proof {
            assert(0 <= deviation.difference * largest.frames <= u64::MAX * u64::MAX)
                by (nonlinear_arith)
                requires
                    0 <= deviation.difference <= u64::MAX,
                    0 <= largest.frames <= u64::MAX,
            ;
            assert(0 <= largest.difference * deviation.frames <= u64::MAX * u64::MAX)
                by (nonlinear_arith)
                requires
                    0 <= largest.difference <= u64::MAX,
                    0 <= deviation.frames <= u64::MAX,
            ;
        }
        if deviation.difference as u128 * largest.frames as u128 > largest.difference as u128
            * deviation.frames as u128 {
            self.stats.max_single_packet_ratio_deviation = deviation;
        }
    }

    /// Pads the output with silence up to `end_ns` on the host clock. Called once at the
    /// end of a session, so that two tracks aligned on their own end up the same length
    /// even if one lost its final packets.
    pub fn finalize_up_to(&mut self, end_ns: u64)
        requires
            finalize_step(
                old(self)@,
                end_ns,
                old(self).nominal_rate_hz,
                old(self).silence,
            ).fits(),
        ensures
            final(self)@ == finalize_step(
                old(self)@,
                end_ns,
                old(self).nominal_rate_hz,
                old(self).silence,
            ),
            final(self).nominal_rate_hz == old(self).nominal_rate_hz,
            final(self).silence == old(self).silence,
    {
        let start_ns: u64 = match self.next_expected_ns {
            Some(start_ns) => start_ns,
            None => 0,
        };
        let ghost goal = finalize_step(self@, end_ns, self.nominal_rate_hz, self.silence);
        if end_ns > start_ns {
            proof {
                lemma_frame_product(end_ns - start_ns, self.nominal_rate_hz as int);
                assert(goal.output.len() == self.output@.len() + tail_frames(
                    self.next_expected_ns,
                    end_ns,
                    self.nominal_rate_hz as int,
                ));
            }
            let frames: usize = ns_to_frames_round(end_ns - start_ns, self.nominal_rate_hz);
            self.push_silence(frames);
            self.stats.silence_frames_inserted = self.stats.silence_frames_inserted + frames as u64;
        }
        self.next_expected_ns = Some(end_ns);
        assert(self@ =~= goal);
    }
}

/// Whether an interval is a whole number of frames long.
pub open spec fn on_grid(ns: int, rate_hz: int) -> bool {
    (ns * rate_hz) % 1_000_000_000 == 0
}

pub proof fn lemma_frames_on_grid(ns: int, rate_hz: int)
    requires
        on_grid(ns, rate_hz),
    ensures
        frames_in(ns, rate_hz) * 1_000_000_000 == ns * rate_hz,
{
    let p = ns * rate_hz;
    assert((p + 500_000_000) / 1_000_000_000 * 1_000_000_000 == p) by (nonlinear_arith)
        requires
            p % 1_000_000_000 == 0,
    ;
}

/// However many samples a packet delivered, it contributes exactly the frames that its
/// nominal duration stands for.
pub proof fn law_packet_contributes_its_duration<S>(
    packet: AudioPacket<S>,
    resampled: Seq<S>,
    rate_hz: u32,
    silence: S,
)
    requires
        frames_in(packet.nominal_duration_ns as int, rate_hz as int) <= usize::MAX,
        plan_of(packet, rate_hz) matches PacketPlan::Resample { frames } ==> resampled.len()
            == frames,
    ensures
        body(plan_of(packet, rate_hz), packet.samples@, resampled, silence).len() == frames_in(
            packet.nominal_duration_ns as int,
            rate_hz as int,
        ),
{
    lemma_frame_product(packet.nominal_duration_ns as int, rate_hz as int);
}

/// Ordinary drift is never cut or padded, and what is flagged as discontinuous is never
/// smoothed.
pub proof fn law_drift_is_smoothed_and_jumps_are_not<S>(packet: AudioPacket<S>, rate_hz: u32)
    requires
        packet.samples@.len() > 0,
        0 < frames_in(packet.nominal_duration_ns as int, rate_hz as int) <= usize::MAX,
    ensures
        plan_of(packet, rate_hz) is Resample <==> !packet.discontinuity && is_drift(
            frames_in(packet.nominal_duration_ns as int, rate_hz as int),
            packet.samples@.len() as int,
        ),
{
}

/// The output keeps pace with host time: a packet that starts at or after the end of the
/// output, on the frame grid, extends it by exactly the frames up to the packet's end,
/// lost time included.
pub proof fn law_output_keeps_pace<S>(
    m: AlignerModel<S>,
    packet: AudioPacket<S>,
    resampled: Seq<S>,
    rate_hz: u32,
    silence: S,
    end_ns: u64,
)
    requires
        m.next_expected_ns == Some(end_ns),
        end_ns <= packet.host_time_ns,
        packet.host_time_ns + packet.nominal_duration_ns <= u64::MAX,
        on_grid(packet.host_time_ns - end_ns, rate_hz as int),
        on_grid(packet.nominal_duration_ns as int, rate_hz as int),
        frames_in(packet.nominal_duration_ns as int, rate_hz as int) <= usize::MAX,
        plan_of(packet, rate_hz) matches PacketPlan::Resample { frames } ==> resampled.len()
            == frames,
    ensures
        ({
            let after = ingest_step(m, packet, resampled, rate_hz, silence);
            (after.output.len() - m.output.len()) * 1_000_000_000 == (after.next_expected_ns->0
                - end_ns) * rate_hz
        }),
{
    let gap_ns = packet.host_time_ns - end_ns;
    let gap = gap_before(m.next_expected_ns, packet.host_time_ns, rate_hz as int);
    law_packet_contributes_its_duration(packet, resampled, rate_hz, silence);
    lemma_frames_on_grid(gap_ns, rate_hz as int);
    lemma_frames_on_grid(packet.nominal_duration_ns as int, rate_hz as int);
    lemma_frame_product(gap_ns, rate_hz as int);
    assert(gap_ns == 0 ==> gap_ns * rate_hz == 0) by (nonlinear_arith);
    assert(gap == frames_in(gap_ns, rate_hz as int));
    assert((gap_ns + packet.nominal_duration_ns) * rate_hz == gap_ns * rate_hz
        + packet.nominal_duration_ns * rate_hz) by (nonlinear_arith);
}

/// Whether `frames` is the number of frames that lies nearest to an interval; a half is
/// rounded up.
pub open spec fn nearest(frames: int, ns: int, rate_hz: int) -> bool {
    -500_000_000 < frames * 1_000_000_000 - ns * rate_hz <= 500_000_000
}

/// Intervals are counted in the nearest number of frames.
pub proof fn law_frames_are_the_nearest(ns: int, rate_hz: int, frames: int)
    requires
        ns >= 0,
        rate_hz >= 0,
        nearest(frames, ns, rate_hz),
    ensures
        frames_in(ns, rate_hz) == frames,
        frames >= 0,
{
    let p = ns * rate_hz;
    assert(p >= 0) by (nonlinear_arith)
        requires
            p == ns * rate_hz,
            ns >= 0,
            rate_hz >= 0,
    ;
    assert((p + 500_000_000) / 1_000_000_000 == frames) by (nonlinear_arith)
        requires
            -500_000_000 < frames * 1_000_000_000 - p <= 500_000_000,
    ;
}

/// Whether a packet is smoothed: something was delivered, it is not flagged, and it is off
/// by at most one frame in twenty of what was delivered.
pub open spec fn is_smoothed(delivered: int, expected: int, flagged: bool) -> bool {
    let off = if delivered > expected {
        delivered - expected
    } else {
        expected - delivered
    };
    delivered > 0 && !flagged && 20 * off <= delivered
}

/// What a packet adds to the output, frame by frame. What was there stays. Time that
/// passed without a packet becomes silence. Then come the frames that the packet's
/// duration stands for: of a packet that is flagged, or off by more than one frame in
/// twenty, its own samples in their order for as long as they last, and silence only
/// after them; of any other packet the resampled frames.
pub proof fn law_a_packet_adds_its_own_samples<S>(
    m: AlignerModel<S>,
    packet: AudioPacket<S>,
    resampled: Seq<S>,
    rate_hz: u32,
    silence: S,
    lost: int,
    expected: int,
)
    requires
        nearest(expected, packet.nominal_duration_ns as int, rate_hz as int),
        match m.next_expected_ns {
            Some(end_ns) => if end_ns < packet.host_time_ns {
                nearest(lost, packet.host_time_ns - end_ns, rate_hz as int)
            } else {
                lost == 0
            },
            None => lost == 0,
        },
        expected <= usize::MAX,
        packet.host_time_ns + packet.nominal_duration_ns <= u64::MAX,
        is_smoothed(packet.samples@.len() as int, expected, packet.discontinuity)
            ==> resampled.len() == expected,
    ensures
        ({
            let after = ingest_step(m, packet, resampled, rate_hz, silence);
            let samples = packet.samples@;
            let start = m.output.len() + lost;
            let smoothed = is_smoothed(samples.len() as int, expected, packet.discontinuity);
            &&& after.output.len() == start + expected
            &&& forall|i: int|
                0 <= i < m.output.len() ==> (#[trigger] after.output[i]) == m.output[i]
            &&& forall|i: int|
                m.output.len() <= i < start ==> (#[trigger] after.output[i]) == silence
            &&& smoothed ==> forall|i: int|
                start <= i < start + expected ==> (#[trigger] after.output[i])
                    == resampled[i - start]
            &&& !smoothed ==> forall|i: int|
                start <= i < start + expected ==> (#[trigger] after.output[i]) == if i - start
                    < samples.len() {
                    samples[i - start]
                } else {
                    silence
                }
            &&& after.next_expected_ns == Some(
                (packet.host_time_ns + packet.nominal_duration_ns) as u64,
            )
        }),
{
    law_frames_are_the_nearest(packet.nominal_duration_ns as int, rate_hz as int, expected);
    if m.next_expected_ns is Some && m.next_expected_ns->0 < packet.host_time_ns {
        law_frames_are_the_nearest(
            packet.host_time_ns - m.next_expected_ns->0,
            rate_hz as int,
            lost,
        );
    }
}

/// What a packet adds to the counters: one packet, one gap where time passed without
/// one, one discontinuity where it is flagged, one hard jump where samples were delivered
/// and are taken as they are, and every frame of silence and every resampled frame that
/// the output got. The largest deviation is the largest so far.
pub proof fn law_a_packet_is_counted<S>(
    m: AlignerModel<S>,
    packet: AudioPacket<S>,
    resampled: Seq<S>,
    rate_hz: u32,
    silence: S,
    lost: int,
    expected: int,
)
    requires
        nearest(expected, packet.nominal_duration_ns as int, rate_hz as int),
        match m.next_expected_ns {
            Some(end_ns) => if end_ns < packet.host_time_ns {
                nearest(lost, packet.host_time_ns - end_ns, rate_hz as int)
            } else {
                lost == 0
            },
            None => lost == 0,
        },
        expected <= usize::MAX,
        packet.samples@.len() <= usize::MAX,
    ensures
        ({
            let before = m.stats;
            let after = ingest_step(m, packet, resampled, rate_hz, silence).stats;
            let delivered = packet.samples@.len() as int;
            let off = if delivered > expected {
                delivered - expected
            } else {
                expected - delivered
            };
            let smoothed = expected > 0 && is_smoothed(delivered, expected, packet.discontinuity);
            let jumped = expected > 0 && delivered > 0 && !smoothed;
            let late = m.next_expected_ns is Some && m.next_expected_ns->0 < packet.host_time_ns;
            &&& after.packets_processed == before.packets_processed + 1
            &&& after.gaps_detected == before.gaps_detected + if late {
                1int
            } else {
                0
            }
            &&& after.discontinuities_seen == before.discontinuities_seen
                + if packet.discontinuity {
                1int
            } else {
                0
            }
            &&& after.hard_jumps == before.hard_jumps + if jumped {
                1int
            } else {
                0
            }
            &&& after.resampled_frames == before.resampled_frames + if smoothed {
                expected
            } else {
                0
            }
            &&& after.silence_frames_inserted == before.silence_frames_inserted + lost
                + if !smoothed && delivered < expected {
                expected - delivered
            } else {
                0
            }
            &&& expected > 0 && delivered > 0 ==> {
                // The ratio so far, and this packet's, as fractions.
                &&& after.max_deviation.difference * before.max_deviation.frames
                    >= before.max_deviation.difference * after.max_deviation.frames
                &&& after.max_deviation.difference * delivered >= off * after.max_deviation.frames
                &&& after.max_deviation == before.max_deviation || (
                after.max_deviation.difference == off && after.max_deviation.frames == delivered)
            }
            &&& expected == 0 || delivered == 0 ==> after.max_deviation == before.max_deviation
        }),
{
    law_frames_are_the_nearest(packet.nominal_duration_ns as int, rate_hz as int, expected);
    if m.next_expected_ns is Some && m.next_expected_ns->0 < packet.host_time_ns {
        law_frames_are_the_nearest(
            packet.host_time_ns - m.next_expected_ns->0,
            rate_hz as int,
            lost,
        );
    }
    let a = m.stats.max_deviation;
    let delivered = packet.samples@.len() as int;
    assert(a.difference * a.frames == a.frames * a.difference) by (nonlinear_arith);
    let b = difference(expected, delivered);
    assert(b * delivered == delivered * b) by (nonlinear_arith);
}

/// Bringing the output up to a point in host time keeps what is there and adds nothing but
/// silence, as much of it as the time that is missing; there is nothing to add where the
/// output reaches that point already.
pub proof fn law_the_end_is_filled_with_silence<S>(
    m: AlignerModel<S>,
    end_ns: u64,
    rate_hz: u32,
    silence: S,
    missing: int,
)
    requires
        ({
            let from_ns = match m.next_expected_ns {
                Some(from_ns) => from_ns,
                None => 0,
            };
            if from_ns < end_ns {
                nearest(missing, end_ns - from_ns, rate_hz as int)
            } else {
                missing == 0
            }
        }),
    ensures
        ({
            let after = finalize_step(m, end_ns, rate_hz, silence);
            &&& after.output.len() == m.output.len() + missing
            &&& forall|i: int|
                0 <= i < after.output.len() ==> (#[trigger] after.output[i]) == if i
                    < m.output.len() {
                    m.output[i]
                } else {
                    silence
                }
            &&& after.next_expected_ns == Some(end_ns)
            &&& after.stats == (StatsModel {
                silence_frames_inserted: m.stats.silence_frames_inserted + missing,
                ..m.stats
            })
        }),
{
    let from_ns = match m.next_expected_ns {
        Some(from_ns) => from_ns,
        None => 0,
    };
    if from_ns < end_ns {
        law_frames_are_the_nearest(end_ns - from_ns, rate_hz as int, missing);
    }
}

/// An aligner begins with no output and nothing counted, and its first packet is the first
/// that it counts.
pub proof fn law_counting_begins_at_nothing<S>(
    packet: AudioPacket<S>,
    resampled: Seq<S>,
    rate_hz: u32,
    silence: S,
)
    ensures
        ({
            let m = AlignerModel::<S>::empty();
            let after = ingest_step(m, packet, resampled, rate_hz, silence);
            &&& m.output.len() == 0
            &&& m.next_expected_ns is None
            &&& m.stats.silence_frames_inserted == 0
            &&& m.stats.resampled_frames == 0
            &&& m.stats.max_deviation.difference == 0
            &&& m.stats.max_deviation.frames > 0
            &&& after.stats.packets_processed == 1
            &&& after.stats.gaps_detected == 0
            &&& after.stats.discontinuities_seen == if packet.discontinuity {
                1int
            } else {
                0
            }
            &&& after.stats.hard_jumps <= 1
        }),
{
}

} // verus!
