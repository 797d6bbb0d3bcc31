//! A synthetic stand-in for a real capture backend, used to exercise the pipeline
//! without audio hardware: a steady sequence of frames, without jitter and drift.

use crate::domain::{CapturedFrame, TrackKind};
use vstd::prelude::*;

verus! {

#[derive(Debug, Clone, Copy, PartialEq, Eq, Structural)]
pub struct PseudoSourceConfig {
    pub duration_secs: u32,
    /// How often the simulated backend delivers a frame: a fixed property of the stream,
    /// whatever the number of samples in any one frame.
    pub frame_interval_ms: u32,
    pub sample_rate: u32,
    pub channels: u16,
}

/// The time between two frames.
pub open spec fn interval_ns(config: PseudoSourceConfig) -> int {
    config.frame_interval_ms * 1_000_000
}

/// How many samples of each channel a frame holds.
pub open spec fn samples_per_frame(config: PseudoSourceConfig) -> int {
    config.sample_rate * config.frame_interval_ms / 1000
}

/// How many whole frames the source delivers.
pub open spec fn frame_count(config: PseudoSourceConfig) -> int
    recommends
        config.frame_interval_ms > 0,
{
    config.duration_secs * 1000 / (config.frame_interval_ms as int)
}

/// The samples of a frame: its stretch of the tone, each sample once per channel.
pub open spec fn frame_samples<S>(config: PseudoSourceConfig, tone: Seq<S>, index: int) -> Seq<S> {
    let per_frame = samples_per_frame(config);
    let channels = crate::normalize::channel_count(config.channels);
    Seq::new(
        (per_frame * channels) as nat,
        |k: int| tone[index * per_frame + k / channels],
    )
}

pub fn nominal_frame_interval_ns(config: &PseudoSourceConfig) -> (ns: u64)
    ensures
        ns == interval_ns(*config),
{
    config.frame_interval_ms as u64 * 1_000_000
}

/// How many samples of the tone [`generate_frames`] needs.
pub fn tone_length(config: &PseudoSourceConfig) -> (len: usize)
    requires
        config.frame_interval_ms > 0,
        frame_count(*config) * samples_per_frame(*config) <= usize::MAX,
    ensures
        len == frame_count(*config) * samples_per_frame(*config),
{
    let (frames, per_frame): (u64, u64) = sizes(config);
    (frames * per_frame) as usize
}

fn sizes(config: &PseudoSourceConfig) -> (r: (u64, u64))
    requires
        config.frame_interval_ms > 0,
    ensures
        r.0 == frame_count(*config),
        r.1 == samples_per_frame(*config),
{
    proof {
        assert(config.sample_rate * config.frame_interval_ms <= u64::MAX) by (nonlinear_arith)
            requires
                config.sample_rate <= u32::MAX,
                config.frame_interval_ms <= u32::MAX,
        ;
    }
    let product: u64 = config.sample_rate as u64 * config.frame_interval_ms as u64;
    let total_ms: u64 = config.duration_secs as u64 * 1000;
    (total_ms / config.frame_interval_ms as u64, product / 1000)
}

/// Generates the frames of one track. `tone` is the signal, one sample per point in
/// time, over the whole duration.
pub fn generate_frames<S: Copy>(
    track: TrackKind,
    config: &PseudoSourceConfig,
    tone: &[S],
) -> (frames: Vec<CapturedFrame<S>>)
    requires
        config.frame_interval_ms > 0,
        tone@.len() == frame_count(*config) * samples_per_frame(*config),
    ensures
        frames@.len() == frame_count(*config),
        forall|i: int|
            #![trigger frames@[i]]
            0 <= i < frames@.len() ==> {
                &&& frames@[i].track == track
                &&& frames@[i].host_time_ns == i * interval_ns(*config)
                &&& frames@[i].source_time_ns is None
                &&& frames@[i].sample_rate == config.sample_rate
                &&& frames@[i].channels == config.channels
                &&& frames@[i].samples@ == frame_samples(*config, tone@, i)
                &&& !frames@[i].discontinuity
            },
{
    let step_ns: u64 = nominal_frame_interval_ns(config);
    let (total, per_frame): (u64, u64) = sizes(config);
    let channels: u16 = if config.channels >= 1 {
        config.channels
    } else {
        1
    };
    let ghost count = frame_count(*config);
    let ghost n = samples_per_frame(*config);
    let ghost total_ms = config.duration_secs * 1000;
    proof {
        vstd::arithmetic::div_mod::lemma_fundamental_div_mod(
            total_ms,
            config.frame_interval_ms as int,
        );
        assert(count * config.frame_interval_ms <= total_ms) by (nonlinear_arith)
            requires
                total_ms == config.frame_interval_ms * count + total_ms
                    % (config.frame_interval_ms as int),
                total_ms % (config.frame_interval_ms as int) >= 0,
        ;
    }
    let mut frames: Vec<CapturedFrame<S>> = Vec::new();
    let mut host_time_ns: u64 = 0;
    let mut i: u64 = 0;
    let mut next: usize = 0;
    let tone_len: usize = tone.len();
    assert(0 * step_ns == 0 && 0 * n == 0) by (nonlinear_arith);
    while i < total
        invariant
            i <= total,
            total == count,
            n == per_frame,
            n == samples_per_frame(*config),
            count == frame_count(*config),
            tone@.len() == count * n,
            tone_len == tone@.len(),
            step_ns == interval_ns(*config),
            channels == crate::normalize::channel_count(config.channels),
            count * config.frame_interval_ms <= total_ms,
            total_ms == config.duration_secs * 1000,
            frames@.len() == i,
            host_time_ns == i * step_ns,
            next == i * n,
            forall|i: int|
                #![trigger frames@[i]]
                0 <= i < frames@.len() ==> {
                    &&& frames@[i].track == track
                    &&& frames@[i].host_time_ns == i * interval_ns(*config)
                    &&& frames@[i].source_time_ns is None
                    &&& frames@[i].sample_rate == config.sample_rate
                    &&& frames@[i].channels == config.channels
                    &&& frames@[i].samples@ == frame_samples(*config, tone@, i)
                    &&& !frames@[i].discontinuity
                },
        decreases total - i,
    {
        proof {
            assert((i + 1) * n == i * n + n) by (nonlinear_arith);
            assert((i + 1) * n <= count * n) by (nonlinear_arith)
                requires
                    i + 1 <= count,
                    n >= 0,
            ;
            assert(i * n >= 0) by (nonlinear_arith)
                requires
                    i >= 0,
                    n >= 0,
            ;
            assert(n <= tone@.len());
            assert((i + 1) * step_ns == i * step_ns + step_ns) by (nonlinear_arith);
            assert((i + 1) * step_ns <= count * config.frame_interval_ms * 1_000_000)
                by (nonlinear_arith)
                requires
                    i + 1 <= count,
                    step_ns == config.frame_interval_ms * 1_000_000,
            ;
        }
        let stretch: &[S] = vstd::slice::slice_subrange(tone, next, next + per_frame as usize);
        let samples: Vec<S> = spread(stretch, channels);
        proof {
            let c = channels as int;
            assert(samples@ =~= frame_samples(*config, tone@, i as int)) by {
                assert forall|k: int| 0 <= k < n * c implies #[trigger] samples@[k] == tone@[i * n
                    + k / c] by {
                    assert(0 <= k / c < n) by (nonlinear_arith)
                        requires
                            0 <= k < n * c,
                            c >= 1,
                    ;
                    assert(stretch@[k / c] == tone@[next + k / c]);
                }
            }
        }
        frames.push(
            CapturedFrame {
                track,
                host_time_ns,
                source_time_ns: None,
                sample_rate: config.sample_rate,
                channels: config.channels,
                samples,
                discontinuity: false,
            },
        );
        host_time_ns = host_time_ns + step_ns;
        next = next + per_frame as usize;
        i = i + 1;
    }
    frames
}

/// Every sample once per channel, interleaved.
fn spread<S: Copy>(tone: &[S], channels: u16) -> (samples: Vec<S>)
    requires
        channels >= 1,
    ensures
        samples@.len() == tone@.len() * channels,
        forall|k: int|
            0 <= k < tone@.len() * channels ==> #[trigger] samples@[k] == tone@[k / (
            channels as int)],
{
    let ghost c = channels as int;
    let mut samples: Vec<S> = Vec::new();
    let mut i: usize = 0;
    assert(0 * c == 0) by (nonlinear_arith);
    while i < tone.len()
        invariant
            i <= tone@.len(),
            c == channels,
            c >= 1,
            samples@.len() == i * c,
            forall|k: int| 0 <= k < i * c ==> #[trigger] samples@[k] == tone@[k / c],
        decreases tone@.len() - i,
    {
        let ghost base = i * c;
        let mut j: u16 = 0;
        while j < channels
            invariant
                i < tone@.len(),
                c == channels,
                c >= 1,
                j <= channels,
                base == i * c,
                samples@.len() == base + j,
                forall|k: int| 0 <= k < base + j ==> #[trigger] samples@[k] == tone@[k / c],
            decreases channels - j,
        {
            proof {
                assert((base + j) / c == i) by (nonlinear_arith)
                    requires
                        base == i * c,
                        0 <= j < c,
                ;
            }
            samples.push(tone[i]);
            j = j + 1;
        }
        proof {
            assert((i + 1) * c == base + c) by (nonlinear_arith)
                requires
                    base == i * c,
            ;
        }
        i = i + 1;
    }
    samples
}

/// Frames come at their interval for as long as whole ones fit into the duration, each with
/// the whole samples of its interval.
pub proof fn law_frames_fill_the_duration(config: PseudoSourceConfig)
    requires
        config.frame_interval_ms > 0,
    ensures
        interval_ns(config) == config.frame_interval_ms * 1_000_000,
        frame_count(config) * config.frame_interval_ms <= config.duration_secs * 1000
            < frame_count(config) * config.frame_interval_ms + config.frame_interval_ms,
        samples_per_frame(config) * 1000 <= config.sample_rate * config.frame_interval_ms
            < samples_per_frame(config) * 1000 + 1000,
{
    let total = config.duration_secs * 1000;
    let d = config.frame_interval_ms as int;
    let q = frame_count(config);
    vstd::arithmetic::div_mod::lemma_fundamental_div_mod(total, d);
    assert(q * d == d * q) by (nonlinear_arith);
    let p = config.sample_rate * config.frame_interval_ms;
    assert(p >= 0) by (nonlinear_arith)
        requires
            p == config.sample_rate * config.frame_interval_ms,
    ;
}

/// A frame goes on with the tone where the one before it stopped, and every channel of it
/// has the same samples.
pub proof fn law_the_tone_goes_on_from_frame_to_frame<S>(
    config: PseudoSourceConfig,
    tone: Seq<S>,
    index: int,
    sample: int,
    channel: int,
)
    requires
        config.channels > 0,
        0 <= sample < samples_per_frame(config),
        0 <= channel < config.channels,
    ensures
        ({
            let frame = frame_samples(config, tone, index);
            &&& frame.len() == samples_per_frame(config) * config.channels
            &&& 0 <= sample * config.channels + channel < frame.len()
            &&& frame[sample * config.channels + channel] == tone[index * samples_per_frame(config)
                + sample]
        }),
{
    let c = config.channels as int;
    let n = samples_per_frame(config);
    let k = sample * c + channel;
    assert(0 <= k < n * c && k / c == sample) by (nonlinear_arith)
        requires
            k == sample * c + channel,
            0 <= sample < n,
            0 <= channel < c,
    ;
}

} // verus!
