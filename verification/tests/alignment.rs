//! Packets to a timeline: alignment, a simulation of two drifting and lossy sources,
//! segments, and frames to packets.

use meeting_recorder::aligner::{
    packet_plan, AudioPacket, PacketPlan, RatioDeviation, TimelineAligner,
};
use meeting_recorder::domain::{CapturedFrame, TrackKind};
use meeting_recorder::normalize::{mono_groups, needs_resampling, resampled_length};
use meeting_recorder::pseudo_source::{
    generate_frames, nominal_frame_interval_ns, tone_length,
};
use meeting_recorder::segmenter::segment_pcm;
use meeting_recorder::timeline_adapter::{align_track, packet_for};
use meeting_recorder::xcorr::{lag_window, LagWindow};
use std::f64::consts::PI;

fn linear_resample(input: &[f32], output_len: usize) -> Vec<f32> {
    if output_len == 0 {
        return Vec::new();
    }
    if input.is_empty() {
        return vec![0.0; output_len];
    }
    if input.len() == 1 || output_len == 1 {
        return vec![input[0]; output_len];
    }
    let mut out = Vec::with_capacity(output_len);
    let scale = (input.len() - 1) as f64 / (output_len - 1) as f64;
    for i in 0..output_len {
        let pos = i as f64 * scale;
        let idx = (pos.floor() as usize).min(input.len() - 2);
        let frac = pos - idx as f64;
        let a = input[idx] as f64;
        let b = input[idx + 1] as f64;
        out.push((a + (b - a) * frac) as f32);
    }
    out
}

fn resampled_for(packet: &AudioPacket<f32>, rate_hz: u32) -> Vec<f32> {
    match packet_plan(packet, rate_hz) {
        PacketPlan::Resample { frames } => linear_resample(&packet.samples, frames),
        _ => Vec::new(),
    }
}

fn ingest(aligner: &mut TimelineAligner<f32>, packet: &AudioPacket<f32>) {
    let resampled = resampled_for(packet, aligner.nominal_rate_hz);
    aligner.ingest(packet, &resampled);
}

fn best_lag(a: &[f32], b: &[f32], max_lag: i64) -> (i64, f64) {
    let mut best_lag = 0i64;
    let mut best_score = f64::MIN;
    for lag in -max_lag..=max_lag {
        let mut sum = 0.0f64;
        let mut count = 0u64;
        for i in 0..a.len() {
            let j = i as i64 + lag;
            if j < 0 || j as usize >= b.len() {
                continue;
            }
            sum += a[i] as f64 * b[j as usize] as f64;
            count += 1;
        }
        if count == 0 {
            continue;
        }
        let score = sum / count as f64;
        if score > best_score {
            best_score = score;
            best_lag = lag;
        }
    }
    (best_lag, best_score)
}

fn measure_lag_at(
    track_a: &[f32],
    track_b: &[f32],
    center_sample: usize,
    window_radius: usize,
    max_lag: i64,
) -> Option<(i64, f64)> {
    let window =
        lag_window(track_a.len(), track_b.len(), center_sample, window_radius, max_lag)?;
    Some(best_lag(
        &track_a[window.start..window.end_a],
        &track_b[window.start..window.end_b],
        max_lag,
    ))
}

/// Deterministic xorshift64* PRNG so tests are fully reproducible from a seed alone.
struct SimpleRng(u64);

impl SimpleRng {
    fn new(seed: u64) -> Self {
        Self(seed | 1)
    }

    fn next_u64(&mut self) -> u64 {
        let mut x = self.0;
        x ^= x >> 12;
        x ^= x << 25;
        x ^= x >> 27;
        self.0 = x;
        x.wrapping_mul(0x2545_F491_4F6C_DD1D)
    }

    fn next_f64(&mut self) -> f64 {
        (self.next_u64() >> 11) as f64 / (1u64 << 53) as f64
    }

    fn next_bool_with_probability(&mut self, p: f64) -> bool {
        self.next_f64() < p
    }
}

struct PseudoSourceConfig {
    tone_freq_hz: f64,
    nominal_rate_hz: u32,
    /// How far this source's real clock deviates from nominal, in ppm.
    drift_ppm: f64,
    packet_duration_ms: u32,
    packet_loss_probability: f64,
    discontinuity_probability: f64,
    /// A marker pulse injected into both sources simultaneously on true elapsed time,
    /// used to measure sync error via cross-correlation after alignment.
    sync_pulse_interval_secs: f64,
    sync_pulse_duration_ms: f64,
    seed: u64,
}

fn pulse_sample(t_in_pulse_secs: f64, pulse_duration_secs: f64) -> f32 {
    // Raised-cosine envelope + 2kHz carrier: distinct enough from the 440/880Hz test
    // tones to make cross-correlation detection reliable.
    let envelope = 0.5 - 0.5 * (2.0 * PI * t_in_pulse_secs / pulse_duration_secs).cos();
    let carrier = (2.0 * PI * 2000.0 * t_in_pulse_secs).sin();
    (envelope * carrier * 0.9) as f32
}

/// Generates `duration_secs` of a pseudo audio source as a sequence of `AudioPacket`s,
/// with clock drift, packet loss, and discontinuities applied.
fn generate(config: &PseudoSourceConfig, duration_secs: f64) -> Vec<AudioPacket<f32>> {
    let mut rng = SimpleRng::new(config.seed);
    let actual_rate_hz = config.nominal_rate_hz as f64 * (1.0 + config.drift_ppm / 1_000_000.0);
    let nominal_duration_ns = config.packet_duration_ms as u64 * 1_000_000;
    let total_packets = ((duration_secs * 1000.0) / config.packet_duration_ms as f64).round() as u64;

    let mut packets = Vec::with_capacity(total_packets as usize);
    let mut host_time_ns: u64 = 0;
    // Cumulative-rounding device sample position avoids error accumulation over long runs.
    let mut device_sample_pos: u64 = 0;
    let mut phase: f64 = 0.0;
    let pulse_duration_secs = config.sync_pulse_duration_ms / 1000.0;

    for _ in 0..total_packets {
        let packet_start_ns = host_time_ns;
        let packet_end_ns = host_time_ns + nominal_duration_ns;
        host_time_ns = packet_end_ns;

        let end_device_pos = (actual_rate_hz * (packet_end_ns as f64 / 1e9)).round() as u64;
        let frame_count = end_device_pos.saturating_sub(device_sample_pos);

        let mut samples = Vec::with_capacity(frame_count as usize);
        for _ in 0..frame_count {
            let true_time_secs = device_sample_pos as f64 / actual_rate_hz;
            let t_in_period = true_time_secs % config.sync_pulse_interval_secs;
            let value = if t_in_period < pulse_duration_secs {
                pulse_sample(t_in_period, pulse_duration_secs)
            } else {
                (phase.sin() * 0.5) as f32
            };
            samples.push(value);

            phase += 2.0 * PI * config.tone_freq_hz / actual_rate_hz;
            if phase > 2.0 * PI {
                phase -= 2.0 * PI;
            }
            device_sample_pos += 1;
        }

        if rng.next_bool_with_probability(config.packet_loss_probability) {
            continue; // Whole packet lost; the aligner should detect this as a gap.
        }

        let discontinuity = rng.next_bool_with_probability(config.discontinuity_probability);
        if discontinuity && samples.len() > 4 {
            // Mimic the OS reporting a discontinuity: drop the tail of the packet, so
            // the actual frame count comes in short of what was expected.
            let drop = (samples.len() / 3).max(1);
            samples.truncate(samples.len().saturating_sub(drop));
        }

        packets.push(AudioPacket {
            host_time_ns: packet_start_ns,
            nominal_duration_ns,
            samples,
            discontinuity,
        });
    }

    packets
}

const NOMINAL_RATE_HZ: u32 = 48_000;

struct ScenarioConfig {
    duration_secs: f64,
    self_drift_ppm: f64,
    remote_drift_ppm: f64,
    self_packet_ms: u32,
    remote_packet_ms: u32,
    packet_loss_probability: f64,
    discontinuity_probability: f64,
    sync_pulse_interval_secs: f64,
    sync_pulse_duration_ms: f64,
    seed: u64,
}

impl Default for ScenarioConfig {
    fn default() -> Self {
        Self {
            duration_secs: 2.0 * 3600.0,
            self_drift_ppm: 50.0,
            remote_drift_ppm: -50.0,
            self_packet_ms: 10,
            remote_packet_ms: 20,
            packet_loss_probability: 0.001,
            discontinuity_probability: 0.0005,
            sync_pulse_interval_secs: 60.0,
            sync_pulse_duration_ms: 5.0,
            seed: 0x5eed_1234,
        }
    }
}

struct SimulationResult {
    length_diff_frames: i64,
    sync_lag_ms_max_abs: f64,
    self_gaps_detected: u64,
    self_hard_jumps: u64,
}

fn run_simulation(config: &ScenarioConfig) -> SimulationResult {
    let self_source_config = PseudoSourceConfig {
        tone_freq_hz: 440.0,
        nominal_rate_hz: NOMINAL_RATE_HZ,
        drift_ppm: config.self_drift_ppm,
        packet_duration_ms: config.self_packet_ms,
        packet_loss_probability: config.packet_loss_probability,
        discontinuity_probability: config.discontinuity_probability,
        sync_pulse_interval_secs: config.sync_pulse_interval_secs,
        sync_pulse_duration_ms: config.sync_pulse_duration_ms,
        seed: config.seed,
    };
    let remote_source_config = PseudoSourceConfig {
        tone_freq_hz: 880.0,
        nominal_rate_hz: NOMINAL_RATE_HZ,
        drift_ppm: config.remote_drift_ppm,
        packet_duration_ms: config.remote_packet_ms,
        packet_loss_probability: config.packet_loss_probability,
        discontinuity_probability: config.discontinuity_probability,
        sync_pulse_interval_secs: config.sync_pulse_interval_secs,
        sync_pulse_duration_ms: config.sync_pulse_duration_ms,
        seed: config.seed ^ 0xa5a5_a5a5_a5a5_a5a5,
    };

    let self_packets = generate(&self_source_config, config.duration_secs);
    let remote_packets = generate(&remote_source_config, config.duration_secs);

    let mut self_aligner = TimelineAligner::new(NOMINAL_RATE_HZ, 0.0);
    for p in &self_packets {
        ingest(&mut self_aligner, p);
    }
    let mut remote_aligner = TimelineAligner::new(NOMINAL_RATE_HZ, 0.0);
    for p in &remote_packets {
        ingest(&mut remote_aligner, p);
    }

    let end_ns = (config.duration_secs * 1e9) as u64;
    self_aligner.finalize_up_to(end_ns);
    remote_aligner.finalize_up_to(end_ns);

    let self_stats = self_aligner.stats();
    let self_track = self_aligner.into_output();
    let remote_track = remote_aligner.into_output();

    let pulse_period_samples =
        (config.sync_pulse_interval_secs * NOMINAL_RATE_HZ as f64).round() as usize;
    let window_radius = (0.05 * NOMINAL_RATE_HZ as f64).round() as usize; // +-50ms
    let max_lag = (0.15 * NOMINAL_RATE_HZ as f64).round() as i64; // search up to 150ms

    let mut sync_lag_ms_max_abs = 0.0f64;
    let mut center = pulse_period_samples; // skip the first period to avoid edge effects
    while center < self_track.len() && center < remote_track.len() {
        if let Some((lag, _score)) =
            measure_lag_at(&self_track, &remote_track, center, window_radius, max_lag)
        {
            let lag_ms = (lag as f64 / NOMINAL_RATE_HZ as f64 * 1000.0).abs();
            sync_lag_ms_max_abs = sync_lag_ms_max_abs.max(lag_ms);
        }
        center += pulse_period_samples;
    }

    SimulationResult {
        length_diff_frames: self_track.len() as i64 - remote_track.len() as i64,
        sync_lag_ms_max_abs,
        self_gaps_detected: self_stats.gaps_detected,
        self_hard_jumps: self_stats.hard_jumps,
    }
}

fn assert_correctness(config: &ScenarioConfig) {
    let result = run_simulation(config);

    assert_eq!(
        result.length_diff_frames, 0,
        "self/remote track lengths must match exactly"
    );
    assert!(
        result.sync_lag_ms_max_abs <= 100.0,
        "sync error must stay within 100ms: {}ms",
        result.sync_lag_ms_max_abs
    );
    // Confirm packet loss/discontinuity were actually injected (otherwise this test
    // wouldn't be exercising anything interesting).
    assert!(result.self_gaps_detected > 0);
    assert!(result.self_hard_jumps > 0);
}

#[test]
fn short_scenario_meets_acceptance_criteria() {
    let config = ScenarioConfig {
        duration_secs: 120.0,
        ..ScenarioConfig::default()
    };
    assert_correctness(&config);
}

#[test]
fn no_drift_no_loss_scenario_is_still_length_exact_and_in_sync() {
    // Even with zero drift/loss, differing callback periods (10ms vs 20ms) alone
    // shouldn't break alignment.
    let config = ScenarioConfig {
        duration_secs: 60.0,
        self_drift_ppm: 0.0,
        remote_drift_ppm: 0.0,
        packet_loss_probability: 0.0,
        discontinuity_probability: 0.0,
        ..ScenarioConfig::default()
    };
    let result = run_simulation(&config);
    assert_eq!(result.length_diff_frames, 0);
    assert_eq!(result.self_gaps_detected, 0);
    assert_eq!(result.self_hard_jumps, 0);
    assert!(result.sync_lag_ms_max_abs <= 20.0);
}

fn packet(host_time_ns: u64, duration_ns: u64, samples: Vec<f32>, discontinuity: bool) -> AudioPacket<f32> {
    AudioPacket {
        host_time_ns,
        nominal_duration_ns: duration_ns,
        samples,
        discontinuity,
    }
}

#[test]
fn gentle_drift_is_resampled_not_dropped() {
    let mut aligner = TimelineAligner::new(1000, 0.0); // 1kHz makes the arithmetic easy to read.
    // Expect 20 frames (20ms), actually got 21 (5% deviation, right at clock-drift scale).
    ingest(&mut aligner, &packet(0, 20_000_000, vec![0.0; 21], false));
    let stats = aligner.stats();
    assert_eq!(stats.hard_jumps, 0);
    assert_eq!(stats.resampled_frames, 20);
    assert_eq!(aligner.output().len(), 20);
}

#[test]
fn large_deviation_is_hard_jump_not_smooth_resample() {
    let mut aligner = TimelineAligner::new(1000, 0.0);
    // Expect 20 frames, got only 10 (50% short) -> hard jump.
    ingest(&mut aligner, &packet(0, 20_000_000, vec![1.0; 10], false));
    let stats = aligner.stats();
    assert_eq!(stats.hard_jumps, 1);
    assert_eq!(stats.resampled_frames, 0);
    assert_eq!(aligner.output().len(), 20);
    // Padded with silence, not simply truncated.
    assert!(aligner.output()[10..].iter().all(|&s| s == 0.0));
}

#[test]
fn packet_loss_gap_is_filled_with_silence_and_length_preserved() {
    let mut aligner = TimelineAligner::new(1000, 0.0);
    ingest(&mut aligner, &packet(0, 10_000_000, vec![1.0; 10], false));
    // The next packet arrives 20ms later instead of 10ms -> a whole 10ms packet was lost.
    ingest(&mut aligner, &packet(20_000_000, 10_000_000, vec![1.0; 10], false));
    let stats = aligner.stats();
    assert_eq!(stats.gaps_detected, 1);
    assert_eq!(stats.silence_frames_inserted, 10);
    assert_eq!(aligner.output().len(), 30); // 10 + 10(silence) + 10
}

#[test]
fn discontinuity_flag_forces_hard_jump_even_within_threshold() {
    let mut aligner = TimelineAligner::new(1000, 0.0);
    // Expect 20, got 19 (under 5% deviation) but discontinuity=true forces a hard jump.
    ingest(&mut aligner, &packet(0, 20_000_000, vec![1.0; 19], true));
    let stats = aligner.stats();
    assert_eq!(stats.hard_jumps, 1);
    assert_eq!(stats.resampled_frames, 0);
    assert_eq!(stats.discontinuities_seen, 1);
}

#[test]
fn exact_multiple_produces_equal_length_segments() {
    let pcm = vec![0.0f32; 300];
    let segments = segment_pcm(&pcm, 10, 10_000); // 100 samples/segment
    assert_eq!(segments.len(), 3);
    for (i, s) in segments.iter().enumerate() {
        assert_eq!(s.sequence, i as u64);
        assert_eq!(s.timeline_start_ms, i as u64 * 10_000);
        assert_eq!(s.pcm.len(), 100);
    }
}

#[test]
fn a_remainder_becomes_a_shorter_trailing_segment() {
    let pcm = vec![0.0f32; 250];
    let segments = segment_pcm(&pcm, 10, 10_000);
    assert_eq!(segments.len(), 3);
    assert_eq!(segments[2].pcm.len(), 50);
}

#[test]
fn empty_input_produces_no_segments() {
    assert!(segment_pcm::<f32>(&[], 48_000, 30_000).is_empty());
}

#[test]
fn drift_of_one_frame_in_twenty_is_smoothed_and_more_is_not() {
    let plan = |actual: usize| packet_plan(&packet(0, 20_000_000, vec![0.0; actual], false), 1000);
    assert_eq!(plan(20), PacketPlan::Resample { frames: 20 });
    assert_eq!(plan(21), PacketPlan::Resample { frames: 20 });
    assert_eq!(plan(19), PacketPlan::Pad { silence: 1 });
    assert_eq!(plan(22), PacketPlan::Truncate { frames: 20 });
    assert_eq!(plan(0), PacketPlan::Silence { frames: 20 });
    // Exactly one in twenty is still drift.
    let edge = packet(0, 21_000_000, vec![0.0; 20], false);
    assert_eq!(packet_plan(&edge, 1000), PacketPlan::Resample { frames: 21 });
    let nothing = packet(0, 400_000, vec![1.0; 3], false);
    assert_eq!(packet_plan(&nothing, 1000), PacketPlan::Nothing);
}

#[test]
fn the_largest_deviation_is_kept_as_a_fraction() {
    let mut aligner = TimelineAligner::new(1000, 0.0);
    ingest(&mut aligner, &packet(0, 20_000_000, vec![1.0; 10], false));
    ingest(&mut aligner, &packet(20_000_000, 20_000_000, vec![1.0; 20], false));
    let stats = aligner.stats();
    assert_eq!(stats.packets_processed, 2);
    assert_eq!(
        stats.max_single_packet_ratio_deviation,
        RatioDeviation { difference: 10, frames: 10 }
    );
    assert_eq!(stats.gaps_detected, 0);
}

#[test]
fn both_tracks_end_at_the_same_length() {
    let track = |count: u64| {
        let packets: Vec<AudioPacket<f32>> = (0..count)
            .map(|i| packet(i * 10_000_000, 10_000_000, vec![1.0; 10], false))
            .collect();
        let resampled: Vec<Vec<f32>> = packets.iter().map(|p| resampled_for(p, 1000)).collect();
        align_track(&packets, &resampled, 1000, 0.0, 100_000_000)
    };
    assert_eq!(track(10).len(), 100);
    let shorter = track(7);
    assert_eq!(shorter.len(), 100);
    assert!(shorter[..70].iter().all(|&s| s == 1.0));
    assert!(shorter[70..].iter().all(|&s| s == 0.0));
}

#[test]
fn segments_of_both_tracks_line_up() {
    let a: Vec<u8> = (0..250).map(|i| i as u8).collect();
    let b: Vec<u8> = (0..250).map(|i| 255 - i as u8).collect();
    let (a_segments, b_segments) = (segment_pcm(&a, 10, 10_000), segment_pcm(&b, 10, 10_000));
    for (x, y) in a_segments.iter().zip(&b_segments) {
        assert_eq!(x.sequence, y.sequence);
        assert_eq!(x.timeline_start_ms, y.timeline_start_ms);
        assert_eq!(x.pcm.len(), y.pcm.len());
    }
    let joined: Vec<u8> = a_segments.iter().flat_map(|s| s.pcm.iter().copied()).collect();
    assert_eq!(joined, a);
}

fn frame(sample_rate: u32, channels: u16, samples: Vec<f32>) -> CapturedFrame<f32> {
    CapturedFrame {
        track: TrackKind::SelfMic,
        host_time_ns: 0,
        source_time_ns: None,
        sample_rate,
        channels,
        samples,
        discontinuity: false,
    }
}

fn normalize_to_mono(frame: &CapturedFrame<f32>, target_rate_hz: u32) -> Vec<f32> {
    let mono: Vec<f32> = mono_groups(frame)
        .into_iter()
        .map(|group| group.iter().sum::<f32>() / group.len() as f32)
        .collect();
    resample(&mono, frame.sample_rate, target_rate_hz)
}

fn resample(samples: &[f32], from_hz: u32, to_hz: u32) -> Vec<f32> {
    if !needs_resampling(samples.len(), from_hz, to_hz) {
        return samples.to_vec();
    }
    linear_resample(samples, resampled_length(samples.len(), from_hz, to_hz))
}

#[test]
fn mono_at_target_rate_is_unchanged() {
    let f = frame(48_000, 1, vec![0.1, 0.2, 0.3]);
    assert_eq!(normalize_to_mono(&f, 48_000), vec![0.1, 0.2, 0.3]);
}

#[test]
fn stereo_is_downmixed_by_averaging_channels() {
    let f = frame(48_000, 2, vec![1.0, -1.0, 0.5, 0.5]);
    assert_eq!(normalize_to_mono(&f, 48_000), vec![0.0, 0.5]);
}

#[test]
fn different_sample_rate_is_resampled_to_target_length() {
    let f = frame(44_100, 1, vec![0.0; 441]);
    let target_len = (441.0_f64 * 48_000.0 / 44_100.0).round() as usize;
    assert_eq!(normalize_to_mono(&f, 48_000).len(), target_len);
}

#[test]
fn same_rate_is_returned_unchanged() {
    assert_eq!(resample(&[0.1, 0.2, 0.3], 48_000, 48_000), vec![0.1, 0.2, 0.3]);
}

#[test]
fn empty_input_stays_empty() {
    assert!(resample(&[], 48_000, 16_000).is_empty());
}

#[test]
fn downsamples_48k_to_16k_by_a_third() {
    let input = vec![0.0_f32; 480];
    assert_eq!(resample(&input, 48_000, 16_000).len(), 160);
}

#[test]
fn downsamples_48k_to_24k_by_half() {
    let input = vec![0.0_f32; 480];
    assert_eq!(resample(&input, 48_000, 24_000).len(), 240);
}

#[test]
fn upsamples_16k_to_48k() {
    let input = vec![0.0_f32; 160];
    assert_eq!(resample(&input, 16_000, 48_000).len(), 480);
}

#[test]
fn an_incomplete_group_of_channels_is_left_out() {
    let f = frame(48_000, 2, vec![1.0, 2.0, 3.0]);
    assert_eq!(mono_groups(&f), vec![&[1.0f32, 2.0][..]]);
    let none = frame(48_000, 0, vec![1.0, 2.0]);
    assert_eq!(mono_groups(&none).len(), 2);
}

#[test]
fn resampled_lengths_round_to_the_nearest() {
    assert_eq!(resampled_length(441, 44_100, 48_000), 480);
    assert_eq!(resampled_length(1, 2, 1), 1);
    assert_eq!(resampled_length(1, 3, 1), 0);
    assert_eq!(resampled_length(2, 3, 1), 1);
    assert_eq!(resampled_length(7, 8_000, 8_000), 7);
    // Where nothing is resampled, the rate does not matter.
    assert_eq!(resampled_length(0, 0, 48_000), 0);
    assert_eq!(resampled_length(5, 0, 0), 5);
}

#[test]
fn a_packet_stands_for_its_frame() {
    let mut f = frame(48_000, 1, vec![0.5; 4]);
    f.host_time_ns = 9;
    f.discontinuity = true;
    let p = packet_for(&f, vec![0.25f32, 0.75], 20);
    assert_eq!((p.host_time_ns, p.nominal_duration_ns, p.discontinuity), (9, 20, true));
    assert_eq!(p.samples, vec![0.25, 0.75]);
}

#[test]
fn synthetic_frames_follow_each_other_at_the_interval() {
    let config = meeting_recorder::pseudo_source::PseudoSourceConfig {
        duration_secs: 1,
        frame_interval_ms: 300,
        sample_rate: 10,
        channels: 2,
    };
    assert_eq!(nominal_frame_interval_ns(&config), 300_000_000);
    assert_eq!(tone_length(&config), 9);
    let tone: Vec<i32> = (0..9).collect();
    let frames = generate_frames(TrackKind::RemoteAudio, &config, &tone);
    assert_eq!(frames.len(), 3);
    assert_eq!(frames[1].host_time_ns, 300_000_000);
    assert_eq!(frames[1].samples, vec![3, 3, 4, 4, 5, 5]);
    assert_eq!(frames[2].track, TrackKind::RemoteAudio);
    assert_eq!(frames[2].source_time_ns, None);
}

#[test]
fn lag_windows_span_the_same_range_in_both_tracks() {
    assert_eq!(
        lag_window(100, 40, 30, 10, -5),
        Some(LagWindow { start: 15, end_a: 45, end_b: 40 })
    );
    assert_eq!(
        lag_window(100, 100, 5, 10, 5),
        Some(LagWindow { start: 0, end_a: 20, end_b: 20 })
    );
    assert_eq!(lag_window(10, 100, 30, 10, 5), None);
}
