//! Timestamps: media clocks to nanoseconds, and provider time to wall-clock time.

use meeting_recorder::timestamp::{cmtime_to_ns, CMTimeLike};
use meeting_recorder::timestamp_mapper::{signed_samples_to_ms, TimestampMapper};

#[test]
fn converts_whole_seconds() {
    let t = CMTimeLike {
        value: 5,
        timescale: 1,
    };
    assert_eq!(cmtime_to_ns(t), Some(5_000_000_000));
}

#[test]
fn converts_fractional_seconds_at_sample_rate_timescale() {
    // 16000 samples into a 16kHz-timescale clock = exactly 1 second.
    let t = CMTimeLike {
        value: 16_000,
        timescale: 16_000,
    };
    assert_eq!(cmtime_to_ns(t), Some(1_000_000_000));
}

#[test]
fn converts_sub_second_value() {
    // 500ms at a 1000Hz timescale.
    let t = CMTimeLike {
        value: 500,
        timescale: 1_000,
    };
    assert_eq!(cmtime_to_ns(t), Some(500_000_000));
}

#[test]
fn zero_timescale_is_none_not_a_panic() {
    let t = CMTimeLike {
        value: 5,
        timescale: 0,
    };
    assert_eq!(cmtime_to_ns(t), None);
}

#[test]
fn negative_timescale_is_none() {
    let t = CMTimeLike {
        value: 5,
        timescale: -1,
    };
    assert_eq!(cmtime_to_ns(t), None);
}

#[test]
fn negative_value_does_not_panic_and_fails_conversion() {
    // A negative presentation timestamp is malformed for this crate's purposes
    // (host-clock-anchored timestamps should never be negative); make sure it's
    // rejected rather than silently wrapping into a huge u64.
    let t = CMTimeLike {
        value: -1,
        timescale: 1,
    };
    assert_eq!(cmtime_to_ns(t), None);
}

#[test]
fn large_value_does_not_overflow() {
    // ~106 days worth of nanoseconds at a 1e9 timescale — well within i128
    // headroom, exercises the "large but valid" path.
    let t = CMTimeLike {
        value: 9_000_000,
        timescale: 1,
    };
    assert_eq!(cmtime_to_ns(t), Some(9_000_000_000_000_000));
}

#[test]
fn consecutive_checkpoints_at_the_same_position_are_compacted_in_place() {
    // Nothing is sent during a long silence, so its checkpoints share a position and
    // must not make the list grow.
    let mut mapper = TimestampMapper::new(16_000);
    for dropped in [1_600u64, 3_200, 4_800] {
        mapper.record_checkpoint(5_000, dropped as i64);
    }
    assert_eq!(mapper.checkpoints.len(), 1, "same-position checkpoints should overwrite, not accumulate");

    // A later, different position still appends normally.
    mapper.record_checkpoint(6_000, 6_400);
    assert_eq!(mapper.checkpoints.len(), 2);

    // A query between the two positions (5_600 samples = 350ms) picks up the
    // final recorded offset for position 5_000 (4_800 samples = 300ms), not an
    // earlier value from the same compacted run.
    assert_eq!(mapper.to_wallclock_ms(350), 350 + 300);
}

#[test]
fn no_checkpoints_returns_input_unchanged() {
    let mapper = TimestampMapper::new(16_000);
    assert_eq!(mapper.to_wallclock_ms(0), 0);
    assert_eq!(mapper.to_wallclock_ms(12_345), 12_345);
}

#[test]
fn single_silence_drop_offsets_subsequent_timestamps() {
    let mut mapper = TimestampMapper::new(16_000);
    // 1 second of silence dropped (16_000 samples), recorded once provider has
    // been sent 5_000 samples (i.e. 312.5ms of provider-relative audio).
    mapper.record_checkpoint(5_000, 16_000);

    // Before the checkpoint (100ms = 1_600 samples < 5_000): no correction yet.
    assert_eq!(mapper.to_wallclock_ms(100), 100);

    // After the checkpoint (1_000ms = 16_000 samples >= 5_000): offset by the
    // dropped second.
    assert_eq!(mapper.to_wallclock_ms(1_000), 1_000 + 1_000);
}

#[test]
fn multiple_silence_regions_pick_the_right_checkpoint_for_start_and_end() {
    let mut mapper = TimestampMapper::new(16_000);
    // First silence: 500ms dropped, recorded at provider_samples_sent = 16_000
    // (i.e. 1s of provider-relative audio sent so far).
    mapper.record_checkpoint(16_000, 8_000); // 500ms worth of samples
    // Second silence: another 300ms dropped, recorded at provider_samples_sent =
    // 32_000 (2s of provider-relative audio sent so far). Net offset accumulates.
    mapper.record_checkpoint(32_000, 8_000 + 4_800); // +300ms worth of samples

    // A transcript segment that starts within the first checkpoint's window and
    // ends within the second's.
    let start_provider_ms = 1_500; // samples = 24_000, in [16_000, 32_000)
    let end_provider_ms = 2_500; // samples = 40_000, >= 32_000

    let start_wall_ms = mapper.to_wallclock_ms(start_provider_ms);
    let end_wall_ms = mapper.to_wallclock_ms(end_provider_ms);

    assert_eq!(start_wall_ms, start_provider_ms + 500);
    assert_eq!(end_wall_ms, end_provider_ms + 800);
}

#[test]
fn heartbeat_injection_reduces_offset() {
    let mut mapper = TimestampMapper::new(16_000);
    // 1s dropped, but 400ms of heartbeat injected in the same window: net offset
    // is drop - injected = 600ms worth of samples.
    let dropped_samples: i64 = 16_000;
    let injected_samples: i64 = 6_400; // 400ms
    mapper.record_checkpoint(5_000, dropped_samples - injected_samples);

    assert_eq!(mapper.to_wallclock_ms(1_000), 1_000 + 600);
}

#[test]
fn heartbeat_only_region_offsets_backward() {
    let mut mapper = TimestampMapper::new(16_000);
    // No captured audio dropped, but heartbeat injected: net offset is negative,
    // meaning provider timestamps run ahead of wall-clock and must be pulled back.
    let injected_samples: i64 = 8_000; // 500ms
    mapper.record_checkpoint(5_000, -injected_samples);

    assert_eq!(mapper.to_wallclock_ms(1_000), 1_000 - 500);
}

#[test]
fn long_leading_silence_then_multiple_heartbeats_then_speech() {
    // A session that sits silent for a long time, with heartbeats in between, before
    // speech begins: the offset is what was dropped less what was injected.
    let mut mapper = TimestampMapper::new(16_000);

    // 10s of leading silence is captured but never sent (fully dropped).
    let total_dropped_samples: i64 = 16_000 * 10;

    // Across that silence, 3 heartbeat chunks of 200ms each are injected to the
    // provider (so provider_samples_sent does advance, just not with real audio).
    let heartbeat_samples: i64 = 16_000 * 200 / 1000; // 3_200 samples per beat

    // Checkpoint 1: after first heartbeat sent (provider has been sent 3_200
    // samples so far). Silence dropped-so-far is still the full 10s (all of it
    // predates any sending), heartbeat injected-so-far is 1 beat.
    mapper.record_checkpoint(3_200, total_dropped_samples - heartbeat_samples);
    // Checkpoint 2: after second heartbeat.
    mapper.record_checkpoint(6_400, total_dropped_samples - 2 * heartbeat_samples);
    // Checkpoint 3: after third heartbeat, silence region ends here.
    mapper.record_checkpoint(9_600, total_dropped_samples - 3 * heartbeat_samples);

    // Speech begins right after: a transcript at provider_relative_ms
    // corresponding to, say, 9_600 + 4_800 = 14_400 samples sent (900ms).
    let provider_relative_ms = 900;
    let expected_offset_samples = total_dropped_samples - 3 * heartbeat_samples;
    let expected_offset_ms = expected_offset_samples * 1000 / 16_000;

    assert_eq!(
        mapper.to_wallclock_ms(provider_relative_ms),
        (provider_relative_ms as i64 + expected_offset_ms) as u64
    );

    // Sanity: with 10s dropped and only 600ms injected total, the net offset
    // should be a large positive number (timestamps run well behind wall-clock).
    assert!(expected_offset_ms > 9_000);
}

#[test]
fn later_media_times_do_not_come_out_earlier() {
    let at = |value: i64| cmtime_to_ns(CMTimeLike { value, timescale: 44_100 }).unwrap();
    assert_eq!(at(1), 22_675);
    assert_eq!(at(44_100), 1_000_000_000);
    assert!(at(1) <= at(2) && at(2) <= at(44_099) && at(44_099) <= at(44_100));
}

#[test]
fn a_media_time_before_the_epoch_is_none_however_close_to_it() {
    assert_eq!(cmtime_to_ns(CMTimeLike { value: -1, timescale: 2_000_000_000 }), None);
    assert_eq!(cmtime_to_ns(CMTimeLike { value: -1, timescale: 1 }), None);
    assert_eq!(cmtime_to_ns(CMTimeLike { value: i64::MIN, timescale: i32::MAX }), None);
    assert_eq!(cmtime_to_ns(CMTimeLike { value: 0, timescale: 2_000_000_000 }), Some(0));
    assert_eq!(cmtime_to_ns(CMTimeLike { value: 1, timescale: 2_000_000_000 }), Some(0));
}

#[test]
fn a_media_time_beyond_the_range_is_none() {
    assert_eq!(cmtime_to_ns(CMTimeLike { value: i64::MAX, timescale: 1 }), None);
}

#[test]
fn sample_offsets_round_to_the_nearest_millisecond() {
    assert_eq!(signed_samples_to_ms(0, 16_000), 0);
    assert_eq!(signed_samples_to_ms(7, 16_000), 0);
    assert_eq!(signed_samples_to_ms(8, 16_000), 1);
    assert_eq!(signed_samples_to_ms(-8, 16_000), -1);
    assert_eq!(signed_samples_to_ms(24, 16_000), 2);
    assert_eq!(signed_samples_to_ms(16_000, 16_000), 1_000);
}

#[test]
fn corrected_times_never_go_below_zero() {
    let mut mapper = TimestampMapper::new(1_000);
    mapper.record_checkpoint(0, -500);
    assert_eq!(mapper.to_wallclock_ms(200), 0);
    assert_eq!(mapper.to_wallclock_ms(700), 200);
}

#[test]
fn a_checkpoint_applies_from_its_own_position_on() {
    let mut mapper = TimestampMapper::new(1_000);
    mapper.record_checkpoint(100, 50);
    assert_eq!(mapper.to_wallclock_ms(99), 99);
    assert_eq!(mapper.to_wallclock_ms(100), 150);
}
