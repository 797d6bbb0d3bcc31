//! The silence gate, driven with constant-level speech and silence.

use meeting_recorder::silence_gate::{
    GateAction, GateConfig, GateState, SilenceGate, WindowLevel,
};

const SPEAKING_RMS_THRESHOLD: f32 = 0.02;
const SILENT_RMS_THRESHOLD: f32 = 0.01;

// A hundred samples a second keep the arithmetic easy to read.
fn test_config() -> GateConfig {
    GateConfig {
        sample_rate_hz: 100,
        vad_window_ms: 100, // 10 samples per window
        hangover_ms: 300,   // 3 windows
        pre_roll_ms: 200,   // 2 windows / 20 samples
    }
}

fn rms(samples: &[f32]) -> f32 {
    if samples.is_empty() {
        return 0.0;
    }
    let sum: f64 = samples.iter().map(|&s| (s as f64) * (s as f64)).sum();
    (sum / samples.len() as f64).sqrt() as f32
}

fn process<'a>(gate: &mut SilenceGate<f32>, samples: &'a [f32]) -> Vec<GateAction<'a, f32>> {
    let levels: Vec<WindowLevel> = gate
        .windows(samples.len())
        .into_iter()
        .map(|(start, end)| {
            let level = rms(&samples[start..end]);
            WindowLevel {
                below_silent: level < SILENT_RMS_THRESHOLD,
                at_speaking: level >= SPEAKING_RMS_THRESHOLD,
            }
        })
        .collect();
    gate.process(samples, &levels)
}

fn speech(n: usize) -> Vec<f32> {
    vec![0.5; n]
}

fn silence(n: usize) -> Vec<f32> {
    vec![0.0; n]
}

fn total_sent_and_dropped(actions: &[GateAction<'_, f32>]) -> u64 {
    actions
        .iter()
        .map(|a| match a {
            GateAction::Send(s) => s.len() as u64,
            GateAction::SendStitched(s) => s.len() as u64,
            GateAction::Drop { sample_count } => *sample_count,
        })
        .sum()
}

#[test]
fn starts_silent_and_drops_leading_silence() {
    let mut gate = SilenceGate::new(test_config());
    // 10 windows (100 samples) of silence, well past pre-roll capacity (20
    // samples) and never triggering speech: everything should resolve to Drop.
    let input = silence(100);
    let actions = process(&mut gate, &input);
    assert!(actions
        .iter()
        .all(|a| matches!(a, GateAction::Drop { .. })));
    let dropped: u64 = actions
        .iter()
        .map(|a| match a {
            GateAction::Drop { sample_count } => *sample_count,
            _ => 0,
        })
        .sum();
    // The last pre_roll_ms (20 samples) worth is retained in the ring buffer,
    // not yet dropped, so only 100 - 20 = 80 samples are counted as dropped so
    // far.
    assert_eq!(dropped, 80);
}

#[test]
fn speaking_continues_to_send() {
    let mut gate = SilenceGate::new(test_config());
    // Get into Speaking first via a stitched transition, then feed more speech.
    let onset = speech(10);
    let _ = process(&mut gate, &onset);
    let more = speech(50);
    let actions = process(&mut gate, &more);
    assert_eq!(actions.len(), 1);
    match &actions[0] {
        GateAction::Send(s) => assert_eq!(s.len(), 50),
        other => panic!("expected Send, got {other:?}"),
    }
}

#[test]
fn long_silence_after_speech_eventually_drops() {
    let mut gate = SilenceGate::new(test_config());
    let onset = speech(50);
    let _ = process(&mut gate, &onset); // enter Speaking
    // 900ms of silence: well past hangover_ms (300ms), and past hangover's 60
    // remaining silent samples exceed the 20-sample pre-roll capacity too, so
    // some of it must actually be evicted (not just buffered) -> Drop.
    let input = silence(90);
    let actions = process(&mut gate, &input);
    assert!(
        actions.iter().any(|a| matches!(a, GateAction::Drop { .. })),
        "expected at least one Drop action, got {actions:?}"
    );
}

#[test]
fn hangover_expires_even_when_pushed_one_sample_at_a_time() {
    // The clock counts samples, so that it advances however little is pushed at once.
    let mut gate = SilenceGate::new(test_config());
    let onset = speech(50);
    let _ = process(&mut gate, &onset); // enter Speaking

    // Push far more than hangover_ms (300ms = 30 samples) worth of silence, one
    // sample at a time, and confirm the silence gate still eventually drops audio.
    let mut saw_drop = false;
    for _ in 0..90 {
        let one_sample = silence(1);
        let actions = process(&mut gate, &one_sample);
        if actions.iter().any(|a| matches!(a, GateAction::Drop { .. })) {
            saw_drop = true;
            break;
        }
    }
    assert!(
        saw_drop,
        "expected Hangover to eventually expire and drop audio even when pushed \
         one sample at a time"
    );
}

#[test]
fn short_silence_within_hangover_keeps_sending() {
    let mut gate = SilenceGate::new(test_config());
    let onset = speech(50);
    let _ = process(&mut gate, &onset); // enter Speaking
    // 20 samples = 200ms of silence: under hangover_ms (300ms) -> still Hangover,
    // which still sends (no audio dropped, nothing cut off).
    let pause = silence(20);
    let actions = process(&mut gate, &pause);
    assert!(
        !actions.iter().any(|a| matches!(a, GateAction::Drop { .. })),
        "short pause within hangover must not drop audio: {actions:?}"
    );
    let sent: u64 = actions
        .iter()
        .map(|a| match a {
            GateAction::Send(s) => s.len() as u64,
            GateAction::SendStitched(s) => s.len() as u64,
            GateAction::Drop { .. } => 0,
        })
        .sum();
    assert_eq!(sent, 20);

    // And speech resuming within the grace period goes straight back to Speaking
    // (no re-stitch, since we never actually left "sending").
    let resume = speech(10);
    let actions = process(&mut gate, &resume);
    assert_eq!(actions.len(), 1);
    assert!(matches!(actions[0], GateAction::Send(s) if s.len() == 10));
}

#[test]
fn silence_to_speaking_stitches_pre_roll() {
    let mut gate = SilenceGate::new(test_config());
    // 40 samples of silence: fills (and evicts from) the 20-sample pre-roll ring,
    // leaving exactly the most recent 20 samples buffered.
    let lead_in = silence(40);
    let _ = process(&mut gate, &lead_in);
    // Now speech starts.
    let onset = speech(10);
    let actions = process(&mut gate, &onset);
    assert_eq!(actions.len(), 1);
    match &actions[0] {
        GateAction::SendStitched(s) => {
            // 20 samples of pre-roll (silence) + 10 samples of speech.
            assert_eq!(s.len(), 30);
            assert!(s[..20].iter().all(|&x| x == 0.0));
            assert!(s[20..].iter().all(|&x| x == 0.5));
        }
        other => panic!("expected SendStitched, got {other:?}"),
    }
}

#[test]
fn single_process_call_can_span_multiple_transitions() {
    let mut gate = SilenceGate::new(test_config());
    // First half: 50 samples of silence (continuing the initial Silent state).
    // Second half: 50 samples of speech (triggers Silent -> Speaking mid-call).
    let mut input = silence(50);
    input.extend(speech(50));
    let actions = process(&mut gate, &input);

    assert!(
        actions
            .iter()
            .any(|a| matches!(a, GateAction::Drop { .. })),
        "expected a Drop for the leading silence: {actions:?}"
    );
    assert!(
        actions
            .iter()
            .any(|a| matches!(a, GateAction::SendStitched(_))),
        "expected a SendStitched for the speech onset: {actions:?}"
    );
    // Order matters: the drop (leading silence) must precede the stitched send.
    let drop_idx = actions
        .iter()
        .position(|a| matches!(a, GateAction::Drop { .. }))
        .unwrap();
    let send_idx = actions
        .iter()
        .position(|a| matches!(a, GateAction::SendStitched(_)))
        .unwrap();
    assert!(drop_idx < send_idx);
}

#[test]
fn no_pre_roll_double_counting_across_a_full_cycle() {
    let mut gate = SilenceGate::new(test_config());
    // Silence, then speech, then silence again, then speech again — exercise
    // pre-roll fill/evict/drain repeatedly.
    let mut all_actions: Vec<u64> = Vec::new();
    let mut total_input = 0usize;
    for chunk in [silence(35), speech(40), silence(60), speech(15)] {
        total_input += chunk.len();
        let actions = process(&mut gate, &chunk);
        all_actions.push(total_sent_and_dropped(&actions));
    }
    // Whatever's still sitting in the pre-roll ring at the very end hasn't been
    // reported as Drop yet and also was
    // never sent, so it's the one legitimate gap between input and
    // sent-plus-dropped.
    let accounted: u64 = all_actions.iter().sum();
    let still_buffered = gate.pre_roll.len() as u64;
    assert_eq!(accounted + still_buffered, total_input as u64);
}

#[test]
fn all_audio_is_sent_or_dropped_or_held_in_order() {
    // No two samples are alike, so each of them tells its place.
    for push in [1usize, 7, 10, 33, 150] {
        let mut gate = SilenceGate::new(test_config());
        let mut audio: Vec<f32> = Vec::new();
        for i in 0..150usize {
            let loud = (35..75).contains(&i) || i >= 135;
            audio.push(if loud { 0.5 + i as f32 * 0.001 } else { i as f32 * 0.00001 });
        }
        let mut at = 0usize;
        for chunk in audio.chunks(push) {
            let actions = process(&mut gate, chunk);
            for pair in actions.windows(2) {
                let both_sent = matches!(pair, [GateAction::Send(_), GateAction::Send(_)]);
                let both_dropped =
                    matches!(pair, [GateAction::Drop { .. }, GateAction::Drop { .. }]);
                assert!(!both_sent && !both_dropped, "{pair:?}");
            }
            for action in &actions {
                match action {
                    GateAction::Send(samples) => {
                        assert_eq!(*samples, &audio[at..at + samples.len()]);
                        at += samples.len();
                    }
                    GateAction::SendStitched(samples) => {
                        assert_eq!(samples.as_slice(), &audio[at..at + samples.len()]);
                        at += samples.len();
                    }
                    GateAction::Drop { sample_count } => at += *sample_count as usize,
                }
            }
        }
        let held: Vec<f32> = gate.pre_roll.iter().copied().collect();
        assert_eq!(held.as_slice(), &audio[at..]);
        assert!(held.len() <= 20);
    }
}

#[test]
fn empty_process_yields_no_actions() {
    let mut gate = SilenceGate::new(test_config());
    assert!(process(&mut gate, &[]).is_empty());
}

#[test]
fn the_default_gate_has_tenth_of_a_second_windows() {
    assert_eq!(
        GateConfig::default(),
        GateConfig {
            sample_rate_hz: 16_000,
            vad_window_ms: 100,
            hangover_ms: 1_000,
            pre_roll_ms: 200,
        }
    );
    let gate: SilenceGate<f32> = SilenceGate::new(GateConfig::default());
    assert_eq!(gate.windows(3_500), vec![(0, 1_600), (1_600, 3_200), (3_200, 3_500)]);
    assert_eq!(gate.state, GateState::Silent);
}

#[test]
fn borderline_audio_does_not_change_the_state() {
    // Between the two thresholds: silent stays silent, speaking stays speaking.
    let between = vec![0.015f32; 20];
    let mut silent = SilenceGate::new(test_config());
    assert!(process(&mut silent, &between).is_empty());
    assert_eq!(silent.state, GateState::Silent);
    let mut speaking = SilenceGate::new(test_config());
    process(&mut speaking, &speech(10));
    let actions = process(&mut speaking, &between);
    assert_eq!(actions, vec![GateAction::Send(&between[..])]);
    assert_eq!(speaking.state, GateState::Speaking);
}

#[test]
fn hangover_ends_with_the_window_that_reaches_it() {
    let mut gate = SilenceGate::new(test_config());
    process(&mut gate, &speech(10));
    // The level drops in the first window, which still goes out; the grace period is
    // over thirty samples after that window.
    let pause = silence(40);
    let actions = process(&mut gate, &pause);
    assert_eq!(actions, vec![GateAction::Send(&pause[..30])]);
    assert_eq!(gate.state, GateState::Silent);
    assert_eq!(gate.pre_roll.len(), 10);
}

#[test]
fn a_window_is_never_empty() {
    let gate: SilenceGate<f32> = SilenceGate::new(GateConfig {
        sample_rate_hz: 1,
        vad_window_ms: 100,
        hangover_ms: 300,
        pre_roll_ms: 200,
    });
    assert_eq!(gate.windows(2), vec![(0, 1), (1, 2)]);
}
