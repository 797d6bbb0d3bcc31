//! Live transcription: status, reconnecting, the remote track's clock, and what is kept.

use meeting_recorder::domain::{SessionId, TrackKind, TranscriptSegment, Word};
use meeting_recorder::live_transcription::persist::{
    corrected_ms, note_event, persist_event, persist_pending_interim, publish_transcript_event,
    Finality, PendingInterim, SttEvent, TranscriptUpdate,
};
use meeting_recorder::live_transcription::reconnect::{
    is_disconnect_retryable, reconnect_backoff, GapClosing, ReconnectState,
};
use meeting_recorder::live_transcription::remote::{
    ChunkPlan, KeepAliveEffect, RemoteGateState,
};
use meeting_recorder::live_transcription::session::{AttemptOutcome, LiveTranscription};
use meeting_recorder::live_transcription::{
    build_stt_provider, note_start, selected_provider, set_both_status, set_status, speaker_label,
    status_before_connecting, target_sample_rate_hz, StartOutcome, SttFailure,
    SttProviderFactoryError, TrackTranscriptionStatus, TranscriptionStatus,
};
use meeting_recorder::silence_gate::{GateAction, GateConfig, SilenceGate, WindowLevel};
use meeting_recorder::stt_provider_kind::{
    SttProviderKind, CREDENTIAL_SERVICE, SELECTED_STT_PROVIDER_ACCOUNT,
};
use meeting_recorder::timestamp_mapper::TimestampMapper;

const SESSION: SessionId = SessionId(42);
const MS: u64 = 1_000_000;
const SECOND: u64 = 1_000_000_000;

const EVERY_KIND: [SttProviderKind; 4] = [
    SttProviderKind::Deepgram,
    SttProviderKind::OpenAi,
    SttProviderKind::Google,
    SttProviderKind::AssemblyAi,
];

fn transient(message: &str) -> Option<SttFailure> {
    Some(SttFailure { message: message.to_string(), retryable: true })
}

fn permanent(message: &str) -> Option<SttFailure> {
    Some(SttFailure { message: message.to_string(), retryable: false })
}

fn error(message: &str) -> TrackTranscriptionStatus {
    TrackTranscriptionStatus::Error(message.to_string())
}

fn partial(text: &str, start: u64, end: u64) -> SttEvent {
    SttEvent::PartialTranscript {
        text: text.to_string(),
        audio_start_ms: Some(start),
        audio_end_ms: Some(end),
    }
}

fn finished(text: &str, start: u64, end: u64) -> SttEvent {
    SttEvent::FinalTranscript {
        text: text.to_string(),
        words: None,
        audio_start_ms: Some(start),
        audio_end_ms: Some(end),
    }
}

// Status.

#[test]
fn set_status_updates_only_the_named_track() {
    let mut status = TranscriptionStatus::default();
    set_status(&mut status, TrackKind::SelfMic, TrackTranscriptionStatus::Connected);
    assert_eq!(status.self_status, TrackTranscriptionStatus::Connected);
    assert_eq!(status.remote_status, TrackTranscriptionStatus::NotConfigured);
}

#[test]
fn set_both_status_updates_both_tracks() {
    let mut status = TranscriptionStatus::default();
    set_both_status(&mut status, TrackTranscriptionStatus::Connecting);
    assert_eq!(status.self_status, TrackTranscriptionStatus::Connecting);
    assert_eq!(status.remote_status, TrackTranscriptionStatus::Connecting);
}

#[test]
fn start_session_with_timeout_reports_error_status_instead_of_hanging_forever() {
    let mut status = TranscriptionStatus::default();
    let connected = note_start(
        &mut status,
        TrackKind::SelfMic,
        StartOutcome::TimedOut { error: "timed out".to_string() },
    );
    assert!(!connected);
    assert_eq!(status.self_status, error("timed out"));
    assert_eq!(
        status.remote_status,
        TrackTranscriptionStatus::NotConfigured,
        "only the named track's status is touched"
    );
}

#[test]
fn a_session_that_opens_is_reported_as_connected() {
    let mut status = status_before_connecting(true, true);
    assert_eq!(status.self_status, TrackTranscriptionStatus::Connecting);
    assert!(note_start(&mut status, TrackKind::RemoteAudio, StartOutcome::Connected));
    assert_eq!(status.remote_status, TrackTranscriptionStatus::Connected);
    assert!(!note_start(
        &mut status,
        TrackKind::SelfMic,
        StartOutcome::Failed { error: "refused".to_string() }
    ));
    assert_eq!(status.self_status, error("refused"));
}

#[test]
fn without_a_store_or_a_provider_nothing_is_configured() {
    let unconfigured = TranscriptionStatus::default();
    assert_eq!(status_before_connecting(false, false), unconfigured);
    assert_eq!(status_before_connecting(true, false), unconfigured);
    assert_eq!(status_before_connecting(false, true), unconfigured);
}

// Providers.

#[test]
fn target_sample_rate_hz_pins_openai_and_assemblyai_leaves_others_at_capture_rate() {
    assert_eq!(target_sample_rate_hz(SttProviderKind::OpenAi, 48_000), 24_000);
    assert_eq!(target_sample_rate_hz(SttProviderKind::AssemblyAi, 48_000), 16_000);
    assert_eq!(target_sample_rate_hz(SttProviderKind::Deepgram, 48_000), 48_000);
    assert_eq!(target_sample_rate_hz(SttProviderKind::Google, 48_000), 48_000);
}

#[test]
fn build_stt_provider_reports_credential_missing_for_every_kind_when_store_is_empty() {
    for kind in EVERY_KIND {
        let Err(err) = build_stt_provider(kind, Err("not found".to_string()), None) else {
            panic!("expected CredentialMissing for {kind:?}")
        };
        assert!(
            matches!(err, SttProviderFactoryError::CredentialMissing { kind: k, .. } if k == kind)
        );
    }
}

#[test]
fn build_stt_provider_constructs_openai_and_assemblyai_from_a_bare_api_key() {
    assert!(build_stt_provider(SttProviderKind::OpenAi, Ok("sk-test".to_string()), None).is_ok());
    // A bare key is not read as a document.
    assert_eq!(
        build_stt_provider(
            SttProviderKind::AssemblyAi,
            Ok("aai-test".to_string()),
            Some("not json".to_string())
        ),
        Ok("aai-test".to_string())
    );
}

#[test]
fn build_stt_provider_constructs_google_from_valid_credentials_json() {
    let json = "{\"project\":\"my-project\"}".to_string();
    assert!(build_stt_provider(SttProviderKind::Google, Ok(json), None).is_ok());
}

#[test]
fn build_stt_provider_reports_invalid_credential_for_malformed_google_json() {
    let Err(err) = build_stt_provider(
        SttProviderKind::Google,
        Ok("not json".to_string()),
        Some("expected ident".to_string()),
    ) else {
        panic!("expected InvalidCredential")
    };
    assert!(matches!(
        err,
        SttProviderFactoryError::InvalidCredential { kind: SttProviderKind::Google, .. }
    ));
    assert_eq!(
        err.message(),
        "stored credential for STT provider Google is not valid: expected ident"
    );
}

#[test]
fn a_missing_credential_names_its_provider() {
    let err = build_stt_provider(SttProviderKind::Deepgram, Err("no entry".to_string()), None)
        .unwrap_err();
    assert_eq!(err.message(), "no credential configured for STT provider Deepgram: no entry");
}

#[test]
fn the_stored_selection_is_read_back() {
    for kind in EVERY_KIND {
        assert_eq!(SttProviderKind::from_account_value(kind.as_account_value()), Some(kind));
        assert_eq!(selected_provider(Some(kind.as_account_value())), kind);
    }
    assert_eq!(selected_provider(Some("somebody else")), SttProviderKind::Deepgram);
    assert_eq!(selected_provider(None), SttProviderKind::Deepgram);
    assert_eq!(SttProviderKind::from_account_value("openai"), Some(SttProviderKind::OpenAi));
    assert_eq!(CREDENTIAL_SERVICE, "1on1-recorder");
    assert_eq!(SELECTED_STT_PROVIDER_ACCOUNT, "stt-selected-provider");
}

#[test]
fn speakers_are_numbered_from_one() {
    assert_eq!(speaker_label(Some(TrackKind::SelfMic), None), "自分");
    assert_eq!(speaker_label(Some(TrackKind::RemoteAudio), Some(0)), "相手 (話者1)");
    assert_eq!(speaker_label(None, Some(11)), "不明 (話者12)");
}

// Events.

#[test]
fn note_event_tracks_the_latest_partial_and_clears_on_final() {
    let mut last_interim = None;
    note_event(&mut last_interim, &partial("hel", 0, 100));
    assert!(last_interim.is_some());
    note_event(&mut last_interim, &SttEvent::SpeechEnded);
    assert!(last_interim.is_some());
    note_event(&mut last_interim, &finished("hello", 0, 200));
    assert!(last_interim.is_none());
}

#[test]
fn corrected_ms_passes_through_unchanged_without_a_mapper() {
    assert_eq!(corrected_ms(Some(300), None), Some(300));
    assert_eq!(corrected_ms(None, None), None);
}

#[test]
fn corrected_ms_applies_the_mapper_when_given() {
    let mut mapper = TimestampMapper::new(100);
    mapper.record_checkpoint(0, 80); // 80 samples @ 100Hz = 800ms.
    assert_eq!(corrected_ms(Some(300), Some(&mapper)), Some(1_100));
    assert_eq!(corrected_ms(None, Some(&mapper)), None);
}

#[test]
fn persist_pending_interim_inserts_a_final_segment() {
    let pending = PendingInterim {
        text: "こんにち".to_string(),
        audio_start_ms: Some(10),
        audio_end_ms: Some(500),
    };
    let segment =
        persist_pending_interim(SESSION, TrackKind::SelfMic, Some(pending), None).unwrap();
    assert!(segment.is_final);
    assert_eq!(segment.text, "こんにち");
    assert_eq!(segment.track, Some(TrackKind::SelfMic));
    assert_eq!((segment.start_ms, segment.end_ms), (Some(10), Some(500)));
}

#[test]
fn persist_pending_interim_skips_when_none_or_blank() {
    assert!(persist_pending_interim(SESSION, TrackKind::SelfMic, None, None).is_none());
    for blank in ["   ", "", "\u{3000}\t\n"] {
        let pending = PendingInterim {
            text: blank.to_string(),
            audio_start_ms: None,
            audio_end_ms: None,
        };
        assert!(persist_pending_interim(SESSION, TrackKind::SelfMic, Some(pending), None).is_none());
    }
}

#[test]
fn a_final_transcript_takes_the_speaker_of_its_first_word() {
    let spoken = |speaker: Option<u32>| Word {
        text: "w".to_string(),
        start_ms: None,
        end_ms: None,
        speaker,
    };
    let event = SttEvent::FinalTranscript {
        text: "hi".to_string(),
        words: Some(vec![spoken(Some(2)), spoken(Some(3))]),
        audio_start_ms: Some(1),
        audio_end_ms: None,
    };
    let mut counter = 5;
    let mut revision = 3;
    let stored =
        persist_event(SESSION, TrackKind::RemoteAudio, event, None, &mut counter, &mut revision)
            .unwrap();
    assert_eq!(
        stored.segment,
        TranscriptSegment {
            session_id: SESSION,
            track: Some(TrackKind::RemoteAudio),
            speaker: Some(2),
            text: "hi".to_string(),
            start_ms: Some(1),
            end_ms: None,
            is_final: true,
            is_retranscribed: false,
        }
    );
    assert_eq!((stored.segment_number, stored.finality, counter), (5, Finality::Final, 6));
    assert_eq!((stored.revision, revision), (3, 0));
}

#[test]
fn updates_of_one_segment_share_its_number() {
    let mut counter = 0;
    let mut revision = 0;
    let mut number = |event: SttEvent| {
        persist_event(SESSION, TrackKind::SelfMic, event, None, &mut counter, &mut revision)
            .map(|stored| (stored.segment_number, stored.revision))
    };
    assert_eq!(number(partial("a", 0, 1)), Some((0, 0)));
    assert_eq!(number(partial("a b", 0, 2)), Some((0, 1)));
    assert_eq!(number(SttEvent::SpeechStarted), None);
    assert_eq!(number(finished("a b c", 0, 3)), Some((0, 2)));
    assert_eq!(number(partial("d", 3, 4)), Some((1, 0)));
}

#[test]
fn interim_updates_reuse_the_segment_id_with_a_higher_revision() {
    let mut live = live(false);
    let mut update = |track: TrackKind, event: SttEvent| {
        let stored = live.on_event(track, event, 0).persisted.unwrap();
        let updates = publish_transcript_event(
            SESSION,
            track,
            &stored.segment,
            stored.finality,
            format!("{track:?}-{}", stored.segment_number),
            stored.revision,
        );
        let TranscriptUpdate::SegmentUpdated { data, .. } = &updates[0] else {
            panic!("expected SegmentUpdated")
        };
        (data.segment_id.clone(), data.revision)
    };
    let p1 = update(TrackKind::SelfMic, partial("a", 0, 1));
    let p2 = update(TrackKind::SelfMic, partial("a b", 0, 2));
    let other = update(TrackKind::RemoteAudio, partial("x", 0, 2));
    let f = update(TrackKind::SelfMic, finished("a b c", 0, 3));
    let p3 = update(TrackKind::SelfMic, partial("d", 3, 4));
    assert_eq!(p1, ("SelfMic-0".to_string(), 0));
    assert_eq!(p2, ("SelfMic-0".to_string(), 1));
    assert_eq!(other, ("RemoteAudio-0".to_string(), 0));
    assert_eq!(f, ("SelfMic-0".to_string(), 2));
    assert_eq!(p3, ("SelfMic-1".to_string(), 0));
}

#[test]
fn a_session_that_dies_between_updates_does_not_turn_revisions_back() {
    let mut live = live(false);
    let first = live.on_event(TrackKind::SelfMic, partial("a", 0, 1), 0).persisted.unwrap();
    live.events_closed(TrackKind::SelfMic, SECOND);
    let second = live.on_event(TrackKind::SelfMic, partial("b", 0, 1), SECOND).persisted.unwrap();
    assert_eq!((first.segment_number, first.revision), (0, 0));
    assert_eq!((second.segment_number, second.revision), (0, 1));
}

#[test]
fn a_final_segment_is_published_twice() {
    let mut counter = 0;
    let stored =
        persist_event(
            SESSION,
            TrackKind::SelfMic,
            finished("done", 1, 2),
            None,
            &mut counter,
            &mut 0,
        )
        .unwrap();
    let updates = publish_transcript_event(
        SESSION,
        TrackKind::SelfMic,
        &stored.segment,
        stored.finality,
        "seg-0".to_string(),
        stored.revision,
    );
    assert_eq!(updates.len(), 2);
    let TranscriptUpdate::SegmentUpdated { data, finality, .. } = &updates[0] else {
        panic!("expected SegmentUpdated")
    };
    assert_eq!(*finality, Finality::Final);
    assert_eq!(data.segment_id, "seg-0");
    assert_eq!(data.speaker_label, "自分");
    assert_eq!((data.revision, data.start_ms, data.end_ms), (0, Some(1), Some(2)));
    let TranscriptUpdate::SegmentFinalized { data: finalized, session_id } = &updates[1] else {
        panic!("expected SegmentFinalized")
    };
    assert_eq!(finalized, data);
    assert_eq!(*session_id, SESSION);

    let interim = publish_transcript_event(
        SESSION,
        TrackKind::SelfMic,
        &stored.segment,
        Finality::Interim,
        "seg-0".to_string(),
        7,
    );
    assert_eq!(interim.len(), 1);
    let TranscriptUpdate::SegmentUpdated { data, .. } = &interim[0] else {
        panic!("expected SegmentUpdated")
    };
    assert_eq!(data.revision, 7);
}

// Reconnecting.

#[test]
fn reconnect_backoff_doubles_then_caps_at_30s() {
    assert_eq!(reconnect_backoff(0), 500);
    assert_eq!(reconnect_backoff(1), 1_000);
    assert_eq!(reconnect_backoff(2), 2_000);
    // 500ms * 2^6 = 32s, already past the 30s cap.
    assert_eq!(reconnect_backoff(6), 30_000);
    assert_eq!(reconnect_backoff(20), 30_000, "later attempts stay capped, not overflow");
}

#[test]
fn reconnect_state_note_disconnect_grows_backoff_and_keeps_the_original_outage_start() {
    let mut reconnect = ReconnectState::new();
    assert!(reconnect.retry_at_ns.is_none());

    reconnect.note_disconnect(7 * SECOND);
    assert_eq!(reconnect.disconnected_at_ns, Some(7 * SECOND));
    assert_eq!(reconnect.attempt, 1);
    let first_retry_at = reconnect.retry_at_ns.unwrap();
    assert_eq!(first_retry_at, 7 * SECOND + 500 * MS);

    // A failed attempt plans the next one later, but the outage still counts from its
    // beginning.
    reconnect.note_disconnect(7 * SECOND + 500 * MS);
    assert_eq!(reconnect.attempt, 2);
    assert_eq!(reconnect.disconnected_at_ns, Some(7 * SECOND));
    assert!(reconnect.retry_at_ns.unwrap() > first_retry_at);
    assert_eq!(reconnect.retry_at_ns, Some(8 * SECOND + 500 * MS));

    reconnect.reset();
    assert!(reconnect.retry_at_ns.is_none());
    assert!(reconnect.disconnected_at_ns.is_none());
    assert_eq!(reconnect.attempt, 0);
}

#[test]
fn is_disconnect_retryable_matches_stt_error_and_defaults_true_for_a_silent_channel_close() {
    assert!(is_disconnect_retryable(&None));
    assert!(is_disconnect_retryable(&transient("boom")));
    assert!(!is_disconnect_retryable(&permanent("bad key")));
}

#[test]
fn note_disconnect_and_maybe_reconnect_arms_for_retryable_and_gives_up_for_permanent_errors() {
    let mut retryable = ReconnectState::new();
    let gap = retryable.note_disconnect_and_maybe_reconnect(&transient("timeout"), 3 * SECOND);
    assert!(retryable.retry_at_ns.is_some(), "a retryable error must arm a reconnect");
    assert_eq!(gap, Some(3_000), "a genuinely new outage must open a gap");

    let mut permanently = ReconnectState::new();
    let gap = permanently.note_disconnect_and_maybe_reconnect(&permanent("bad key"), 3 * SECOND);
    assert!(permanently.retry_at_ns.is_none());
    assert_eq!(gap, Some(3_000), "giving up must still open a gap");
}

#[test]
fn note_disconnect_and_maybe_reconnect_does_not_rearm_while_a_reconnect_is_already_in_flight() {
    let mut reconnect = ReconnectState::new();
    reconnect.in_flight = true;
    let gap = reconnect.note_disconnect_and_maybe_reconnect(&transient("timeout"), SECOND);
    assert!(reconnect.retry_at_ns.is_none());
    assert!(gap.is_none(), "an already-armed outage must not open a second gap either");
    reconnect.abort_in_flight();
}

#[test]
fn abort_in_flight_clears_the_handle() {
    let mut reconnect = ReconnectState::new();
    reconnect.in_flight = true;
    assert!(reconnect.abort_in_flight());
    assert!(!reconnect.in_flight);
}

#[test]
fn abort_in_flight_is_a_no_op_when_nothing_is_in_flight() {
    let mut reconnect = ReconnectState::new();
    assert!(!reconnect.abort_in_flight());
    assert!(!reconnect.in_flight);
}

#[test]
fn only_outages_of_a_second_or_more_stay_on_record() {
    let closing = |end_ns: u64| {
        let mut reconnect = ReconnectState::new();
        reconnect.open_gap(9, 2_000);
        let closing = reconnect.close_open_gap(end_ns);
        assert!(reconnect.open_gap_id.is_none() && reconnect.open_gap_start_ms.is_none());
        closing
    };
    assert_eq!(closing(3 * SECOND - 1), Some(GapClosing::Discard { gap_id: 9 }));
    assert_eq!(
        closing(3 * SECOND),
        Some(GapClosing::RecordEnd { gap_id: 9, end_ms: 3_000 })
    );
    assert_eq!(ReconnectState::new().close_open_gap(SECOND), None);
}

#[test]
fn giving_up_leaves_the_gap_open() {
    let mut reconnect = ReconnectState::new();
    reconnect.note_disconnect(0);
    reconnect.open_gap(4, 0);
    reconnect.reset();
    assert_eq!(reconnect.open_gap_id, Some(4));
    assert_eq!(reconnect.open_gap_start_ms, Some(0));
}

#[test]
fn an_attempt_is_due_only_while_there_is_audio() {
    let mut reconnect = ReconnectState::new();
    reconnect.note_disconnect(0);
    assert!(!reconnect.is_due(true, 499 * MS));
    assert!(reconnect.is_due(true, 500 * MS));
    assert!(!reconnect.is_due(false, 500 * MS));
    reconnect.begin_attempt();
    assert!(!reconnect.is_due(true, 500 * MS));
}

// The remote track.

fn remote(samples_sent: u64, total_injected: u64, net_offset: i64) -> RemoteGateState<f32> {
    RemoteGateState {
        session: true,
        gate: None,
        mapper: Some(TimestampMapper::new(100)),
        samples_sent,
        total_injected,
        net_offset,
        last_active_ns: 0,
        reconnect: ReconnectState::new(),
    }
}

#[test]
fn remote_gate_state_send_gated_advances_and_checkpoints() {
    let mut remote = remote(10, 0, 0);
    assert_eq!(remote.send_gated(5, 10 * SECOND), Some(10));
    assert_eq!(remote.samples_sent, 15, "samples_sent must advance by the chunk length");
    assert_eq!(remote.last_active_ns, 10 * SECOND);
    // No drop or heartbeat yet: no offset from this point on.
    assert_eq!(remote.mapper.unwrap().to_wallclock_ms(150), 150);
}

#[test]
fn remote_gate_state_send_gated_checkpoints_at_the_provider_clock_including_injected_samples() {
    // 200 samples (2s) of heartbeat have been injected before this send.
    let mut remote = remote(0, 200, -50);
    remote.send_gated(10, 0);
    // Only real audio counts as sent.
    assert_eq!(remote.samples_sent, 10);
    let mapper = remote.mapper.unwrap();
    // 1000ms (100 samples) predates the checkpoint at 210 samples.
    assert_eq!(mapper.to_wallclock_ms(1_000), 1_000);
    // 2100ms (210 samples) does not, and picks up its -500ms offset.
    assert_eq!(mapper.to_wallclock_ms(2_100), 2_100 - 500);
}

#[test]
fn remote_gate_state_note_disconnect_clears_session_and_arms_reconnect_when_retryable() {
    let mut remote = remote(0, 0, 0);
    remote.note_disconnect(&transient("dropped"), 0);
    assert!(!remote.is_active());
    assert!(remote.reconnect.retry_at_ns.is_some());
    assert_eq!(remote.send_unconditional(10), None);
    assert_eq!(remote.samples_sent, 0);
}

#[test]
fn remote_gate_state_note_disconnect_gives_up_on_a_permanent_error() {
    let mut remote = remote(0, 0, 0);
    remote.note_disconnect(&permanent("bad key"), 0);
    assert!(!remote.is_active());
    assert!(remote.reconnect.retry_at_ns.is_none());
}

#[test]
fn remote_gate_state_apply_reconnect_offset_preserves_timestamp_continuity_across_a_reconnect() {
    // 1_000 samples (10s @ 100Hz) sent with no drops or heartbeats, then a disconnect.
    let mut remote = remote(1_000, 0, 0);
    remote.note_disconnect(&transient("dropped"), 20 * SECOND);
    assert!(!remote.is_active());

    // The outage lasts 5s.
    remote.apply_reconnect_offset(100, 25 * SECOND);
    assert!(remote.is_active());
    assert_eq!(remote.samples_sent, 0, "the new session's own send counter must restart at 0");
    assert_eq!(remote.total_injected, 0);

    // 10s of audio and 5s of outage lie before the new session's first event.
    let mapper = remote.mapper.as_ref().unwrap();
    assert_eq!(mapper.to_wallclock_ms(0), 15_000);
    assert_eq!(mapper.to_wallclock_ms(1_000), 16_000);
}

#[test]
fn remote_reconnect_flow_uses_the_full_outage_duration_for_timestamp_continuity() {
    let mut remote = remote(1_000, 0, 0);
    remote.note_disconnect(&transient("dropped"), SECOND);
    remote.reconnect.begin_attempt();
    // The first attempt fails, the second works; the outage is measured as a whole.
    remote.reconnect.abort_in_flight();
    remote.reconnect.note_disconnect(2 * SECOND);
    remote.reconnect.begin_attempt();
    remote.apply_reconnect_offset(100, 6 * SECOND);

    let mapper = remote.mapper.as_ref().unwrap();
    assert_eq!(mapper.to_wallclock_ms(0), 15_000);
    assert!(remote.reconnect.retry_at_ns.is_none());
    assert!(remote.reconnect.disconnected_at_ns.is_none());
}

#[test]
fn every_captured_sample_counts_once() {
    let mut remote = remote(0, 0, 0);
    let captured =
        |r: &RemoteGateState<f32>| (r.samples_sent + r.total_injected) as i64 + r.net_offset;
    remote.send_gated(30, 0);
    remote.record_drop(50);
    assert_eq!(captured(&remote), 80);
    remote.note_keep_alive(KeepAliveEffect::InjectedAudio { samples: 20 }, SECOND);
    assert_eq!(captured(&remote), 80);
    assert_eq!((remote.total_injected, remote.net_offset), (20, 30));
    remote.note_keep_alive(KeepAliveEffect::ControlMessage, 2 * SECOND);
    assert_eq!(remote.last_active_ns, 2 * SECOND);
    remote.note_disconnect(&transient("x"), 2 * SECOND);
    remote.apply_reconnect_offset(100, 3 * SECOND);
    assert_eq!(captured(&remote), 180);
}

#[test]
fn the_connection_is_kept_alive_after_five_idle_seconds() {
    let mut remote: RemoteGateState<f32> = RemoteGateState::new(true, true, 16_000, SECOND);
    assert!(!remote.keep_alive_if_idle(6 * SECOND - 1));
    assert!(remote.keep_alive_if_idle(6 * SECOND));
    remote.send_gated(1, 4 * SECOND);
    assert!(!remote.keep_alive_if_idle(6 * SECOND));
    remote.finalize();
    assert!(!remote.keep_alive_if_idle(100 * SECOND));
    let ungated: RemoteGateState<f32> = RemoteGateState::new(true, false, 16_000, 0);
    assert!(!ungated.keep_alive_if_idle(100 * SECOND));
    assert!(!ungated.gate_enabled() && ungated.timestamp_mapper().is_none());
}

#[test]
fn chunks_go_through_the_gate_only_where_there_is_one() {
    let loud = vec![0.5f32; 1_600];
    let speech = [WindowLevel { below_silent: false, at_speaking: true }];
    let mut ungated: RemoteGateState<f32> = RemoteGateState::new(true, false, 16_000, 0);
    assert_eq!(ungated.handle_chunk(&loud, &[]), ChunkPlan::Plain(&loud[..]));
    let mut gated: RemoteGateState<f32> = RemoteGateState::new(true, true, 16_000, 0);
    assert_eq!(
        gated.handle_chunk(&loud, &speech),
        ChunkPlan::Gated(vec![GateAction::SendStitched(loud.clone())])
    );
    assert_eq!(
        gated.handle_chunk(&loud, &speech),
        ChunkPlan::Gated(vec![GateAction::Send(&loud[..])])
    );
}

#[test]
fn remote_silence_gate_wiring_skips_silence_and_corrects_timestamps() {
    // 100 samples/sec, 10-sample (100ms) windows, 20-sample (200ms) pre-roll,
    // 30-sample (300ms) hangover.
    let config = GateConfig {
        sample_rate_hz: 100,
        vad_window_ms: 100,
        hangover_ms: 300,
        pre_roll_ms: 200,
    };
    let mut remote = remote(0, 0, 0);
    remote.gate = Some(SilenceGate::new(config));

    let apply = |remote: &mut RemoteGateState<f32>, samples: &[f32], at_speaking: bool| {
        let level = WindowLevel { below_silent: !at_speaking, at_speaking };
        let windows = remote.gate.as_ref().unwrap().windows(samples.len()).len();
        let ChunkPlan::Gated(actions) = remote.handle_chunk(samples, &vec![level; windows]) else {
            panic!("the silence gate is enabled")
        };
        for action in actions {
            match action {
                GateAction::Send(pcm) => {
                    remote.send_gated(pcm.len(), 0);
                }
                GateAction::SendStitched(pcm) => {
                    remote.send_gated(pcm.len(), 0);
                }
                GateAction::Drop { sample_count } => remote.record_drop(sample_count),
            }
        }
    };

    // 1s of leading silence drops 80 of the 100 samples (the trailing 20 stay buffered
    // as pre-roll).
    apply(&mut remote, &[0.0; 100], false);
    assert_eq!(remote.net_offset, 80, "800ms of leading silence must be counted as dropped");
    assert_eq!(remote.samples_sent, 0, "nothing was actually sent yet");

    // Then 500ms of speech.
    apply(&mut remote, &[0.5; 50], true);
    assert_eq!(remote.samples_sent, 70, "20 pre-roll samples + 50 speech samples were sent");
    assert_eq!(remote.net_offset, 80, "no further silence was dropped once speech started");

    let mapper = remote.mapper.as_ref().unwrap();
    assert_eq!(mapper.to_wallclock_ms(300), 1_100);
    assert_eq!(mapper.to_wallclock_ms(700), 1_500);

    let stored = persist_event(
        SESSION,
        TrackKind::RemoteAudio,
        finished("hello", 300, 700),
        Some(mapper),
        &mut 0,
        &mut 0,
    )
    .unwrap();
    assert_eq!(stored.segment.start_ms, Some(1_100));
    assert_eq!(stored.segment.end_ms, Some(1_500));
}

// The whole session.

fn live(gate: bool) -> LiveTranscription<f32> {
    let Ok(live) = LiveTranscription::start(
        SESSION,
        100,
        gate,
        status_before_connecting(true, true),
        StartOutcome::Connected,
        StartOutcome::Connected,
        0,
    ) else {
        panic!("both tracks connected")
    };
    live
}

#[test]
fn nothing_runs_where_neither_track_connects() {
    let refused = |text: &str| StartOutcome::Failed { error: text.to_string() };
    let Err(status) = LiveTranscription::<f32>::start(
        SESSION,
        100,
        true,
        status_before_connecting(true, true),
        refused("a"),
        refused("b"),
        0,
    ) else {
        panic!("no track connected")
    };
    assert_eq!(status, TranscriptionStatus { self_status: error("a"), remote_status: error("b") });
}

#[test]
fn one_track_is_enough_to_run() {
    let Ok(live) = LiveTranscription::<f32>::start(
        SESSION,
        100,
        false,
        status_before_connecting(true, true),
        StartOutcome::Connected,
        StartOutcome::TimedOut { error: "late".to_string() },
        0,
    ) else {
        panic!("the self track connected")
    };
    assert!(live.is_running());
    assert!(live.self_session && !live.remote.is_active());
    assert_eq!(live.status.remote_status, error("late"));
}

#[test]
fn note_self_disconnect_clears_the_session_and_classifies_retryability() {
    let mut live = live(false);
    live.note_failure(TrackKind::SelfMic, transient("rate limited"), 0);
    assert!(!live.self_session, "the dead session must be cleared immediately");
    assert!(live.self_reconnect.retry_at_ns.is_some());
    assert_eq!(live.status.self_status, error("rate limited"));
    assert!(live.remote.is_active(), "the other track is left alone");

    let mut live = self::live(false);
    live.note_failure(TrackKind::SelfMic, permanent("nope"), 0);
    assert!(!live.self_session);
    assert!(live.self_reconnect.retry_at_ns.is_none());
}

#[test]
fn sends_follow_each_other_within_a_session() {
    let mut live = live(false);
    assert_eq!(live.send_self(10), Some(0));
    assert_eq!(live.send_self(5), Some(10));
    assert_eq!(live.send_self(1), Some(15));
    live.note_failure(TrackKind::SelfMic, transient("x"), 0);
    assert_eq!(live.send_self(7), None);
    assert!(live.begin_attempt(TrackKind::SelfMic, SECOND));
    live.attempt_finished(
        TrackKind::SelfMic,
        AttemptOutcome::Finished(StartOutcome::Connected),
        2 * SECOND,
    );
    assert_eq!(live.send_self(7), Some(0));
}

#[test]
fn attempt_reconnect_reports_connected_status_and_returns_the_session_on_success() {
    let mut live = live(false);
    let gap = live.note_failure(TrackKind::SelfMic, transient("x"), SECOND).unwrap();
    live.gap_opened(TrackKind::SelfMic, 11, gap);
    assert!(!live.begin_attempt(TrackKind::SelfMic, SECOND));
    assert!(live.begin_attempt(TrackKind::SelfMic, SECOND + 500 * MS));
    assert_eq!(live.status.self_status, TrackTranscriptionStatus::Connecting);
    let closing = live.attempt_finished(
        TrackKind::SelfMic,
        AttemptOutcome::Finished(StartOutcome::Connected),
        4 * SECOND,
    );
    assert_eq!(closing, Some(GapClosing::RecordEnd { gap_id: 11, end_ms: 4_000 }));
    assert!(live.self_session);
    assert_eq!(live.status.self_status, TrackTranscriptionStatus::Connected);
    assert_eq!(live.self_reconnect, ReconnectState::new());
}

#[test]
fn note_reconnect_failure_from_an_already_reported_start_session_error_only_arms_backoff() {
    let mut live = live(false);
    live.note_failure(TrackKind::SelfMic, transient("x"), 0);
    live.begin_attempt(TrackKind::SelfMic, SECOND);
    live.attempt_finished(
        TrackKind::SelfMic,
        AttemptOutcome::Finished(StartOutcome::Failed { error: "original".to_string() }),
        SECOND,
    );
    assert_eq!(live.self_reconnect.retry_at_ns, Some(2 * SECOND));
    assert!(!live.self_reconnect.in_flight);
    assert_eq!(live.status.self_status, error("original"));
}

#[test]
fn note_reconnect_failure_from_a_panicked_task_reports_error_status_and_arms_backoff() {
    let mut live = live(false);
    live.note_failure(TrackKind::RemoteAudio, transient("x"), 0);
    live.begin_attempt(TrackKind::RemoteAudio, SECOND);
    live.attempt_finished(
        TrackKind::RemoteAudio,
        AttemptOutcome::Lost { error: "task panicked".to_string() },
        SECOND,
    );
    assert!(live.remote.reconnect.retry_at_ns.is_some());
    assert_eq!(live.status.remote_status, error("task panicked"));
}

#[test]
fn an_outage_is_put_on_record_once() {
    let mut live = live(false);
    let failure =
        |text: &str| SttEvent::Error(SttFailure { message: text.to_string(), retryable: false });
    let first = live.on_event(TrackKind::RemoteAudio, failure("dead"), 3 * SECOND);
    assert_eq!(first.gap_start_ms, Some(3_000));
    assert!(first.persisted.is_none());
    // The track was given up on; the same death reported again opens nothing.
    let second = live.on_event(TrackKind::RemoteAudio, failure("dead again"), 4 * SECOND);
    assert_eq!(second.gap_start_ms, None);
    assert_eq!(live.status.remote_status, error("dead"));
    let closed = live.events_closed(TrackKind::RemoteAudio, 5 * SECOND);
    assert_eq!(closed.gap_start_ms, None);
}

#[test]
fn a_session_that_the_provider_closes_is_opened_anew() {
    let mut live = live(false);
    live.on_event(TrackKind::SelfMic, partial("last words", 5, 9), SECOND);
    let closed = live.events_closed(TrackKind::SelfMic, 2 * SECOND);
    assert_eq!(closed.gap_start_ms, Some(2_000));
    let kept = closed.segment.unwrap();
    assert!(kept.is_final);
    assert_eq!((kept.text.as_str(), kept.start_ms, kept.end_ms), ("last words", Some(5), Some(9)));
    assert!(!live.self_events && !live.self_session);
    assert_eq!(live.self_reconnect.retry_at_ns, Some(2 * SECOND + 500 * MS));
    // Without an error there is no new status to report.
    assert_eq!(live.status.self_status, TrackTranscriptionStatus::Connected);
}

#[test]
fn remote_events_are_corrected_and_those_of_the_self_track_are_not() {
    let mut live = live(true);
    live.remote.record_drop(80);
    let event = || finished("hello", 300, 700);
    let remote = live.on_event(TrackKind::RemoteAudio, event(), 0).persisted.unwrap();
    assert_eq!(remote.segment.start_ms, Some(1_100));
    let own = live.on_event(TrackKind::SelfMic, event(), 0).persisted.unwrap();
    assert_eq!(own.segment.start_ms, Some(300));
    assert_eq!((live.self_segment_counter, live.remote_segment_counter), (1, 1));
}

#[test]
fn remote_times_stay_on_the_wall_clock_across_a_reconnect_of_the_session() {
    let mut live = live(true);
    let remote_start = |live: &mut LiveTranscription<f32>, event: SttEvent, now_ns: u64| {
        let stored = live.on_event(TrackKind::RemoteAudio, event, now_ns).persisted.unwrap();
        (stored.segment.start_ms, stored.segment.end_ms)
    };
    // Nothing was held back yet: the provider's clock is right.
    assert_eq!(
        remote_start(&mut live, partial("a", 300, 700), 0),
        (Some(300), Some(700))
    );
    // Two seconds of silence are held back, then one second is sent.
    live.remote.record_drop(200);
    assert_eq!(live.remote.send_gated(100, 3 * SECOND), Some(0));
    assert_eq!(
        remote_start(&mut live, finished("b", 200, 900), 3 * SECOND),
        (Some(2_200), Some(2_900))
    );

    // The session dies, and is opened again four seconds later.
    let gap = live.note_failure(TrackKind::RemoteAudio, transient("gone"), 3 * SECOND).unwrap();
    live.gap_opened(TrackKind::RemoteAudio, 9, gap);
    assert!(live.begin_attempt(TrackKind::RemoteAudio, 5 * SECOND));
    live.attempt_finished(
        TrackKind::RemoteAudio,
        AttemptOutcome::Finished(StartOutcome::Connected),
        7 * SECOND,
    );
    assert!(live.remote.is_active());
    assert_eq!(live.remote.mapper.as_ref().unwrap().sample_rate_hz, 100);

    // The new provider's clock starts at zero, the recording's stands at seven seconds.
    assert_eq!(
        remote_start(&mut live, partial("c", 0, 500), 8 * SECOND),
        (Some(7_000), Some(7_500))
    );
    // What is still unconfirmed when the events end is corrected in the same way.
    let closed = live.events_closed(TrackKind::RemoteAudio, 8 * SECOND);
    let kept = closed.segment.unwrap();
    assert_eq!((kept.start_ms, kept.end_ms), (Some(7_000), Some(7_500)));
}

#[test]
fn a_session_begins_with_a_fresh_gate_and_mapper_at_its_rate() {
    let started = |gate: bool| {
        let Ok(live) = LiveTranscription::<f32>::start(
            SESSION,
            16_000,
            gate,
            status_before_connecting(true, true),
            StartOutcome::Connected,
            StartOutcome::Connected,
            5 * SECOND,
        ) else {
            panic!("both tracks connected")
        };
        live
    };
    let gated = started(true);
    let gate = gated.remote.gate.as_ref().unwrap();
    assert_eq!(
        (gate.window_samples, gate.hangover_samples, gate.pre_roll_capacity),
        (1_600, 16_000, 3_200)
    );
    assert!(gate.pre_roll.is_empty());
    let mapper = gated.remote.mapper.as_ref().unwrap();
    assert!(mapper.checkpoints.is_empty());
    assert_eq!(mapper.sample_rate_hz, 16_000);
    assert_eq!(gated.remote.last_active_ns, 5 * SECOND);
    let plain = started(false);
    assert!(plain.remote.gate.is_none() && plain.remote.mapper.is_none());
}

#[test]
fn the_end_of_the_recording_closes_everything() {
    let mut live = live(false);
    let gap = live.note_failure(TrackKind::SelfMic, transient("x"), SECOND).unwrap();
    live.gap_opened(TrackKind::SelfMic, 1, gap);
    live.begin_attempt(TrackKind::SelfMic, 2 * SECOND);
    let ending = live.end_audio(9 * SECOND);
    assert!(ending.abort_self && !ending.abort_remote);
    assert_eq!(ending.self_gap, Some(GapClosing::RecordEnd { gap_id: 1, end_ms: 9_000 }));
    assert_eq!(ending.remote_gap, None);
    assert!(!ending.finalize_self && ending.finalize_remote);
    assert_eq!(ending.update, TranscriptUpdate::SessionEnded { session_id: SESSION });
    // A result that still comes in is not used.
    let late = live.attempt_finished(
        TrackKind::SelfMic,
        AttemptOutcome::Finished(StartOutcome::Connected),
        10 * SECOND,
    );
    assert_eq!(late, None);
    assert!(!live.self_session);
    assert!(live.is_running(), "events may still come in");
    live.events_closed(TrackKind::SelfMic, 10 * SECOND);
    live.events_closed(TrackKind::RemoteAudio, 10 * SECOND);
    assert!(!live.is_running());
    assert!(!live.begin_attempt(TrackKind::RemoteAudio, 100 * SECOND));
}

#[test]
fn keeping_alive_goes_through_the_session() {
    let mut live = live(true);
    assert!(!live.keep_alive_due(4 * SECOND));
    assert!(live.keep_alive_due(5 * SECOND));
    live.note_keep_alive(KeepAliveEffect::Noop, 5 * SECOND);
    assert!(!live.keep_alive_due(9 * SECOND));
}
