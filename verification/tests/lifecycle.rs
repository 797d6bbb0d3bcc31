//! Sessions from begin to end: uploads, finalizing, recovery, and the pipeline.

use meeting_recorder::domain::{AudioSegment, SessionId, TrackKind};
use meeting_recorder::error::AppServiceError;
use meeting_recorder::pipeline::{
    commit_and_upload_track, finalize_local_only_session, first_segment_step, next_segment_step,
    run_pipeline, total_duration_ms, PipelineEvent, PipelineStep, SegmentEvent, SegmentStep,
};
use meeting_recorder::session_lifecycle::{
    begin_recovery, begin_session, end_session, estimate_total_duration_ms, finalize_and_upload,
    next_end_step, recover_incomplete_sessions, state_to_record, CaptureState, EndStep,
    RecoveryStep,
};
use meeting_recorder::upload_worker::{
    note_attempt, state_after_attempt, upload_pending_once, UploadDrain, UploadFailure,
    UploadPassSummary, UploadState,
};

fn failure(is_retryable: bool, needs_token_refresh: bool) -> UploadFailure {
    UploadFailure { message: "why".to_string(), is_retryable, needs_token_refresh }
}

fn failed(retryable: bool) -> UploadState {
    UploadState::Failed { retryable, reason: "why".to_string() }
}

#[test]
fn an_upload_is_retried_where_time_or_a_new_token_may_help() {
    assert_eq!(state_after_attempt(Ok(())), UploadState::Completed);
    assert_eq!(state_after_attempt(Err(failure(true, false))), failed(true));
    assert_eq!(state_after_attempt(Err(failure(false, true))), failed(true));
    assert_eq!(state_after_attempt(Err(failure(false, false))), failed(false));
}

#[test]
fn a_pass_counts_what_it_did() {
    let (summary, states) = upload_pending_once(vec![
        Ok(()),
        Err(failure(true, false)),
        Ok(()),
        Err(failure(false, false)),
        Ok(()),
    ]);
    assert_eq!(summary, UploadPassSummary { uploaded: 3, failed: 2 });
    assert_eq!(
        states,
        vec![
            UploadState::Completed,
            failed(true),
            UploadState::Completed,
            failed(false),
            UploadState::Completed,
        ]
    );
    let mut counted = UploadPassSummary::default();
    note_attempt(&mut counted, Ok(()));
    assert_eq!(counted, UploadPassSummary { uploaded: 1, failed: 0 });
    // Only the count that grows needs room.
    let mut full = UploadPassSummary { uploaded: u32::MAX, failed: 0 };
    note_attempt(&mut full, Err(failure(true, false)));
    assert_eq!(full, UploadPassSummary { uploaded: u32::MAX, failed: 1 });
}

#[test]
fn passes_are_repeated_until_nothing_is_pending() {
    let pass = UploadPassSummary { uploaded: 2, failed: 1 };
    let mut drain = UploadDrain::new(10);
    assert!(drain.next_pass());
    assert!(drain.pass_done(pass, true));
    assert!(drain.next_pass());
    assert!(!drain.pass_done(pass, false));
    assert!(!drain.next_pass());
    assert_eq!(drain.total, UploadPassSummary { uploaded: 4, failed: 2 });
}

#[test]
fn passes_are_not_repeated_forever() {
    let mut drain = UploadDrain::new(3);
    let mut passes = 0;
    while drain.next_pass() {
        passes += 1;
        assert!(drain.pass_done(UploadPassSummary { uploaded: 0, failed: 1 }, true));
    }
    assert_eq!(passes, 3);
    assert_eq!(drain.total.failed, 3);
    assert!(!UploadDrain::new(0).next_pass());
}

#[test]
fn a_recording_starts_with_or_without_the_remote_service() {
    let registered = begin_session(Ok("remote-1".to_string()));
    assert_eq!(registered.remote_session_id, Some("remote-1".to_string()));
    assert_eq!(registered.state, CaptureState::Recording);
    let local = begin_session(Err("offline".to_string()));
    assert_eq!(local.remote_session_id, None);
    assert_eq!(local.state, CaptureState::Recording);
}

#[test]
fn a_session_ends_step_by_step() {
    let mut step = end_session();
    let mut steps = vec![step];
    while step != EndStep::Done {
        step = next_end_step(step, Ok(())).unwrap();
        steps.push(step);
    }
    assert_eq!(
        steps,
        vec![
            EndStep::MarkStopping,
            EndStep::MarkFinalizing,
            EndStep::DrainUploads,
            EndStep::FinalizeRemote,
            EndStep::MarkFinalized,
            EndStep::Done,
        ]
    );
    let states: Vec<Option<CaptureState>> = steps.into_iter().map(state_to_record).collect();
    assert_eq!(
        states,
        vec![
            Some(CaptureState::Stopping),
            Some(CaptureState::Finalizing),
            None,
            None,
            Some(CaptureState::Finalized),
            None,
        ]
    );
    assert_eq!(finalize_and_upload(), EndStep::DrainUploads);
}

#[test]
fn an_error_keeps_a_session_from_being_finalized() {
    let error = AppServiceError::Upload("503".to_string());
    let result = next_end_step(EndStep::FinalizeRemote, Err(error));
    assert_eq!(result, Err(AppServiceError::Upload("503".to_string())));
}

#[test]
fn errors_name_the_part_they_come_from() {
    let text = || "x".to_string();
    assert_eq!(AppServiceError::SegmentStore(text()).message(), "segment-store error: x");
    assert_eq!(AppServiceError::SessionStore(text()).message(), "session-store error: x");
    assert_eq!(AppServiceError::Upload(text()).message(), "upload error: x");
    assert_eq!(AppServiceError::Capture(text()).message(), "capture error: x");
}

#[test]
fn every_unfinished_session_is_recovered_once() {
    let ids = |list: &[u128]| list.iter().map(|&n| SessionId(n)).collect::<Vec<_>>();
    let mut recovery = recover_incomplete_sessions(ids(&[3, 1]), ids(&[1, 2, 2, 4]));
    assert_eq!(recovery.sessions, ids(&[3, 1, 2, 4]));
    let mut visited = Vec::new();
    while let Some(session_id) = recovery.current() {
        visited.push(session_id);
        recovery.dealt(session_id != SessionId(1));
    }
    assert_eq!(visited, ids(&[3, 1, 2, 4]));
    assert_eq!(recovery.finalized, ids(&[3, 2, 4]));
    assert_eq!(recover_incomplete_sessions(ids(&[]), ids(&[])).current(), None);
}

#[test]
fn recovery_registers_what_was_never_registered() {
    assert_eq!(
        begin_recovery(Some("r".to_string()), true),
        RecoveryStep::Finalize { remote_session_id: "r".to_string() }
    );
    assert_eq!(begin_recovery(None, true), RecoveryStep::Register);
    assert_eq!(begin_recovery(None, false), RecoveryStep::Skip);
    assert_eq!(
        meeting_recorder::session_lifecycle::try_register_remote_session(Ok("r".to_string())),
        RecoveryStep::Finalize { remote_session_id: "r".to_string() }
    );
    assert_eq!(
        meeting_recorder::session_lifecycle::try_register_remote_session(Err("no".to_string())),
        RecoveryStep::Skip
    );
}

fn segment(track: TrackKind, start_ms: u64, duration_ms: u32) -> AudioSegment {
    AudioSegment {
        session_id: SessionId(1),
        track,
        sequence: 0,
        timeline_start_ms: start_ms,
        duration_ms,
        local_path: String::new(),
    }
}

#[test]
fn the_length_of_a_session_is_its_latest_segment_end() {
    let own = [segment(TrackKind::SelfMic, 0, 30_000), segment(TrackKind::SelfMic, 30_000, 500)];
    let remote = [segment(TrackKind::RemoteAudio, 0, 30_000)];
    assert_eq!(estimate_total_duration_ms(&own, &remote, 30_000), 30_500);
    assert_eq!(estimate_total_duration_ms(&remote, &own, 30_000), 30_500);
    assert_eq!(estimate_total_duration_ms(&[], &[], 30_000), 30_000);
}

#[test]
fn both_tracks_are_committed_before_the_end() {
    let began = run_pipeline(PipelineStep::Begin, PipelineEvent::Began { registered: true });
    assert_eq!(
        began,
        PipelineStep::CommitTrack { track: TrackKind::SelfMic, registered: true }
    );
    let next = run_pipeline(began, PipelineEvent::TrackCommitted);
    assert_eq!(
        next,
        PipelineStep::CommitTrack { track: TrackKind::RemoteAudio, registered: true }
    );
    assert_eq!(run_pipeline(next, PipelineEvent::TrackCommitted), PipelineStep::EndSession);
}

#[test]
fn a_session_without_registration_gets_a_second_chance() {
    let began = run_pipeline(PipelineStep::Begin, PipelineEvent::Began { registered: false });
    let next = run_pipeline(began, PipelineEvent::TrackCommitted);
    let late = run_pipeline(next, PipelineEvent::TrackCommitted);
    assert_eq!(late, PipelineStep::RegisterLate);
    assert_eq!(
        run_pipeline(late, PipelineEvent::TriedLate { registered: true }),
        PipelineStep::EndSession
    );
    assert_eq!(
        run_pipeline(late, PipelineEvent::TriedLate { registered: false }),
        PipelineStep::FinishLocally
    );
    assert_eq!(run_pipeline(late, PipelineEvent::TrackCommitted), late);
    let register = meeting_recorder::pipeline::try_register_remote_session;
    assert_eq!(register(Ok("r".to_string()), true), Some("r".to_string()));
    assert_eq!(register(Ok("r".to_string()), false), None);
    assert_eq!(register(Err("no".to_string()), true), None);
}

#[test]
fn a_local_only_session_stays_recoverable() {
    assert_eq!(
        finalize_local_only_session(),
        CaptureState::Failed {
            recoverable: true,
            reason: "remote session was never registered; segments captured locally only"
                .to_string(),
        }
    );
}

#[test]
fn a_track_is_committed_segment_by_segment() {
    let pcm: Vec<i16> = (0..25).collect();
    let requests =
        commit_and_upload_track(SessionId(8), TrackKind::RemoteAudio, &pcm, 10, 1_000);
    assert_eq!(requests.len(), 3);
    assert_eq!(requests[2].pcm, &pcm[20..]);
    assert_eq!((requests[1].sequence, requests[1].timeline_start_ms), (1, 1_000));
    assert!(requests.iter().all(|r| r.channels == 1 && r.sample_rate == 10));
    assert_eq!(total_duration_ms(2_999_999), 2);
}

#[test]
fn a_failed_upload_does_not_hold_up_the_next_segment() {
    let mut step = first_segment_step(2);
    let mut steps = Vec::new();
    while step != SegmentStep::Finished {
        let event = match step {
            SegmentStep::Upload { .. } => SegmentEvent::Attempted(Err(failure(true, false))),
            _ => SegmentEvent::Done,
        };
        let shown = format!("{step:?}");
        steps.push(shown.split(' ').next().unwrap().to_string());
        step = next_segment_step(step, event, 2, true);
    }
    assert_eq!(
        steps,
        vec![
            "Commit", "MarkUploading", "Upload", "Record", "Commit", "MarkUploading", "Upload",
            "Record"
        ]
    );
    let recorded = next_segment_step(
        SegmentStep::Upload { sequence: 1 },
        SegmentEvent::Attempted(Err(failure(true, false))),
        2,
        true,
    );
    assert_eq!(recorded, SegmentStep::Record { sequence: 1, state: failed(true) });
}

#[test]
fn an_unregistered_session_only_commits() {
    let first = first_segment_step(2);
    let second = next_segment_step(first, SegmentEvent::Done, 2, false);
    assert_eq!(second, SegmentStep::Commit { sequence: 1 });
    assert_eq!(next_segment_step(second, SegmentEvent::Done, 2, false), SegmentStep::Finished);
    assert_eq!(first_segment_step(0), SegmentStep::Finished);
}
