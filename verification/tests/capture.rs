//! Capture: frames, streams, permissions, devices and health.

use meeting_recorder::capture_error::{check_status, CaptureError, TccService};
use meeting_recorder::capture_health::{capture_health, CaptureHealth, TrackHealth};
use meeting_recorder::capture_session::{
    latest_frame_end_ns, needs_defaults, resolve_pinned_endpoint, usable_interval, PinnedChoice,
};
use meeting_recorder::capture_stream::{
    bindings, keeps_running, run_result, sample_words, stampers, start_error_service,
    worker_report, CaptureEvent, CaptureExit, CaptureThreadOutcome, StopSignal,
    StreamErrorDelegate, StreamOutputs,
};
use meeting_recorder::device_select::{
    default_endpoint, device_count, endpoint_ids, offered_devices, resolve_current_defaults,
    running_application, DeviceInfo, ReportedDevice,
};
use meeting_recorder::device_watch::{
    event_for_selector, registered_before, ApplicationWatch, ChangeGeneration, DeviceWatchEvent,
    WatchedSelectors,
};
use meeting_recorder::domain::{CapturedFrame, TrackKind};
use meeting_recorder::frame::{CapturedFrameRecord, FrameStamper};
use meeting_recorder::frame_collector::{
    qpc_to_captured_frame, qpc_to_ns, to_captured_frame, track_for_binding, DropCounter,
    FrameCollector, QpcFrameRecord, StreamFormat, StreamStart,
};
use meeting_recorder::permissions::{
    classify_lowered, classify_stream_start_error, screen_recording_status, PermissionStatus,
};
use meeting_recorder::rebinding::{
    BindingHealth, BindingKind, BindingSelection, CaptureBinding, CaptureBindingState,
    DecisionState, DeviceRole, EndpointId, EndpointSelection, OperationId, StreamEpoch, WaitReason,
};
use meeting_recorder::timestamp::CMTimeLike;

const MONO_48K: StreamFormat = StreamFormat { sample_rate: 48_000, channels: 1 };

// Elapsed time by a device's own count of samples.
fn device_elapsed_ns(position_frames: u64, sample_rate: u32) -> u64 {
    ((position_frames as f64 / sample_rate as f64) * 1_000_000_000.0) as u64
}

fn assert_tracks_of_bindings() {
    assert_eq!(track_for_binding(BindingKind::Microphone), Some(TrackKind::SelfMic));
    assert_eq!(track_for_binding(BindingKind::EndpointLoopback), Some(TrackKind::RemoteAudio));
    assert_eq!(track_for_binding(BindingKind::ProcessLoopback), None);
}

#[test]
fn macos_frame_collector_track_for_binding_maps_phase_1a_bindings_and_excludes_process_loopback() {
    assert_tracks_of_bindings();
}

#[test]
fn windows_frame_collector_track_for_binding_maps_phase_1a_bindings_and_excludes_process_loopback()
{
    assert_tracks_of_bindings();
}

fn record(capture_time_ns: u64, device_position_frames: u64) -> CapturedFrameRecord {
    CapturedFrameRecord::from_raw(
        BindingKind::Microphone,
        1,
        capture_time_ns,
        device_position_frames,
        960,
        false,
        false,
        0,
        None,
    )
}

fn qpc_record(device_position_frames: u64, capture_qpc_100ns: u64) -> QpcFrameRecord {
    QpcFrameRecord {
        stream: BindingKind::Microphone,
        capture_epoch: 0,
        device_position_frames,
        capture_qpc_100ns,
        discontinuity: false,
    }
}

#[test]
fn to_captured_frame_passes_through_capture_time_ns_unchanged() {
    let record = record(1_234_500, 0);
    let frame =
        to_captured_frame(TrackKind::SelfMic, &record, vec![0.0f32; 960], MONO_48K, 0);
    assert_eq!(frame.host_time_ns, 1_234_500);
    assert!(!record.timestamp_error);
}

#[test]
fn macos_frame_collector_to_captured_frame_derives_source_time_from_device_position() {
    let record = record(0, 48_000);
    let elapsed = device_elapsed_ns(record.device_position_frames, 48_000);
    let frame =
        to_captured_frame(TrackKind::SelfMic, &record, vec![0.0f32; 960], MONO_48K, elapsed);
    assert_eq!(frame.source_time_ns, Some(1_000_000_000));
}

#[test]
fn to_captured_frame_converts_qpc_100ns_to_nanoseconds() {
    let frame = qpc_to_captured_frame(
        TrackKind::SelfMic,
        &qpc_record(0, 12_345),
        vec![0.0f32; 960],
        MONO_48K,
        0,
    );
    assert_eq!(frame.host_time_ns, 1_234_500);
    assert_eq!(qpc_to_ns(u64::MAX), u64::MAX);
}

#[test]
fn windows_frame_collector_to_captured_frame_derives_source_time_from_device_position() {
    let record = qpc_record(48_000, 0);
    let elapsed = device_elapsed_ns(record.device_position_frames, 48_000);
    let frame =
        qpc_to_captured_frame(TrackKind::SelfMic, &record, vec![0.0f32; 960], MONO_48K, elapsed);
    assert_eq!(frame.source_time_ns, Some(1_000_000_000));
}

#[test]
fn a_stream_without_a_rate_has_no_device_time() {
    let silent = StreamFormat { sample_rate: 0, channels: 2 };
    let frame = to_captured_frame(TrackKind::RemoteAudio, &record(5, 6), vec![1u8], silent, 7);
    assert_eq!(frame.source_time_ns, None);
    assert_eq!((frame.sample_rate, frame.channels, frame.track), (0, 2, TrackKind::RemoteAudio));
}

// Collects three microphone frames and hands each on to a consumer with room for
// `capacity` chunks. Returns how many frames were collected and handed on.
fn collect_three(capacity: usize) -> (usize, usize, u64) {
    let mut collector: FrameCollector<f32> = FrameCollector::new();
    let mut consumer: Vec<(TrackKind, Vec<f32>, u32)> = Vec::new();
    let mut drops = DropCounter::new();
    collector.stream_started(
        BindingKind::Microphone,
        StreamStart { format: MONO_48K, nominal_frame_interval_ns: 10_000_000 },
    );
    for packet_seq in 0..3u64 {
        let record = qpc_record(0, packet_seq * 1_000);
        let (track, format) = collector.route(record.stream).unwrap();
        let frame = qpc_to_captured_frame(track, &record, vec![0.0; 960], format, 0);
        if consumer.len() < capacity {
            consumer.push((track, frame.samples.clone(), format.sample_rate));
        } else {
            drops.note_drop();
        }
        collector.collect(frame);
    }
    let collected = collector.finish();
    assert_eq!(collected.self_nominal_frame_interval_ns, 10_000_000);
    assert_eq!(collected.remote_nominal_frame_interval_ns, 0);
    (collected.self_frames.len(), consumer.len(), drops.drops)
}

#[test]
fn collect_frames_drops_stt_sink_overflow_without_blocking_collection() {
    assert_eq!(collect_three(1), (3, 1, 2));
}

#[test]
fn collect_frames_forwards_every_chunk_when_stt_sink_has_room() {
    assert_eq!(collect_three(8), (3, 3, 0));
}

#[test]
fn frames_before_their_stream_count_as_48k_mono() {
    let mut collector: FrameCollector<f32> = FrameCollector::new();
    assert_eq!(
        collector.route(BindingKind::EndpointLoopback),
        Some((TrackKind::RemoteAudio, MONO_48K))
    );
    let format = StreamFormat { sample_rate: 44_100, channels: 2 };
    collector.stream_started(
        BindingKind::EndpointLoopback,
        StreamStart { format, nominal_frame_interval_ns: 1 },
    );
    assert_eq!(
        collector.route(BindingKind::EndpointLoopback),
        Some((TrackKind::RemoteAudio, format))
    );
    assert_eq!(collector.route(BindingKind::ProcessLoopback), None);
}

#[test]
fn the_first_drop_and_every_hundredth_are_reported() {
    let mut counter = DropCounter::new();
    let reported: Vec<u64> =
        (1..=250).filter(|_| counter.note_drop()).collect();
    assert_eq!(reported, vec![1, 100, 200]);
}

#[test]
fn buffers_of_a_stream_follow_each_other() {
    let mut stamper = FrameStamper::new(BindingKind::EndpointLoopback, 2, 4);
    let time = |value: i64| CMTimeLike { value, timescale: 1_000 };
    let first = stamper.stamp(960, time(5));
    let second = stamper.stamp(1, time(-1));
    let third = stamper.stamp(4, time(7));
    assert_eq!((first.packet_seq, first.device_position_frames, first.frame_count), (0, 0, 480));
    assert_eq!(first.capture_time_ns, 5_000_000);
    // An empty buffer counts as one frame, and a malformed time as zero.
    assert_eq!((second.packet_seq, second.device_position_frames, second.frame_count), (1, 480, 1));
    assert_eq!(second.capture_time_ns, 0);
    assert_eq!((third.device_position_frames, third.capture_epoch), (481, 4));
    assert_eq!(third.stream, BindingKind::EndpointLoopback);
}

#[test]
fn frame_counters_start_again_after_the_largest_number() {
    let mut stamper = FrameStamper::new(BindingKind::Microphone, 1, 0);
    stamper.packet_seq = u64::MAX;
    stamper.device_position_frames = u64::MAX - 1;
    let time = CMTimeLike { value: 0, timescale: 1 };
    let last = stamper.stamp(4, time);
    assert_eq!((last.packet_seq, last.device_position_frames), (u64::MAX, u64::MAX - 1));
    let next = stamper.stamp(4, time);
    assert_eq!((next.packet_seq, next.device_position_frames), (0, 2));
}

// Streams.

#[test]
fn did_stop_with_error_records_the_message_and_signals_stream_dead() {
    let mut delegate = StreamErrorDelegate::new();
    assert!(!delegate.stream_dead.is_signaled());

    delegate.did_stop_with_error("simulated stop".to_string());

    assert!(delegate.stream_dead.is_signaled());
    assert_eq!(delegate.error.as_deref(), Some("simulated stop"));
}

#[test]
fn did_stop_with_error_overwrites_a_previously_recorded_message() {
    let mut delegate = StreamErrorDelegate::new();
    delegate.did_stop_with_error("first".to_string());
    delegate.did_stop_with_error("second".to_string());
    assert_eq!(delegate.error.as_deref(), Some("second"));
}

#[test]
fn a_stop_signal_stays_given() {
    let mut signal = StopSignal::default();
    assert!(!signal.wait_timeout(true));
    assert!(signal.wait_timeout(false));
    signal.signal();
    signal.signal();
    assert!(signal.is_signaled());
    assert!(signal.wait_timeout(true));
}

#[test]
fn a_stream_that_dies_on_its_own_is_an_error() {
    let mut dead = StreamErrorDelegate::new();
    assert!(keeps_running(false, dead.stream_dead.is_signaled()));
    assert_eq!(run_result(false, dead.clone()), Ok(CaptureExit::StoppedByRequest));
    dead.did_stop_with_error("revoked".to_string());
    assert!(!keeps_running(false, dead.stream_dead.is_signaled()));
    assert_eq!(
        run_result(false, dead.clone()),
        Err(CaptureError::ScreenCaptureKit("revoked".to_string()))
    );
    // A stop that was asked for is clean even then.
    assert_eq!(run_result(true, dead.clone()), Ok(CaptureExit::StoppedByRequest));
    dead.error = None;
    assert_eq!(
        run_result(false, dead),
        Err(CaptureError::ScreenCaptureKit("stream stopped unexpectedly".to_string()))
    );
}

#[test]
fn a_worker_reports_its_end_for_each_binding() {
    let both = StreamOutputs { microphone: true, system_audio: true };
    let kinds = bindings(both, BindingKind::ProcessLoopback);
    assert_eq!(kinds, vec![BindingKind::Microphone, BindingKind::ProcessLoopback]);
    let (events, outcome): (Vec<CaptureEvent<f32>>, CaptureThreadOutcome) =
        worker_report(&kinds, Err(CaptureError::CoreAudio("gone".to_string())));
    let error = || "CoreAudio call failed: gone".to_string();
    assert_eq!(
        events,
        vec![
            CaptureEvent::StreamError { stream: BindingKind::Microphone, error: error() },
            CaptureEvent::StreamError { stream: BindingKind::ProcessLoopback, error: error() },
        ]
    );
    assert_eq!(
        outcome,
        CaptureThreadOutcome::Errored { error: CaptureError::CoreAudio("gone".to_string()) }
    );
    let (events, outcome): (Vec<CaptureEvent<f32>>, CaptureThreadOutcome) =
        worker_report(&kinds[..1], Ok(CaptureExit::DeviceLost));
    assert_eq!(
        events,
        vec![CaptureEvent::StreamStopped {
            stream: BindingKind::Microphone,
            exit: CaptureExit::DeviceLost
        }]
    );
    assert_eq!(outcome, CaptureThreadOutcome::Stopped { exit: CaptureExit::DeviceLost });
}

#[test]
fn each_output_is_stamped_with_its_own_epoch() {
    let both = StreamOutputs { microphone: true, system_audio: true };
    let stamped = stampers(both, BindingKind::EndpointLoopback, 1, Some(3), Some(4));
    assert_eq!(
        stamped,
        vec![
            FrameStamper::new(BindingKind::Microphone, 1, 3),
            FrameStamper::new(BindingKind::EndpointLoopback, 1, 4),
        ]
    );
}

#[test]
fn a_start_failure_is_put_down_to_the_larger_permission() {
    let outputs = |system_audio: bool| StreamOutputs { microphone: true, system_audio };
    assert_eq!(start_error_service(outputs(true)), TccService::ScreenAndSystemAudioRecording);
    assert_eq!(start_error_service(outputs(false)), TccService::Microphone);
}

#[test]
fn bytes_are_taken_four_at_a_time() {
    assert_eq!(
        sample_words(&[1, 2, 3, 4, 5, 6, 7, 8, 9]),
        vec![[1, 2, 3, 4], [5, 6, 7, 8]]
    );
    assert!(sample_words(&[1, 2, 3]).is_empty());
}

// Errors and permissions.

#[test]
fn capture_errors_read_as_they_should() {
    let text = || "x".to_string();
    assert_eq!(CaptureError::ScreenCaptureKit(text()).message(), "ScreenCaptureKit call failed: x");
    assert_eq!(CaptureError::CoreAudio(text()).message(), "CoreAudio call failed: x");
    assert_eq!(
        CaptureError::DeviceNotFound(text()).message(),
        "target device or application not found: x"
    );
    assert_eq!(CaptureError::UnsupportedFormat(text()).message(), "unsupported audio format: x");
    assert_eq!(CaptureError::Io(text()).message(), "x");
    assert_eq!(
        CaptureError::PermissionDenied { service: TccService::ScreenAndSystemAudioRecording }
            .message(),
        "permission denied: Screen & System Audio Recording"
    );
    assert_eq!(TccService::Microphone.label(), "Microphone");
}

#[test]
fn a_system_status_other_than_zero_is_an_error() {
    assert_eq!(check_status(0, "AudioObjectGetPropertyData"), Ok(()));
    assert_eq!(
        check_status(-50, "AudioObjectGetPropertyData"),
        Err(CaptureError::CoreAudio(
            "AudioObjectGetPropertyData failed with OSStatus -50".to_string()
        ))
    );
}

#[test]
fn start_failures_are_classified_whatever_their_case() {
    let service = TccService::Microphone;
    let denied = CaptureError::PermissionDenied { service };
    for text in ["Permission required", "user DENIED access", "ACCESS DENIED"] {
        assert_eq!(classify_stream_start_error(service, text.to_string()), denied);
    }
    assert_eq!(
        classify_stream_start_error(service, "No Displays".to_string()),
        CaptureError::ScreenCaptureKit("No Displays".to_string())
    );
    // Without the lower case the same text would not be recognised.
    assert_eq!(
        classify_lowered(service, "DENIED".to_string(), "DENIED"),
        CaptureError::ScreenCaptureKit("DENIED".to_string())
    );
    assert_eq!(classify_lowered(service, "DENIED".to_string(), "denied"), denied);
}

#[test]
fn any_failure_to_look_counts_as_a_denial() {
    assert_eq!(screen_recording_status(true), PermissionStatus::Granted);
    assert_eq!(screen_recording_status(false), PermissionStatus::Denied);
}

// Devices.

fn reported(uid: &str, has_streams: bool) -> ReportedDevice {
    ReportedDevice { uid: uid.to_string(), name: format!("{uid} name"), has_streams }
}

#[test]
fn only_devices_with_streams_are_offered() {
    let devices = [reported("a", true), reported("b", false), reported("c", true)];
    let offered = offered_devices(&devices, &Some("c".to_string()));
    assert_eq!(
        offered,
        vec![
            DeviceInfo {
                id: "a".to_string(),
                friendly_name: "a name".to_string(),
                is_default_for_role: None,
            },
            DeviceInfo {
                id: "c".to_string(),
                friendly_name: "c name".to_string(),
                is_default_for_role: Some(DeviceRole::Console),
            },
        ]
    );
    assert!(offered_devices(&devices, &None).iter().all(|d| d.is_default_for_role.is_none()));
}

#[test]
fn defaults_are_resolved_for_both_directions() {
    let inputs = offered_devices(&[reported("mic", true)], &Some("mic".to_string()));
    let outputs =
        offered_devices(&[reported("x", true), reported("out", true)], &Some("out".to_string()));
    assert_eq!(
        resolve_current_defaults(&inputs, &outputs),
        Ok((EndpointId("mic".to_string()), EndpointId("out".to_string())))
    );
    let missing = |text: &str| Err(CaptureError::DeviceNotFound(text.to_string()));
    assert_eq!(resolve_current_defaults(&[], &[]), missing("no default input device"));
    assert_eq!(resolve_current_defaults(&inputs, &[]), missing("no default output device"));
    assert_eq!(
        default_endpoint(&[], "nothing"),
        Err(CaptureError::DeviceNotFound("nothing".to_string()))
    );
    let ids: Vec<String> = endpoint_ids(&inputs, &outputs).into_iter().map(|id| id.0).collect();
    assert_eq!(ids, vec!["mic", "x", "out"]);
}

#[test]
fn property_sizes_and_process_ids_are_converted() {
    assert_eq!(device_count(11), 2);
    let app = running_application("com.zoom".to_string(), "Zoom".to_string(), 77);
    assert_eq!(app.pid, 77);
    let odd = running_application(String::new(), String::new(), -1);
    assert_eq!(odd.pid, u32::MAX);
}

#[test]
fn raw_notifications_are_told_apart() {
    let watched = WatchedSelectors { devices: 1, default_input: 2, default_output: 3 };
    assert_eq!(event_for_selector(1, &watched), Some(DeviceWatchEvent::DeviceListChanged));
    assert_eq!(
        event_for_selector(2, &watched),
        Some(DeviceWatchEvent::DefaultInputDeviceChanged { device_uid: None })
    );
    assert_eq!(
        event_for_selector(3, &watched),
        Some(DeviceWatchEvent::DefaultOutputDeviceChanged { device_uid: None })
    );
    assert_eq!(event_for_selector(4, &watched), None);
    assert_eq!(registered_before(&[1, 2, 3], 3), vec![1, 2]);
    assert_eq!(registered_before(&[1, 2, 3], 1), Vec::<u32>::new());
    assert!(ApplicationWatch::start().is_ok());
}

#[test]
fn every_change_is_a_new_generation() {
    let mut generation = ChangeGeneration::new();
    generation.advance();
    assert_eq!(generation.count, 1);
    generation.count = u64::MAX;
    generation.advance();
    assert_eq!(generation.count, 0);
}

#[test]
fn a_pick_that_is_gone_falls_back_to_the_default() {
    let devices = ["a".to_string(), "b".to_string()];
    assert_eq!(
        resolve_pinned_endpoint(Some("b".to_string()), &devices),
        PinnedChoice::Picked(EndpointId("b".to_string()))
    );
    assert_eq!(
        resolve_pinned_endpoint(Some("c".to_string()), &devices),
        PinnedChoice::StaleFallback
    );
    assert_eq!(resolve_pinned_endpoint(None, &devices), PinnedChoice::SystemDefault);
    assert!(needs_defaults(&None, &Some("a".to_string())));
    assert!(!needs_defaults(&Some("a".to_string()), &Some("b".to_string())));
}

#[test]
fn a_session_lasts_until_its_later_track_ends() {
    let mut collector: FrameCollector<u8> = FrameCollector::new();
    let frame = |track: TrackKind, host_time_ns: u64| CapturedFrame {
        track,
        host_time_ns,
        source_time_ns: None,
        sample_rate: 1,
        channels: 1,
        samples: Vec::new(),
        discontinuity: false,
    };
    collector.collect(frame(TrackKind::SelfMic, 100));
    collector.collect(frame(TrackKind::RemoteAudio, 90));
    let collected = collector.finish();
    assert_eq!(latest_frame_end_ns(&collected, 10, 30), 120);
    assert_eq!(latest_frame_end_ns(&collected, 10, 5), 110);
    assert_eq!(usable_interval(0), 1);
    assert_eq!(usable_interval(7), 7);
}

// Health.

#[test]
fn health_follows_the_state_of_the_bindings() {
    let binding = |kind: BindingKind| {
        CaptureBinding::new(
            kind,
            BindingSelection::Endpoint(EndpointSelection::Pinned {
                endpoint_id: EndpointId("x".to_string()),
            }),
        )
    };
    assert_eq!(
        capture_health(&DecisionState::new()),
        CaptureHealth {
            self_health: TrackHealth::Healthy,
            remote_health: TrackHealth::Healthy,
        }
    );
    let mut microphone = binding(BindingKind::Microphone);
    microphone.lifecycle =
        CaptureBindingState::Waiting { reason: WaitReason::RetryableFailure { attempt: 2 } };
    let mut loopback = binding(BindingKind::EndpointLoopback);
    loopback.lifecycle = CaptureBindingState::Failed { cause: "gone".to_string() };
    let state = DecisionState::new().with_binding(microphone).with_binding(loopback);
    assert_eq!(
        capture_health(&state),
        CaptureHealth {
            self_health: TrackHealth::Retrying { attempt: 2 },
            remote_health: TrackHealth::Failed { reason: "gone".to_string() },
        }
    );
    let waiting = CaptureBindingState::Waiting { reason: WaitReason::DeviceUnavailable };
    assert_eq!(waiting.health(), BindingHealth::Unavailable);
    assert_eq!(TrackHealth::from(BindingHealth::Unavailable), TrackHealth::Unavailable);
    let running = CaptureBindingState::Stopping {
        operation_id: OperationId(0),
        epoch: StreamEpoch(0),
        next: meeting_recorder::rebinding::AfterStop::RemainStopped,
    };
    assert_eq!(running.health(), BindingHealth::Healthy);
}
