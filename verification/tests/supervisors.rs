//! The supervisors, driven by hand.

use meeting_recorder::capture_health::TrackHealth;
use meeting_recorder::capture_stream::StreamOutputs;
use meeting_recorder::device_diff::{DeviceDelta, DeviceSnapshot};
use meeting_recorder::device_watch::DeviceWatchEvent;
use meeting_recorder::rebinding::{BindingKind, EndpointId, OperationId, ResolvedTarget, StreamEpoch};
use meeting_recorder::supervisor::backoff_for_attempt;
use meeting_recorder::supervisor::macos::{MacosSupervisor, SharedStreamPlan, StreamCommand};
use meeting_recorder::supervisor::windows::{
    AudioConstants, DeviceNotice, WindowsSupervisor, WorkerCommand, WorkerReport,
};

const MIC: BindingKind = BindingKind::Microphone;
const LOOPBACK: BindingKind = BindingKind::EndpointLoopback;

const CONSTANTS: AudioConstants = AudioConstants {
    device_state_active: 1,
    flow_capture: 1,
    flow_render: 0,
    role_console: 0,
    role_multimedia: 1,
    role_communications: 2,
};

fn endpoint(id: &str) -> EndpointId {
    EndpointId(id.to_string())
}

fn target(id: &str) -> ResolvedTarget {
    ResolvedTarget::Endpoint(endpoint(id))
}

fn snapshot(ids: &[&str]) -> DeviceSnapshot {
    DeviceSnapshot::from_ids(ids.iter().map(|id| endpoint(id)).collect())
}

#[test]
fn retries_back_off_up_to_half_a_minute() {
    let delays: Vec<u64> = (0..8).map(backoff_for_attempt).collect();
    assert_eq!(delays, vec![500, 1_000, 2_000, 4_000, 8_000, 16_000, 30_000, 30_000]);
    assert_eq!(backoff_for_attempt(u32::MAX), 30_000);
}

// One worker for each binding.

fn running_windows() -> WindowsSupervisor {
    let mut supervisor = WindowsSupervisor::new();
    supervisor.pin_devices(endpoint("mic"), endpoint("out"));
    let commands = supervisor.start_all();
    assert_eq!(
        commands,
        vec![
            WorkerCommand::Spawn { binding: MIC, target: target("mic"), epoch: StreamEpoch(0) },
            WorkerCommand::Spawn { binding: LOOPBACK, target: target("out"), epoch: StreamEpoch(1) },
        ]
    );
    for stream in [MIC, LOOPBACK] {
        assert!(supervisor
            .handle_capture_event(WorkerReport::StreamStarted { stream })
            .is_empty());
    }
    supervisor
}

#[test]
fn frames_are_accepted_from_the_current_worker_only() {
    let supervisor = running_windows();
    assert!(supervisor.accepts_frame(MIC, 0));
    assert!(!supervisor.accepts_frame(MIC, 1));
    assert!(supervisor.accepts_frame(LOOPBACK, 1));
    assert!(!supervisor.accepts_frame(BindingKind::ProcessLoopback, 0));
}

#[test]
fn a_failed_worker_is_joined_and_retried() {
    let mut supervisor = running_windows();
    let commands = supervisor.handle_capture_event(WorkerReport::StreamError {
        stream: MIC,
        error: "device invalidated".to_string(),
    });
    assert_eq!(
        commands,
        vec![
            WorkerCommand::ScheduleRetry { binding: MIC, retry_id: 1, delay_ms: 1_000 },
            WorkerCommand::Join {
                binding: MIC,
                operation_id: OperationId(0),
                epoch: StreamEpoch(0),
            },
        ]
    );
    assert_eq!(supervisor.pending_joins, 1);
    assert_eq!(supervisor.capture_health().self_health, TrackHealth::Retrying { attempt: 1 });
    // The join of the dead worker changes nothing else.
    assert!(supervisor.handle_join_result(MIC, OperationId(0), StreamEpoch(0)).is_empty());
    assert_eq!(supervisor.pending_joins, 0);
    assert_eq!(
        supervisor.handle_retry_timer(MIC, 1),
        vec![WorkerCommand::Spawn { binding: MIC, target: target("mic"), epoch: StreamEpoch(2) }]
    );
}

#[test]
fn a_cut_session_counts_as_a_failure() {
    let mut supervisor = running_windows();
    let commands = supervisor
        .handle_capture_event(WorkerReport::SessionDisconnected { stream: LOOPBACK, reason_raw: 2 });
    assert_eq!(commands.len(), 2);
    assert!(matches!(commands[0], WorkerCommand::ScheduleRetry { binding: LOOPBACK, .. }));
    assert!(matches!(commands[1], WorkerCommand::Join { binding: LOOPBACK, .. }));
    // A second report of the same death finds no worker.
    assert!(supervisor
        .handle_capture_event(WorkerReport::StreamError {
            stream: LOOPBACK,
            error: "again".to_string()
        })
        .is_empty());
}

#[test]
fn a_pinned_device_that_comes_back_is_used_again() {
    let mut supervisor = running_windows();
    let gone = DeviceNotice::DeviceRemoved { endpoint_id: "mic".to_string() };
    assert_eq!(
        supervisor.handle_device_watch_event(gone, &CONSTANTS),
        vec![WorkerCommand::Stop {
            binding: MIC,
            operation_id: OperationId(0),
            epoch: StreamEpoch(0),
        }]
    );
    assert!(supervisor.handle_join_result(MIC, OperationId(0), StreamEpoch(0)).is_empty());
    assert_eq!(supervisor.capture_health().self_health, TrackHealth::Unavailable);
    let back = DeviceNotice::DeviceStateChanged {
        endpoint_id: "mic".to_string(),
        new_state_raw: CONSTANTS.device_state_active,
    };
    assert_eq!(
        supervisor.handle_device_watch_event(back, &CONSTANTS),
        vec![WorkerCommand::Spawn { binding: MIC, target: target("mic"), epoch: StreamEpoch(2) }]
    );
}

#[test]
fn notices_that_mean_nothing_are_ignored() {
    let mut supervisor = running_windows();
    for notice in [
        DeviceNotice::PropertyValueChanged { endpoint_id: "mic".to_string() },
        DeviceNotice::DefaultDeviceChanged {
            flow_raw: 9,
            role_raw: 0,
            endpoint_id: Some("mic".to_string()),
        },
        DeviceNotice::DefaultDeviceChanged {
            flow_raw: 1,
            role_raw: 0,
            endpoint_id: Some("other".to_string()),
        },
    ] {
        assert!(supervisor.handle_device_watch_event(notice, &CONSTANTS).is_empty());
    }
    assert!(supervisor
        .handle_capture_event(WorkerReport::StreamStopped { stream: MIC })
        .is_empty());
}

#[test]
fn shutdown_stops_both_workers_and_waits_for_them() {
    let mut supervisor = running_windows();
    let commands = supervisor.handle_shutdown();
    assert_eq!(commands.len(), 2);
    assert_eq!(supervisor.pending_joins, 2);
    assert!(supervisor.handle_join_result(MIC, OperationId(0), StreamEpoch(0)).is_empty());
    assert!(supervisor.handle_join_result(LOOPBACK, OperationId(1), StreamEpoch(1)).is_empty());
    assert_eq!(supervisor.pending_joins, 0);
    assert!(supervisor.start_all().is_empty());
}

// One stream for all bindings.

fn plan(
    microphone: Option<u64>,
    system_audio: Option<u64>,
    microphone_device_id: Option<&str>,
) -> StreamCommand {
    StreamCommand::Build(SharedStreamPlan {
        outputs: StreamOutputs {
            microphone: microphone.is_some(),
            system_audio: system_audio.is_some(),
        },
        system_audio_binding: LOOPBACK,
        microphone_epoch: microphone,
        system_audio_epoch: system_audio,
        microphone_device_id: microphone_device_id.map(|id| id.to_string()),
    })
}

fn running_macos() -> MacosSupervisor {
    let mut supervisor = MacosSupervisor::new();
    supervisor.pin_devices(endpoint("mic"), endpoint("out"));
    let commands = supervisor.start_all(Some(snapshot(&["mic", "out"])));
    assert_eq!(commands, vec![plan(Some(0), Some(1), Some("mic"))]);
    for stream in [MIC, LOOPBACK] {
        assert!(supervisor.handle_stream_started(stream).is_empty());
    }
    supervisor
}

#[test]
fn one_stream_serves_both_bindings_with_an_epoch_each() {
    let supervisor = running_macos();
    assert!(supervisor.accepts_frame(MIC, 0));
    assert!(supervisor.accepts_frame(LOOPBACK, 1));
    assert!(!supervisor.accepts_frame(LOOPBACK, 0));
}

#[test]
fn a_dead_stream_is_replaced_once_all_its_bindings_have_reported() {
    let mut supervisor = running_macos();
    let first = supervisor.handle_stream_error(MIC, "revoked".to_string());
    assert_eq!(
        first,
        vec![StreamCommand::ScheduleRetry { binding: MIC, retry_id: 1, delay_ms: 1_000 }]
    );
    let second = supervisor.handle_stream_error(LOOPBACK, "revoked".to_string());
    assert_eq!(
        second,
        vec![
            StreamCommand::ScheduleRetry { binding: LOOPBACK, retry_id: 1, delay_ms: 1_000 },
            StreamCommand::TearDown,
        ]
    );
    assert_eq!(supervisor.pending_joins, 1);
    supervisor.handle_join_result();
    assert_eq!(supervisor.pending_joins, 0);
    // The retries build one stream each time the set of bindings changes.
    assert_eq!(supervisor.handle_retry_timer(MIC, 1), vec![plan(Some(2), None, Some("mic"))]);
    assert_eq!(
        supervisor.handle_retry_timer(LOOPBACK, 1),
        vec![StreamCommand::TearDown, plan(Some(2), Some(3), Some("mic"))]
    );
}

#[test]
fn a_retry_that_is_ahead_of_a_sibling_is_not_waited_for() {
    let mut supervisor = running_macos();
    supervisor.handle_stream_error(MIC, "revoked".to_string());
    // The microphone's retry fires before the other binding has reported.
    assert!(supervisor.handle_retry_timer(MIC, 1).is_empty());
    let late = supervisor.handle_stream_error(LOOPBACK, "revoked".to_string());
    assert_eq!(
        late,
        vec![
            StreamCommand::ScheduleRetry { binding: LOOPBACK, retry_id: 1, delay_ms: 1_000 },
            StreamCommand::TearDown,
            plan(Some(2), None, Some("mic")),
        ]
    );
}

#[test]
fn a_lost_device_takes_its_binding_off_the_stream() {
    let mut supervisor = running_macos();
    let delta = supervisor.roll_devices(snapshot(&["out", "new"]));
    assert_eq!(
        delta,
        DeviceDelta { added: vec![endpoint("new")], removed: vec![endpoint("mic")] }
    );
    assert_eq!(
        supervisor.reconcile_device_list(delta),
        vec![StreamCommand::TearDown, plan(None, Some(1), None)]
    );
    assert_eq!(supervisor.capture_health().self_health, TrackHealth::Unavailable);
    let delta = supervisor.roll_devices(snapshot(&["out", "mic"]));
    assert_eq!(
        supervisor.reconcile_device_list(delta),
        vec![StreamCommand::TearDown, plan(Some(2), Some(1), Some("mic"))]
    );
}

#[test]
fn device_events_without_a_meaning_are_ignored() {
    let mut supervisor = running_macos();
    for event in [
        DeviceWatchEvent::DeviceListChanged,
        DeviceWatchEvent::DefaultInputDeviceChanged { device_uid: None },
        DeviceWatchEvent::DefaultOutputDeviceChanged { device_uid: Some("x".to_string()) },
        DeviceWatchEvent::DeviceAdded { device_uid: String::new() },
        DeviceWatchEvent::DeviceRemoved { device_uid: String::new() },
        DeviceWatchEvent::ApplicationLaunched { bundle_identifier: "a".to_string(), pid: 1 },
        DeviceWatchEvent::ApplicationTerminated { bundle_identifier: "a".to_string(), pid: 1 },
    ] {
        assert!(supervisor.handle_device_watch_event(event).is_empty());
    }
    let gone = DeviceWatchEvent::DeviceRemoved { device_uid: "out".to_string() };
    assert_eq!(
        supervisor.handle_device_watch_event(gone),
        vec![StreamCommand::TearDown, plan(Some(0), None, Some("mic"))]
    );
}

#[test]
fn shutdown_tears_the_stream_down_for_good() {
    let mut supervisor = running_macos();
    let commands = supervisor.handle_shutdown();
    assert_eq!(commands, vec![StreamCommand::TearDown]);
    assert_eq!(supervisor.pending_joins, 1);
    assert!(supervisor.start_all(None).is_empty());
}
