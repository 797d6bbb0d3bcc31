//! What appears and disappears between two looks at the device list.

use meeting_recorder::device_diff::{DeviceDelta, DeviceSnapshot};
use meeting_recorder::rebinding::EndpointId;

fn endpoint(id: &str) -> EndpointId {
    EndpointId(id.to_string())
}

#[test]
fn first_diff_from_empty_reports_only_added() {
    let mut snapshot = DeviceSnapshot::default();
    let delta = snapshot.diff_and_update(DeviceSnapshot::from_ids(vec![endpoint("MicA"), endpoint("SpeakerA")]));
    assert_eq!(delta.added, vec![endpoint("MicA"), endpoint("SpeakerA")]);
    assert!(delta.removed.is_empty());
}

#[test]
fn unchanged_list_reports_no_delta() {
    let mut snapshot = DeviceSnapshot::from_ids(vec![endpoint("MicA")]);
    let delta = snapshot.diff_and_update(DeviceSnapshot::from_ids(vec![endpoint("MicA")]));
    assert!(delta.is_empty());
}

#[test]
fn device_unplugged_then_replugged_round_trips() {
    let mut snapshot = DeviceSnapshot::from_ids(vec![endpoint("MicA"), endpoint("SpeakerA")]);

    let delta = snapshot.diff_and_update(DeviceSnapshot::from_ids(vec![endpoint("SpeakerA")]));
    assert_eq!(delta.removed, vec![endpoint("MicA")]);
    assert!(delta.added.is_empty());

    let delta = snapshot.diff_and_update(DeviceSnapshot::from_ids(vec![endpoint("MicA"), endpoint("SpeakerA")]));
    assert_eq!(delta.added, vec![endpoint("MicA")]);
    assert!(delta.removed.is_empty());
}

#[test]
fn is_empty_is_false_when_only_added_is_non_empty() {
    let mut snapshot = DeviceSnapshot::default();
    let delta = snapshot.diff_and_update(DeviceSnapshot::from_ids(vec![endpoint("MicA")]));
    assert!(!delta.is_empty());
}

#[test]
fn is_empty_is_false_when_only_removed_is_non_empty() {
    let mut snapshot = DeviceSnapshot::from_ids(vec![endpoint("MicA")]);
    let delta = snapshot.diff_and_update(DeviceSnapshot::default());
    assert!(!delta.is_empty());
}

#[test]
fn copies_of_a_snapshot_and_of_a_delta_are_equal_to_them() {
    let mut snapshot = DeviceSnapshot::from_ids(vec![endpoint("b"), endpoint("a")]);
    let copy = snapshot.clone();
    assert_eq!(copy, snapshot);
    let delta = snapshot.diff_and_update(DeviceSnapshot::from_ids(vec![endpoint("b"), endpoint("c")]));
    assert_ne!(copy, snapshot);
    assert_eq!(delta.clone(), delta);
    assert_ne!(delta, DeviceDelta::default());
    assert_eq!(snapshot.diff_and_update(snapshot.clone()), DeviceDelta::default());
    assert!(DeviceDelta::default().is_empty());
}

#[test]
fn a_different_device_appearing_does_not_mask_another_disappearing() {
    let mut snapshot = DeviceSnapshot::from_ids(vec![endpoint("MicA")]);
    let delta = snapshot.diff_and_update(DeviceSnapshot::from_ids(vec![endpoint("MicB")]));
    assert_eq!(delta.added, vec![endpoint("MicB")]);
    assert_eq!(delta.removed, vec![endpoint("MicA")]);
}

#[test]
fn ids_come_out_in_order_and_once() {
    let mut snapshot = DeviceSnapshot::default();
    let delta = snapshot.diff_and_update(DeviceSnapshot::from_ids(vec![
        endpoint("b"),
        endpoint("a"),
        endpoint("ab"),
        endpoint("b"),
    ]));
    assert_eq!(delta.added, vec![endpoint("a"), endpoint("ab"), endpoint("b")]);
    let delta = snapshot.diff_and_update(DeviceSnapshot::default());
    assert_eq!(delta.removed, vec![endpoint("a"), endpoint("ab"), endpoint("b")]);
}
