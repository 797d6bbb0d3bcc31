//! Device and application lists. What the system reports about each device is plain
//! data here; which devices are offered, and which of them is the default, is decided
//! from it.

use crate::capture_error::CaptureError;
use crate::rebinding::{DeviceRole, EndpointId};
use vstd::prelude::*;

verus! {

/// A device as offered to the user.
#[derive(Debug, Clone, PartialEq, Eq)]
pub struct DeviceInfo {
    /// The device's persistent id; this is what an [`EndpointId`] holds.
    pub id: String,
    pub friendly_name: String,
    /// This system has one default device per direction, which counts as the console's.
    pub is_default_for_role: Option<DeviceRole>,
}

/// An application that is running.
#[derive(Debug, Clone, PartialEq, Eq)]
pub struct RunningApplicationInfo {
    pub bundle_identifier: String,
    pub display_name: String,
    pub pid: u32,
}

/// A device as the system reports it, for one direction.
#[derive(Debug, Clone, PartialEq, Eq)]
pub struct ReportedDevice {
    pub uid: String,
    pub name: String,
    /// Whether the device has streams of the direction in question.
    pub has_streams: bool,
}

/// Whether the device is the default one.
pub open spec fn is_default(uid: Seq<char>, default_uid: Option<String>) -> bool {
    default_uid matches Some(default_uid) && default_uid@ == uid
}

/// The devices of a list that have streams, in order.
pub open spec fn usable(devices: Seq<ReportedDevice>) -> Seq<ReportedDevice>
    decreases devices.len(),
{
    if devices.len() == 0 {
        Seq::empty()
    } else if devices.last().has_streams {
        usable(devices.drop_last()).push(devices.last())
    } else {
        usable(devices.drop_last())
    }
}

/// Whether a device is offered as what the system reported.
pub open spec fn offers(
    info: DeviceInfo,
    device: ReportedDevice,
    default_uid: Option<String>,
) -> bool {
    &&& info.id@ == device.uid@
    &&& info.friendly_name@ == device.name@
    &&& info.is_default_for_role == if is_default(device.uid@, default_uid) {
        Some(DeviceRole::Console)
    } else {
        None
    }
}

/// The devices to offer: those that have streams of this direction, with the default
/// one marked.
pub fn offered_devices(devices: &[ReportedDevice], default_uid: &Option<String>) -> (offered: Vec<
    DeviceInfo,
>)
    ensures
        offered@.len() == usable(devices@).len(),
        forall|i: int|
            #![trigger offered@[i]]
            0 <= i < offered@.len() ==> offers(offered@[i], usable(devices@)[i], *default_uid),
{
    let mut offered: Vec<DeviceInfo> = Vec::new();
    let mut i: usize = 0;
    assert(devices@.take(0) =~= Seq::empty());
    while i < devices.len()
        invariant
            i <= devices@.len(),
            offered@.len() == usable(devices@.take(i as int)).len(),
            forall|k: int|
                #![trigger offered@[k]]
                0 <= k < offered@.len() ==> offers(
                    offered@[k],
                    usable(devices@.take(i as int))[k],
                    *default_uid,
                ),
        decreases devices@.len() - i,
    {
        assert(devices@.take(i + 1).drop_last() =~= devices@.take(i as int));
        assert(devices@.take(i + 1).last() == devices@[i as int]);
        let device: &ReportedDevice = &devices[i];
        if device.has_streams {
            let default: bool = match default_uid {
                Some(uid) => *uid == device.uid,
                None => false,
            };
            offered.push(
                DeviceInfo {
                    id: device.uid.clone(),
                    friendly_name: device.name.clone(),
                    is_default_for_role: if default {
                        Some(DeviceRole::Console)
                    } else {
                        None
                    },
                },
            );
        }
        i = i + 1;
    }
    assert(devices@.take(i as int) =~= devices@);
    offered
}

/// Whether a device of the list is the first default one.
pub open spec fn first_default(devices: Seq<DeviceInfo>, i: int) -> bool {
    &&& 0 <= i < devices.len()
    &&& devices[i].is_default_for_role is Some
    &&& forall|k: int| 0 <= k < i ==> (#[trigger] devices[k]).is_default_for_role is None
}

/// The endpoint of the default device, or an error that says what is missing.
pub fn default_endpoint(devices: &[DeviceInfo], missing: &str) -> (result: Result<
    EndpointId,
    CaptureError,
>)
    ensures
        match result {
            Ok(endpoint_id) => exists|i: int| #[trigger]
                first_default(devices@, i) && devices@[i].id@ == endpoint_id@,
            Err(error) => {
                &&& forall|i: int|
                    0 <= i < devices@.len() ==> (#[trigger] devices@[i]).is_default_for_role
                        is None
                &&& error matches CaptureError::DeviceNotFound(detail)
                &&& detail@ == missing@
            },
        },
{
    let mut i: usize = 0;
    while i < devices.len()
        invariant
            i <= devices@.len(),
            forall|k: int|
                0 <= k < i ==> (#[trigger] devices@[k]).is_default_for_role is None,
        decreases devices@.len() - i,
    {
        if devices[i].is_default_for_role.is_some() {
            assert(first_default(devices@, i as int));
            return Ok(EndpointId(devices[i].id.clone()));
        }
        i = i + 1;
    }
    Err(CaptureError::DeviceNotFound(missing.to_owned()))
}

/// The default microphone and the default output, in this order.
pub fn resolve_current_defaults(
    capture_devices: &[DeviceInfo],
    render_devices: &[DeviceInfo],
) -> (result: Result<(EndpointId, EndpointId), CaptureError>)
    ensures
        match result {
            Ok((mic, render)) => {
                &&& exists|i: int| #[trigger]
                    first_default(capture_devices@, i) && capture_devices@[i].id@ == mic@
                &&& exists|i: int| #[trigger]
                    first_default(render_devices@, i) && render_devices@[i].id@ == render@
            },
            Err(error) => {
                let no_mic = forall|i: int|
                    0 <= i < capture_devices@.len() ==> (
                    #[trigger] capture_devices@[i]).is_default_for_role is None;
                let no_render = forall|i: int|
                    0 <= i < render_devices@.len() ==> (
                    #[trigger] render_devices@[i]).is_default_for_role is None;
                &&& no_mic || no_render
                &&& error matches CaptureError::DeviceNotFound(detail)
                &&& detail@ == if no_mic {
                    "no default input device"@
                } else {
                    "no default output device"@
                }
            },
        },
{
    let mic: EndpointId = match default_endpoint(capture_devices, "no default input device") {
        Ok(mic) => mic,
        Err(error) => {
            return Err(error);
        },
    };
    let render: EndpointId = match default_endpoint(render_devices, "no default output device") {
        Ok(render) => render,
        Err(error) => {
            proof {
                let i = choose|i: int| #[trigger]
                    first_default(capture_devices@, i) && capture_devices@[i].id@ == mic@;
                assert(capture_devices@[i].is_default_for_role is Some);
            }
            return Err(error);
        },
    };
    Ok((mic, render))
}

/// All endpoint ids of both directions, the capture side first.
pub fn endpoint_ids(capture_devices: &[DeviceInfo], render_devices: &[DeviceInfo]) -> (ids: Vec<
    EndpointId,
>)
    ensures
        ids@.len() == capture_devices@.len() + render_devices@.len(),
        forall|i: int|
            #![trigger ids@[i]]
            0 <= i < ids@.len() ==> ids@[i]@ == if i < capture_devices@.len() {
                capture_devices@[i].id@
            } else {
                render_devices@[i - capture_devices@.len()].id@
            },
{
    let mut ids: Vec<EndpointId> = Vec::new();
    let mut i: usize = 0;
    while i < capture_devices.len()
        invariant
            i <= capture_devices@.len(),
            ids@.len() == i,
            forall|k: int| 0 <= k < i ==> (#[trigger] ids@[k])@ == capture_devices@[k].id@,
        decreases capture_devices@.len() - i,
    {
        ids.push(EndpointId(capture_devices[i].id.clone()));
        i = i + 1;
    }
    let mut j: usize = 0;
    while j < render_devices.len()
        invariant
            j <= render_devices@.len(),
            ids@.len() == capture_devices@.len() + j,
            forall|k: int|
                0 <= k < ids@.len() ==> (#[trigger] ids@[k])@ == if k < capture_devices@.len() {
                    capture_devices@[k].id@
                } else {
                    render_devices@[k - capture_devices@.len()].id@
                },
        decreases render_devices@.len() - j,
    {
        ids.push(EndpointId(render_devices[j].id.clone()));
        j = j + 1;
    }
    ids
}

/// How many device ids of four bytes each a property of `data_size` bytes holds.
pub fn device_count(data_size: u32) -> (count: usize)
    ensures
        count == data_size / 4,
{
    (data_size / 4) as usize
}

/// An entry for a running application. A process id is never negative, so that keeping
/// its bits loses nothing.
pub fn running_application(
    bundle_identifier: String,
    display_name: String,
    process_id: i32,
) -> (info: RunningApplicationInfo)
    ensures
        info.bundle_identifier == bundle_identifier,
        info.display_name == display_name,
        info.pid == if process_id >= 0 {
            process_id as int
        } else {
            process_id + 0x1_0000_0000
        },
{
    let pid: u32 = if process_id >= 0 {
        process_id as u32
    } else {
        (process_id as i64 + 0x1_0000_0000) as u32
    };
    RunningApplicationInfo { bundle_identifier, display_name, pid }
}

/// Devices are offered in the order in which the system lists them, those with streams of
/// the direction and no others, and whether one is offered does not depend on the others.
pub proof fn law_devices_with_streams_are_offered_in_order(
    first: Seq<ReportedDevice>,
    second: Seq<ReportedDevice>,
    device: ReportedDevice,
)
    ensures
        usable(first + second) == usable(first) + usable(second),
        usable(seq![device]) == if device.has_streams {
            seq![device]
        } else {
            Seq::empty()
        },
    decreases second.len(),
{
    reveal_with_fuel(usable, 2);
    let one = seq![device];
    assert(one.drop_last() =~= Seq::empty());
    assert(usable(one) =~= if device.has_streams {
        seq![device]
    } else {
        Seq::empty()
    });
    if second.len() == 0 {
        assert(first + second =~= first);
        assert(usable(first) + usable(second) =~= usable(first));
    } else {
        law_devices_with_streams_are_offered_in_order(first, second.drop_last(), device);
        assert((first + second).drop_last() =~= first + second.drop_last());
        assert((first + second).last() == second.last());
        assert(usable(first + second) =~= usable(first) + usable(second));
    }
}

/// A device is offered under its own id and name, and is marked exactly if it is the one
/// that the system has as its default.
pub proof fn law_the_default_is_marked(
    info: DeviceInfo,
    device: ReportedDevice,
    default_uid: Option<String>,
)
    requires
        offers(info, device, default_uid),
    ensures
        info.id@ == device.uid@,
        info.friendly_name@ == device.name@,
        info.is_default_for_role is Some <==> default_uid is Some && default_uid->0@ == device.uid@,
        info.is_default_for_role is Some ==> info.is_default_for_role->0 == DeviceRole::Console,
{
}

/// Of several devices that are marked, the first is taken, and no other; and where one is
/// marked, one is taken.
pub proof fn law_the_first_default_is_taken(devices: Seq<DeviceInfo>, i: int, j: int)
    requires
        0 <= i < devices.len(),
        devices[i].is_default_for_role is Some,
        0 <= j < devices.len(),
        devices[j].is_default_for_role is Some,
    ensures
        first_default(devices, i) ==> i <= j,
        first_default(devices, i) && first_default(devices, j) ==> j == i,
        first_default(devices, i) || exists|k: int| 0 <= k < i && #[trigger] first_default(devices, k),
    decreases i,
{
    if !first_default(devices, i) {
        let k = choose|k: int|
            0 <= k < i && (#[trigger] devices[k]).is_default_for_role is Some;
        law_the_first_default_is_taken(devices, k, j);
    }
}

} // verus!
