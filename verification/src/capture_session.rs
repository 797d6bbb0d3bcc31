//! The decisions around one capture session: which devices it is pinned to, and how
//! long it lasted.

use crate::frame_collector::CollectedFrames;
use crate::domain::CapturedFrame;
use crate::rebinding::EndpointId;
use vstd::prelude::*;

verus! {

/// What to pin a binding to.
#[derive(Debug, Clone, PartialEq, Eq)]
pub enum PinnedChoice {
    /// The device that the user picked.
    Picked(EndpointId),
    /// The system default: nothing was picked.
    SystemDefault,
    /// The system default: the picked device is gone, which is worth a warning.
    StaleFallback,
}

/// Whether a list of device ids holds an id.
pub open spec fn lists(devices: Seq<String>, id: Seq<char>) -> bool {
    exists|i: int| 0 <= i < devices.len() && #[trigger] devices[i]@ == id
}

/// Resolves a saved pick against the devices that are there now. A pick that has gone
/// stale falls back to the default: pinning it anyway would leave the track silently
/// empty.
pub fn resolve_pinned_endpoint(device_id: Option<String>, devices: &[String]) -> (choice:
    PinnedChoice)
    ensures
        match device_id {
            None => choice is SystemDefault,
            Some(id) => if lists(devices@, id@) {
                choice matches PinnedChoice::Picked(endpoint_id) && endpoint_id@ == id@
            } else {
                choice is StaleFallback
            },
        },
{
    let id: String = match device_id {
        None => {
            return PinnedChoice::SystemDefault;
        },
        Some(id) => id,
    };
    let mut i: usize = 0;
    while i < devices.len()
        invariant
            i <= devices@.len(),
            device_id == Some(id),
            forall|k: int| 0 <= k < i ==> #[trigger] devices@[k]@ != id@,
        decreases devices@.len() - i,
    {
        if devices[i] == id {
            assert(devices@[i as int]@ == id@);
            return PinnedChoice::Picked(EndpointId(id));
        }
        i = i + 1;
    }
    PinnedChoice::StaleFallback
}

/// Whether the system defaults have to be looked up before a session starts. Two
/// explicit picks must not fail on a machine that has no default device.
pub fn needs_defaults(mic_device_id: &Option<String>, render_device_id: &Option<String>) -> (needed:
    bool)
    ensures
        needed == (mic_device_id is None || render_device_id is None),
{
    mic_device_id.is_none() || render_device_id.is_none()
}

/// Host time at which the last frame of a track ends; zero for an empty track.
pub open spec fn track_end_ns<S>(frames: Seq<CapturedFrame<S>>, interval_ns: u64) -> int {
    if frames.len() == 0 {
        0
    } else {
        frames.last().host_time_ns + interval_ns
    }
}

fn track_end<S>(frames: &Vec<CapturedFrame<S>>, interval_ns: u64) -> (end_ns: u64)
    requires
        track_end_ns(frames@, interval_ns) <= u64::MAX,
    ensures
        end_ns == track_end_ns(frames@, interval_ns),
{
    let n: usize = frames.len();
    if n == 0 {
        0
    } else {
        frames[n - 1].host_time_ns + interval_ns
    }
}

/// Host time at which the later of the two tracks ends.
pub fn latest_frame_end_ns<S>(
    collected: &CollectedFrames<S>,
    self_interval: u64,
    remote_interval: u64,
) -> (end_ns: u64)
    requires
        track_end_ns(collected.self_frames@, self_interval) <= u64::MAX,
        track_end_ns(collected.remote_frames@, remote_interval) <= u64::MAX,
    ensures
        // No track ends later, and one of them ends then.
        collected.self_frames@.len() > 0 ==> end_ns >= collected.self_frames@.last().host_time_ns
            + self_interval,
        collected.remote_frames@.len() > 0 ==> end_ns
            >= collected.remote_frames@.last().host_time_ns + remote_interval,
        ({
            ||| collected.self_frames@.len() > 0 && end_ns
                == collected.self_frames@.last().host_time_ns + self_interval
            ||| collected.remote_frames@.len() > 0 && end_ns
                == collected.remote_frames@.last().host_time_ns + remote_interval
            ||| collected.self_frames@.len() == 0 && collected.remote_frames@.len() == 0 && end_ns
                == 0
        }),
        end_ns == if track_end_ns(collected.self_frames@, self_interval) >= track_end_ns(
            collected.remote_frames@,
            remote_interval,
        ) {
            track_end_ns(collected.self_frames@, self_interval)
        } else {
            track_end_ns(collected.remote_frames@, remote_interval)
        },
{
    let self_end: u64 = track_end(&collected.self_frames, self_interval);
    let remote_end: u64 = track_end(&collected.remote_frames, remote_interval);
    if self_end >= remote_end {
        self_end
    } else {
        remote_end
    }
}

/// The interval to align a track with: what its stream announced, but never zero.
pub fn usable_interval(nominal_frame_interval_ns: u64) -> (ns: u64)
    ensures
        ns == if nominal_frame_interval_ns >= 1 {
            nominal_frame_interval_ns
        } else {
            1
        },
{
    if nominal_frame_interval_ns >= 1 {
        nominal_frame_interval_ns
    } else {
        1
    }
}

/// A track ends one interval after its last frame arrived, and an empty one at once.
pub proof fn law_a_track_ends_after_its_last_frame<S>(
    frames: Seq<CapturedFrame<S>>,
    last: CapturedFrame<S>,
    interval_ns: u64,
)
    ensures
        track_end_ns(frames.push(last), interval_ns) - last.host_time_ns == interval_ns,
        track_end_ns(Seq::<CapturedFrame<S>>::empty(), interval_ns) == 0,
{
}

/// A picked device is found exactly if its id is among those of the devices.
pub proof fn law_a_listed_device_is_found(first: Seq<String>, device: String, second: Seq<String>)
    ensures
        lists(first.push(device) + second, device@),
        !lists(Seq::<String>::empty(), device@),
        forall|id: Seq<char>|
            #![trigger lists(first, id)]
            lists(first.push(device), id) <==> lists(first, id) || device@ == id,
{
    let all = first.push(device) + second;
    assert(all[first.len() as int] == device);
    assert forall|id: Seq<char>|
        #![trigger lists(first, id)]
        lists(first.push(device), id) <==> lists(first, id) || device@ == id by {
        let longer = first.push(device);
        if lists(first, id) {
            let i = choose|i: int| 0 <= i < first.len() && #[trigger] first[i]@ == id;
            assert(longer[i]@ == id);
        }
        if device@ == id {
            assert(longer[first.len() as int]@ == id);
        }
        if lists(longer, id) {
            let i = choose|i: int| 0 <= i < longer.len() && #[trigger] longer[i]@ == id;
            if i < first.len() {
                assert(first[i]@ == id);
            }
        }
    }
}

} // verus!
