//! Device-change notifications, and what a raw notification stands for.

use crate::capture_error::CaptureError;
use vstd::prelude::*;

verus! {

#[derive(Debug, Clone, PartialEq, Eq)]
#[allow(inconsistent_fields)]
pub enum DeviceWatchEvent {
    DeviceAdded { device_uid: String },
    DeviceRemoved { device_uid: String },
    /// The device list changed somehow; the notification does not say how. The consumer
    /// enumerates the devices again and compares with what it saw last.
    DeviceListChanged,
    DefaultInputDeviceChanged { device_uid: Option<String> },
    DefaultOutputDeviceChanged { device_uid: Option<String> },
    ApplicationLaunched { bundle_identifier: String, pid: u32 },
    ApplicationTerminated { bundle_identifier: String, pid: u32 },
}

/// The properties that are watched, by the system's selectors for them.
#[derive(Debug, Clone, Copy, PartialEq, Eq, Structural)]
pub struct WatchedSelectors {
    pub devices: u32,
    pub default_input: u32,
    pub default_output: u32,
}

/// The event that a change of a property stands for. Which device is meant is not looked
/// up here: a notification is a reason to look again, not a payload to trust.
pub fn event_for_selector(selector: u32, watched: &WatchedSelectors) -> (event: Option<
    DeviceWatchEvent,
>)
    ensures
        event == if selector == watched.devices {
            Some(DeviceWatchEvent::DeviceListChanged)
        } else if selector == watched.default_input {
            Some(DeviceWatchEvent::DefaultInputDeviceChanged { device_uid: None })
        } else if selector == watched.default_output {
            Some(DeviceWatchEvent::DefaultOutputDeviceChanged { device_uid: None })
        } else {
            None
        },
{
    if selector == watched.devices {
        Some(DeviceWatchEvent::DeviceListChanged)
    } else if selector == watched.default_input {
        Some(DeviceWatchEvent::DefaultInputDeviceChanged { device_uid: None })
    } else if selector == watched.default_output {
        Some(DeviceWatchEvent::DefaultOutputDeviceChanged { device_uid: None })
    } else {
        None
    }
}

/// The selectors in front of the first one that equals `failed`: those that were
/// registered when its registration failed, and have to be taken back.
pub fn registered_before(selectors: &[u32], failed: u32) -> (registered: Vec<u32>)
    ensures
        registered@.len() <= selectors@.len(),
        registered@ == selectors@.take(registered@.len() as int),
        forall|i: int| 0 <= i < registered@.len() ==> #[trigger] selectors@[i] != failed,
        registered@.len() < selectors@.len() ==> selectors@[registered@.len() as int] == failed,
{
    let mut registered: Vec<u32> = Vec::new();
    let mut i: usize = 0;
    while i < selectors.len() && selectors[i] != failed
        invariant
            i <= selectors@.len(),
            registered@ == selectors@.take(i as int),
            forall|k: int| 0 <= k < i ==> #[trigger] selectors@[k] != failed,
        decreases selectors@.len() - i,
    {
        registered.push(selectors[i]);
        i = i + 1;
        assert(registered@ =~= selectors@.take(i as int));
    }
    registered
}

/// Watches for applications that start and end. Nothing is watched yet; starting it
/// always succeeds.
pub struct ApplicationWatch;

impl ApplicationWatch {
    pub fn start() -> (result: Result<Self, CaptureError>)
        ensures
            result is Ok,
    {
        Ok(ApplicationWatch)
    }
}

/// Counts device-change notifications. A caller remembers the count from its last look
/// and looks again when it has changed.
#[derive(Debug, Clone, Copy, PartialEq, Eq, Structural)]
pub struct ChangeGeneration {
    pub count: u64,
}

impl ChangeGeneration {
    pub fn new() -> (generation: Self)
        ensures
            generation.count == 0,
    {
        ChangeGeneration { count: 0 }
    }

    /// One more notification. The count starts again from zero after the largest one.
    pub fn advance(&mut self)
        ensures
            final(self).count != old(self).count,
            final(self).count == if old(self).count == u64::MAX {
                0
            } else {
                old(self).count + 1
            },
    {
        if self.count == u64::MAX {
            self.count = 0;
        } else {
            self.count = self.count + 1;
        }
    }
}

} // verus!
