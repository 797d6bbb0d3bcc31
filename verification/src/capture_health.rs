//! View of each capture track's health, the same on every platform: a microphone or
//! system-audio binding that waits or has failed shows up as something other than a
//! silent level meter.

use crate::rebinding::{BindingHealth, BindingKind, DecisionState};
use vstd::prelude::*;

verus! {

/// Health of one track. Mirrors [`BindingHealth`].
#[derive(Debug, Clone, PartialEq, Eq)]
pub enum TrackHealth {
    Healthy,
    Unavailable,
    Retrying { attempt: u32 },
    Failed { reason: String },
}

/// The health of a track whose binding has this health.
pub open spec fn track_health(health: BindingHealth) -> TrackHealth {
    match health {
        BindingHealth::Healthy => TrackHealth::Healthy,
        BindingHealth::Unavailable => TrackHealth::Unavailable,
        BindingHealth::Retrying { attempt } => TrackHealth::Retrying { attempt },
        BindingHealth::Failed { reason } => TrackHealth::Failed { reason },
    }
}

impl Default for TrackHealth {
    fn default() -> (health: Self)
        ensures
            health == TrackHealth::Healthy,
    {
        TrackHealth::Healthy
    }
}

impl From<BindingHealth> for TrackHealth {
    fn from(health: BindingHealth) -> (track: Self) {
        match health {
            BindingHealth::Healthy => TrackHealth::Healthy,
            BindingHealth::Unavailable => TrackHealth::Unavailable,
            BindingHealth::Retrying { attempt } => TrackHealth::Retrying { attempt },
            BindingHealth::Failed { reason } => TrackHealth::Failed { reason },
        }
    }
}

impl vstd::std_specs::convert::FromSpecImpl<BindingHealth> for TrackHealth {
    open spec fn obeys_from_spec() -> bool {
        true
    }

    open spec fn from_spec(health: BindingHealth) -> TrackHealth {
        track_health(health)
    }
}

/// Both tracks of one recording session. `self_health` is the microphone binding,
/// `remote_health` is the system-audio binding.
#[derive(Debug, Clone, PartialEq, Eq)]
pub struct CaptureHealth {
    pub self_health: TrackHealth,
    pub remote_health: TrackHealth,
}

impl Default for CaptureHealth {
    fn default() -> (health: Self)
        ensures
            health == (CaptureHealth {
                self_health: TrackHealth::Healthy,
                remote_health: TrackHealth::Healthy,
            }),
    {
        CaptureHealth { self_health: TrackHealth::default(), remote_health: TrackHealth::default() }
    }
}

/// Whether `health` is what a track shows whose binding is in this state. A binding that
/// is not there is no cause for alarm: its session has not started.
pub open spec fn shows(health: TrackHealth, state: DecisionState, kind: BindingKind) -> bool {
    if state@.bindings.contains_key(kind) {
        match state@.lifecycle(kind) {
            crate::rebinding::model::LifecycleModel::Waiting { reason } => match reason {
                crate::rebinding::WaitReason::RetryableFailure { attempt } => health == (
                TrackHealth::Retrying { attempt }),
                _ => health is Unavailable,
            },
            crate::rebinding::model::LifecycleModel::Failed { cause } =>
                health matches TrackHealth::Failed { reason } && reason@ == cause,
            _ => health is Healthy,
        }
    } else {
        health is Healthy
    }
}

/// The health of the track that a binding feeds.
pub fn health_of(state: &DecisionState, kind: BindingKind) -> (health: TrackHealth)
    ensures
        shows(health, *state, kind),
{
    match state.bindings.get(kind) {
        Some(binding) => TrackHealth::from(binding.lifecycle.health()),
        None => TrackHealth::default(),
    }
}

/// Snapshot of the health of both tracks.
pub fn capture_health(state: &DecisionState) -> (health: CaptureHealth)
    ensures
        shows(health.self_health, *state, BindingKind::Microphone),
        shows(health.remote_health, *state, BindingKind::EndpointLoopback),
{
    CaptureHealth {
        self_health: health_of(state, BindingKind::Microphone),
        remote_health: health_of(state, BindingKind::EndpointLoopback),
    }
}

/// A track is shown as retrying, as unavailable or as failed exactly where its binding
/// waits for a retry, waits for something else, or was given up on, and its health tells
/// the count and the cause; anything on the way to running, or not there, is no cause for
/// alarm.
pub proof fn law_health_tells_what_is_wrong(
    health: TrackHealth,
    state: DecisionState,
    kind: BindingKind,
)
    requires
        shows(health, state, kind),
    ensures
        !state@.bindings.contains_key(kind) ==> health is Healthy,
        state@.bindings.contains_key(kind) ==> {
            let lifecycle = state@.lifecycle(kind);
            &&& health is Failed <==> lifecycle is Failed
            &&& health is Failed ==> health->reason@ == lifecycle->cause
            &&& health is Retrying <==> lifecycle is Waiting
                && lifecycle->reason is RetryableFailure
            &&& health is Retrying ==> health->attempt
                == lifecycle->reason->RetryableFailure_attempt
            &&& health is Unavailable <==> lifecycle is Waiting
                && lifecycle->reason !is RetryableFailure
            &&& health is Healthy <==> lifecycle !is Failed && lifecycle !is Waiting
        },
{
}

/// A track's health is its binding's.
pub proof fn law_track_and_binding_are_equally_healthy(attempt: u32, reason: String)
    ensures
        track_health(BindingHealth::Healthy) is Healthy,
        track_health(BindingHealth::Unavailable) is Unavailable,
        track_health(BindingHealth::Retrying { attempt }) == (TrackHealth::Retrying { attempt }),
        track_health(BindingHealth::Failed { reason }) == (TrackHealth::Failed { reason }),
{
}

} // verus!
