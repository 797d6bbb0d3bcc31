//! Capture rebinding state machine.
//!
//! A pure, OS-independent decision function for safely rebinding an audio capture
//! stream (microphone, endpoint loopback, or process loopback) whenever the device
//! it is bound to disappears, the system default device changes, or (for process
//! loopback) the target process exits or restarts.
//!
//! Whatever talks to the OS reports raw facts as [`Observation`]s. [`decide`] is the
//! only place where state is written: it reads no clock, draws no random numbers, does
//! no I/O and spawns no threads, and turns a state and an input into the list of
//! [`Effect`]s for the caller to carry out. What one decision does is stated by
//! [`model::decide_step`]; what holds of every decision stands in [`laws`].
//!
//! All kinds of binding go through the same decisions, but what happens to endpoints never
//! reaches a process loopback: that one reacts to its process only.

pub mod laws;
pub mod model;
mod tables;

pub use tables::{BindingTable, RouteTable};

use model::{
    BindingModel, DecisionModel, EffectModel, InputModel, LifecycleModel, ObservationModel,
    SelectionModel, TargetModel,
};
use vstd::prelude::*;

verus! {

// ---------------------------------------------------------------------------
// Identifiers and selection policy
// ---------------------------------------------------------------------------
#[derive(Debug, PartialEq, Eq, Hash, PartialOrd, Ord)]
pub struct EndpointId(pub String);

impl View for EndpointId {
    type V = Seq<char>;

    open spec fn view(&self) -> Seq<char> {
        self.0@
    }
}

impl Clone for EndpointId {
    fn clone(&self) -> (copy: Self)
        ensures
            copy == *self,
    {
        EndpointId(self.0.clone())
    }
}

#[derive(Debug, Clone, Copy, PartialEq, Eq, Structural, Hash)]
pub enum DataFlow {
    Capture,
    Render,
}

#[derive(Debug, Clone, Copy, PartialEq, Eq, Structural, Hash)]
pub enum DeviceRole {
    Console,
    Multimedia,
    Communications,
}

/// Selection policy for a microphone or endpoint-loopback binding: either pinned to a
/// specific device, or following whatever the system's default device is.
#[derive(Debug, PartialEq, Eq)]
pub enum EndpointSelection {
    FollowDefault { flow: DataFlow, role: DeviceRole },
    Pinned { endpoint_id: EndpointId },
}

impl Clone for EndpointSelection {
    fn clone(&self) -> (copy: Self)
        ensures
            copy == *self,
    {
        match self {
            EndpointSelection::FollowDefault { flow, role } => EndpointSelection::FollowDefault {
                flow: *flow,
                role: *role,
            },
            EndpointSelection::Pinned { endpoint_id } => EndpointSelection::Pinned {
                endpoint_id: endpoint_id.clone(),
            },
        }
    }
}

/// What kind of target a binding manages. Used to route observations: endpoint-side
/// events never reach a `ProcessLoopback` binding.
#[derive(Debug, Clone, Copy, PartialEq, Eq, Structural, Hash)]
pub enum BindingKind {
    Microphone,
    EndpointLoopback,
    ProcessLoopback,
}

#[derive(Debug, PartialEq, Eq)]
pub enum BindingSelection {
    Endpoint(EndpointSelection),
    /// Process loopback has no endpoint selection; `pid` is updated as process
    /// discovery resolves it.
    Process { exe_name: String, pid: Option<u32> },
}

impl View for BindingSelection {
    type V = SelectionModel;

    open spec fn view(&self) -> SelectionModel {
        match self {
            BindingSelection::Endpoint(EndpointSelection::FollowDefault { flow, role }) =>
                SelectionModel::FollowDefault { flow: *flow, role: *role },
            BindingSelection::Endpoint(EndpointSelection::Pinned { endpoint_id }) =>
                SelectionModel::Pinned { endpoint_id: endpoint_id@ },
            BindingSelection::Process { exe_name, pid } => SelectionModel::Process {
                exe_name: exe_name@,
                pid: *pid,
            },
        }
    }
}

impl Clone for BindingSelection {
    fn clone(&self) -> (copy: Self)
        ensures
            copy == *self,
    {
        match self {
            BindingSelection::Endpoint(selection) => BindingSelection::Endpoint(selection.clone()),
            BindingSelection::Process { exe_name, pid } => BindingSelection::Process {
                exe_name: exe_name.clone(),
                pid: *pid,
            },
        }
    }
}

/// The concrete target that a binding's selection was resolved to.
#[derive(Debug, PartialEq, Eq)]
pub enum ResolvedTarget {
    Endpoint(EndpointId),
    Process { pid: u32 },
}

impl View for ResolvedTarget {
    type V = TargetModel;

    open spec fn view(&self) -> TargetModel {
        match self {
            ResolvedTarget::Endpoint(endpoint_id) => TargetModel::Endpoint(endpoint_id@),
            ResolvedTarget::Process { pid } => TargetModel::Process { pid: *pid },
        }
    }
}

impl Clone for ResolvedTarget {
    fn clone(&self) -> (copy: Self)
        ensures
            copy == *self,
    {
        match self {
            ResolvedTarget::Endpoint(endpoint_id) => ResolvedTarget::Endpoint(endpoint_id.clone()),
            ResolvedTarget::Process { pid } => ResolvedTarget::Process { pid: *pid },
        }
    }
}

// ---------------------------------------------------------------------------
// The state machine itself
// ---------------------------------------------------------------------------
#[derive(Debug, Clone, Copy, PartialEq, Eq, Structural, Hash)]
pub struct OperationId(pub u64);

#[derive(Debug, Clone, Copy, PartialEq, Eq, Structural, Hash)]
pub struct StreamEpoch(pub u64);

#[derive(Debug, Clone, Copy, PartialEq, Eq, Structural, Hash)]
pub struct EffectId(pub u64);

/// What to do once a pending stop finishes. Distinguishes "the device changed, so
/// resolve and restart immediately" from "the device disappeared, so wait": a pinned
/// device that disappears must not silently fall back to a different device.
#[derive(Debug, Clone, Copy, PartialEq, Eq, Structural)]
pub enum AfterStop {
    ResolveAndStart,
    WaitForRecovery { reason: WaitReason },
    RemainStopped,
}

#[derive(Debug, Clone, Copy, PartialEq, Eq, Structural)]
pub enum WaitReason {
    DeviceUnavailable,
    ProcessNotFound,
    RetryableFailure { attempt: u32 },
}

#[derive(Debug, PartialEq, Eq)]
pub enum CaptureBindingState {
    Stopped,
    Resolving { operation_id: OperationId },
    Starting { operation_id: OperationId, proposed_epoch: StreamEpoch, target: ResolvedTarget },
    Running { operation_id: OperationId, epoch: StreamEpoch, target: ResolvedTarget },
    Stopping { operation_id: OperationId, epoch: StreamEpoch, next: AfterStop },
    Waiting { reason: WaitReason },
    Failed { cause: String },
}

impl View for CaptureBindingState {
    type V = LifecycleModel;

    open spec fn view(&self) -> LifecycleModel {
        match self {
            CaptureBindingState::Stopped => LifecycleModel::Stopped,
            CaptureBindingState::Resolving { operation_id } => LifecycleModel::Resolving {
                operation_id: *operation_id,
            },
            CaptureBindingState::Starting { operation_id, proposed_epoch, target } =>
                LifecycleModel::Starting {
                operation_id: *operation_id,
                proposed_epoch: *proposed_epoch,
                target: target@,
            },
            CaptureBindingState::Running { operation_id, epoch, target } =>
                LifecycleModel::Running {
                operation_id: *operation_id,
                epoch: *epoch,
                target: target@,
            },
            CaptureBindingState::Stopping { operation_id, epoch, next } =>
                LifecycleModel::Stopping {
                operation_id: *operation_id,
                epoch: *epoch,
                next: *next,
            },
            CaptureBindingState::Waiting { reason } => LifecycleModel::Waiting { reason: *reason },
            CaptureBindingState::Failed { cause } => LifecycleModel::Failed { cause: cause@ },
        }
    }
}

impl Clone for CaptureBindingState {
    fn clone(&self) -> (copy: Self)
        ensures
            copy == *self,
    {
        match self {
            CaptureBindingState::Stopped => CaptureBindingState::Stopped,
            CaptureBindingState::Resolving { operation_id } => CaptureBindingState::Resolving {
                operation_id: *operation_id,
            },
            CaptureBindingState::Starting { operation_id, proposed_epoch, target } =>
                CaptureBindingState::Starting {
                operation_id: *operation_id,
                proposed_epoch: *proposed_epoch,
                target: target.clone(),
            },
            CaptureBindingState::Running { operation_id, epoch, target } =>
                CaptureBindingState::Running {
                operation_id: *operation_id,
                epoch: *epoch,
                target: target.clone(),
            },
            CaptureBindingState::Stopping { operation_id, epoch, next } =>
                CaptureBindingState::Stopping {
                operation_id: *operation_id,
                epoch: *epoch,
                next: *next,
            },
            CaptureBindingState::Waiting { reason } => CaptureBindingState::Waiting {
                reason: *reason,
            },
            CaptureBindingState::Failed { cause } => CaptureBindingState::Failed {
                cause: cause.clone(),
            },
        }
    }
}

impl CaptureBindingState {
    /// Whether a frame carrying this epoch should be accepted. Frames from a stale
    /// (previous) epoch must never be treated as belonging to the current binding.
    pub fn accepts_epoch(&self, epoch: StreamEpoch) -> (accepted: bool)
        ensures
            accepted == self@.accepts_epoch(epoch),
    {
        match self {
            CaptureBindingState::Running { epoch: current, .. } => *current == epoch,
            _ => false,
        }
    }

    /// Collapses the full lifecycle into the coarse classification that a caller
    /// outside this crate needs: is this track's audio flowing, and if not, why.
    /// `Starting`, `Stopping`, `Resolving` and `Stopped` are expected states on the way
    /// to `Running` or to a deliberate stop, so they count as healthy.
    pub fn health(&self) -> (health: BindingHealth)
        ensures
            match self {
                CaptureBindingState::Waiting { reason: WaitReason::DeviceUnavailable } => health
                    is Unavailable,
                CaptureBindingState::Waiting { reason: WaitReason::ProcessNotFound } => health
                    is Unavailable,
                CaptureBindingState::Waiting {
                    reason: WaitReason::RetryableFailure { attempt },
                } => health == (BindingHealth::Retrying { attempt: *attempt }),
                CaptureBindingState::Failed { cause } => health == (BindingHealth::Failed {
                    reason: *cause,
                }),
                _ => health is Healthy,
            },
    {
        match self {
            CaptureBindingState::Stopped => BindingHealth::Healthy,
            CaptureBindingState::Resolving { .. } => BindingHealth::Healthy,
            CaptureBindingState::Starting { .. } => BindingHealth::Healthy,
            CaptureBindingState::Running { .. } => BindingHealth::Healthy,
            CaptureBindingState::Stopping { .. } => BindingHealth::Healthy,
            CaptureBindingState::Waiting { reason } => match reason {
                WaitReason::DeviceUnavailable => BindingHealth::Unavailable,
                WaitReason::ProcessNotFound => BindingHealth::Unavailable,
                WaitReason::RetryableFailure { attempt } => BindingHealth::Retrying {
                    attempt: *attempt,
                },
            },
            CaptureBindingState::Failed { cause } => BindingHealth::Failed {
                reason: cause.clone(),
            },
        }
    }
}

/// A coarse classification of [`CaptureBindingState`]; see
/// [`CaptureBindingState::health`].
#[derive(Debug, Clone, PartialEq, Eq)]
pub enum BindingHealth {
    Healthy,
    Unavailable,
    Retrying { attempt: u32 },
    Failed { reason: String },
}

#[derive(Debug)]
pub struct CaptureBinding {
    pub kind: BindingKind,
    pub selection: BindingSelection,
    pub lifecycle: CaptureBindingState,
    /// Consecutive-failure count. It lives on the binding and not inside the lifecycle
    /// because it must survive the cycle of starting, failing, waiting and starting
    /// again.
    pub retry_attempt: u32,
}

impl View for CaptureBinding {
    type V = BindingModel;

    open spec fn view(&self) -> BindingModel {
        BindingModel {
            selection: self.selection@,
            lifecycle: self.lifecycle@,
            retry_attempt: self.retry_attempt as nat,
        }
    }
}

impl Clone for CaptureBinding {
    fn clone(&self) -> (copy: Self)
        ensures
            copy == *self,
    {
        CaptureBinding {
            kind: self.kind,
            selection: self.selection.clone(),
            lifecycle: self.lifecycle.clone(),
            retry_attempt: self.retry_attempt,
        }
    }
}

impl CaptureBinding {
    pub fn new(kind: BindingKind, selection: BindingSelection) -> (binding: Self)
        ensures
            binding.kind == kind,
            binding.selection == selection,
            binding.lifecycle == CaptureBindingState::Stopped,
            binding.retry_attempt == 0,
    {
        CaptureBinding {
            kind,
            selection,
            lifecycle: CaptureBindingState::Stopped,
            retry_attempt: 0,
        }
    }
}

/// Caps retries so that an unrecoverable failure is not retried forever. Once exceeded,
/// the binding moves to `Failed` and [`decide`] stops producing effects for it.
pub const MAX_RETRY_ATTEMPTS: u32 = 5;

// ---------------------------------------------------------------------------
// State, inputs and effects
// ---------------------------------------------------------------------------
#[derive(Debug)]
pub struct DecisionState {
    pub bindings: BindingTable,
    pub default_routes: RouteTable,
    /// The next operation id to hand out; counts up with every start.
    pub next_operation_id: u64,
    /// The next stream epoch to hand out; counts up with every start.
    pub next_stream_epoch: u64,
    /// The next effect id to hand out; counts up with every effect.
    pub next_effect_id: u64,
    pub shutdown: bool,
}

impl View for DecisionState {
    type V = DecisionModel;

    open spec fn view(&self) -> DecisionModel {
        DecisionModel {
            bindings: self.bindings@,
            routes: self.default_routes@,
            next_operation_id: self.next_operation_id as nat,
            next_stream_epoch: self.next_stream_epoch as nat,
            next_effect_id: self.next_effect_id as nat,
            shutdown: self.shutdown,
        }
    }
}

impl Default for DecisionState {
    fn default() -> (state: Self)
        ensures
            state@ == DecisionModel::empty(),
    {
        DecisionState::new()
    }
}

impl DecisionState {
    pub fn new() -> (state: Self)
        ensures
            state@ == DecisionModel::empty(),
    {
        DecisionState {
            bindings: BindingTable::new(),
            default_routes: RouteTable::new(),
            next_operation_id: 0,
            next_stream_epoch: 0,
            next_effect_id: 0,
            shutdown: false,
        }
    }

    pub fn with_binding(self, binding: CaptureBinding) -> (state: Self)
        ensures
            state@ == (DecisionModel {
                bindings: self@.bindings.insert(binding.kind, binding@),
                ..self@
            }),
    {
        let mut state: DecisionState = self;
        state.bindings.insert(binding);
        state
    }

    /// Whether a frame that carries this epoch belongs to the current generation of
    /// the binding. A binding that is not there accepts nothing.
    pub fn accepts_epoch(&self, kind: BindingKind, epoch: StreamEpoch) -> (accepted: bool)
        ensures
            accepted == self@.accepts_epoch(kind, epoch),
    {
        match self.bindings.get(kind) {
            Some(binding) => binding.lifecycle.accepts_epoch(epoch),
            None => false,
        }
    }

    fn alloc_operation_id(&mut self) -> (id: OperationId)
        requires
            old(self)@.next_operation_id < u64::MAX,
        ensures
            id == OperationId(old(self)@.next_operation_id as u64),
            final(self)@ == (DecisionModel {
                next_operation_id: old(self)@.next_operation_id + 1,
                ..old(self)@
            }),
    {
        let id = OperationId(self.next_operation_id);
        self.next_operation_id = self.next_operation_id + 1;
        id
    }

    fn alloc_stream_epoch(&mut self) -> (epoch: StreamEpoch)
        requires
            old(self)@.next_stream_epoch < u64::MAX,
        ensures
            epoch == StreamEpoch(old(self)@.next_stream_epoch as u64),
            final(self)@ == (DecisionModel {
                next_stream_epoch: old(self)@.next_stream_epoch + 1,
                ..old(self)@
            }),
    {
        let epoch = StreamEpoch(self.next_stream_epoch);
        self.next_stream_epoch = self.next_stream_epoch + 1;
        epoch
    }

    fn alloc_effect_id(&mut self) -> (id: EffectId)
        requires
            old(self)@.next_effect_id < u64::MAX,
        ensures
            id == EffectId(old(self)@.next_effect_id as u64),
            final(self)@ == (DecisionModel {
                next_effect_id: old(self)@.next_effect_id + 1,
                ..old(self)@
            }),
    {
        let id = EffectId(self.next_effect_id);
        self.next_effect_id = self.next_effect_id + 1;
        id
    }

    fn set_lifecycle(&mut self, kind: BindingKind, lifecycle: CaptureBindingState)
        requires
            old(self)@.bindings.contains_key(kind),
        ensures
            final(self)@ == old(self)@.set_lifecycle(kind, lifecycle@),
    {
        self.bindings.set_lifecycle(kind, lifecycle);
    }
}

/// A raw fact reported by the OS or by the worker that runs the capture. [`decide`]
/// never takes these at face value: it holds them against the current lifecycle,
/// operation and epoch before they change anything.
#[derive(Debug, Clone, PartialEq, Eq)]
#[allow(inconsistent_fields)]
pub enum Observation {
    /// A physical endpoint disappeared. `ProcessLoopback` ignores this.
    EndpointRemoved { endpoint_id: EndpointId },
    /// An endpoint (re)appeared. This is what lets a binding recover out of `Waiting`.
    EndpointAdded { endpoint_id: EndpointId },
    /// The system default device changed (`None` means "no default").
    DefaultEndpointChanged { flow: DataFlow, role: DeviceRole, endpoint_id: Option<EndpointId> },
    /// The worker finished carrying out an [`Effect::StartCapture`].
    WorkerStarted {
        binding: BindingKind,
        operation_id: OperationId,
        epoch: StreamEpoch,
        target: ResolvedTarget,
    },
    /// The worker finished carrying out an [`Effect::StopCapture`].
    WorkerStopped { binding: BindingKind, operation_id: OperationId, epoch: StreamEpoch },
    /// The worker hit an unrecoverable error.
    WorkerFailed { binding: BindingKind, operation_id: OperationId, error: String },
    /// `ProcessLoopback` only: the target process exited (not a restart).
    ProcessExited { pid: u32 },
    /// `ProcessLoopback` only: the target process restarted under a new process id.
    ProcessRestarted { old_pid: u32, new_pid: u32 },
}

impl View for Observation {
    type V = ObservationModel;

    open spec fn view(&self) -> ObservationModel {
        match self {
            Observation::EndpointRemoved { endpoint_id } => ObservationModel::EndpointRemoved {
                endpoint_id: endpoint_id@,
            },
            Observation::EndpointAdded { endpoint_id } => ObservationModel::EndpointAdded {
                endpoint_id: endpoint_id@,
            },
            Observation::DefaultEndpointChanged { flow, role, endpoint_id } =>
                ObservationModel::DefaultEndpointChanged {
                flow: *flow,
                role: *role,
                endpoint_id: tables::endpoint_text(*endpoint_id),
            },
            Observation::WorkerStarted { binding, operation_id, epoch, target } =>
                ObservationModel::WorkerStarted {
                binding: *binding,
                operation_id: *operation_id,
                epoch: *epoch,
                target: target@,
            },
            Observation::WorkerStopped { binding, operation_id, epoch } =>
                ObservationModel::WorkerStopped {
                binding: *binding,
                operation_id: *operation_id,
                epoch: *epoch,
            },
            Observation::WorkerFailed { binding, operation_id, error } =>
                ObservationModel::WorkerFailed {
                binding: *binding,
                operation_id: *operation_id,
                error: error@,
            },
            Observation::ProcessExited { pid } => ObservationModel::ProcessExited { pid: *pid },
            Observation::ProcessRestarted { old_pid, new_pid } =>
                ObservationModel::ProcessRestarted { old_pid: *old_pid, new_pid: *new_pid },
        }
    }
}

#[derive(Debug, Clone, PartialEq, Eq)]
pub enum UserIntent {
    Start { binding: BindingKind },
    Stop { binding: BindingKind },
}

#[derive(Debug, Clone, PartialEq, Eq)]
pub enum DecisionInput {
    Observation(Observation),
    UserIntent(UserIntent),
    /// A timer firing for [`Effect::ScheduleRetry`]. Ignored if `retry_id` does not
    /// match the current state, so that a stale timer changes nothing.
    RetryTimerFired { binding: BindingKind, retry_id: u64 },
    ShutdownRequested,
}

impl View for DecisionInput {
    type V = InputModel;

    open spec fn view(&self) -> InputModel {
        match self {
            DecisionInput::Observation(obs) => InputModel::Observation(obs@),
            DecisionInput::UserIntent(UserIntent::Start { binding }) => InputModel::Start {
                binding: *binding,
            },
            DecisionInput::UserIntent(UserIntent::Stop { binding }) => InputModel::Stop {
                binding: *binding,
            },
            DecisionInput::RetryTimerFired { binding, retry_id } => InputModel::RetryTimerFired {
                binding: *binding,
                retry_id: *retry_id,
            },
            DecisionInput::ShutdownRequested => InputModel::ShutdownRequested,
        }
    }
}

#[derive(Debug, Clone, PartialEq, Eq)]
pub enum Effect {
    StartCapture {
        effect_id: EffectId,
        binding: BindingKind,
        operation_id: OperationId,
        proposed_epoch: StreamEpoch,
        target: ResolvedTarget,
    },
    StopCapture {
        effect_id: EffectId,
        binding: BindingKind,
        operation_id: OperationId,
        epoch: StreamEpoch,
    },
    ScheduleRetry { effect_id: EffectId, binding: BindingKind, retry_id: u64, attempt: u32 },
}

impl View for Effect {
    type V = EffectModel;

    open spec fn view(&self) -> EffectModel {
        match self {
            Effect::StartCapture { effect_id, binding, operation_id, proposed_epoch, target } =>
                EffectModel::StartCapture {
                effect_id: *effect_id,
                binding: *binding,
                operation_id: *operation_id,
                proposed_epoch: *proposed_epoch,
                target: target@,
            },
            Effect::StopCapture { effect_id, binding, operation_id, epoch } =>
                EffectModel::StopCapture {
                effect_id: *effect_id,
                binding: *binding,
                operation_id: *operation_id,
                epoch: *epoch,
            },
            Effect::ScheduleRetry { effect_id, binding, retry_id, attempt } =>
                EffectModel::ScheduleRetry {
                effect_id: *effect_id,
                binding: *binding,
                retry_id: *retry_id,
                attempt: *attempt,
            },
        }
    }
}

/// The effects of a list, each by its model.
pub open spec fn effects_of(effects: Seq<Effect>) -> Seq<EffectModel> {
    Seq::new(effects.len(), |i: int| effects[i]@)
}

/// The effect of an optional effect, as a list of at most one.
pub open spec fn effects_of_option(effect: Option<Effect>) -> Seq<EffectModel> {
    match effect {
        Some(effect) => seq![effect@],
        None => Seq::empty(),
    }
}

/// The optional target, by its model.
pub open spec fn target_of_option(target: Option<ResolvedTarget>) -> Option<TargetModel> {
    match target {
        Some(target) => Some(target@),
        None => None,
    }
}

fn push_effect(effects: &mut Vec<Effect>, effect: Option<Effect>)
    ensures
        effects_of(final(effects)@) == effects_of(old(effects)@) + effects_of_option(effect),
{
    match effect {
        Some(effect) => {
            effects.push(effect);
        },
        None => {},
    }
    assert(effects_of(effects@) =~= effects_of(old(effects)@) + effects_of_option(effect));
}

fn into_list(effect: Option<Effect>) -> (effects: Vec<Effect>)
    ensures
        effects_of(effects@) == effects_of_option(effect),
{
    let mut effects: Vec<Effect> = Vec::new();
    push_effect(&mut effects, effect);
    assert(effects_of(effects@) =~= effects_of_option(effect));
    effects
}

fn no_effects() -> (effects: Vec<Effect>)
    ensures
        effects_of(effects@) == Seq::<EffectModel>::empty(),
{
    let effects: Vec<Effect> = Vec::new();
    assert(effects_of(effects@) =~= Seq::empty());
    effects
}

fn same_target(a: &ResolvedTarget, b: &ResolvedTarget) -> (same: bool)
    ensures
        same == (a@ == b@),
{
    match (a, b) {
        (ResolvedTarget::Endpoint(x), ResolvedTarget::Endpoint(y)) => x.0 == y.0,
        (ResolvedTarget::Process { pid: x }, ResolvedTarget::Process { pid: y }) => *x == *y,
        _ => false,
    }
}

/// The target that a selection stands for right now. A pinned selection is the intent
/// to use that exact endpoint; whether it exists is found out later, and no other
/// endpoint is ever put in its place.
fn resolve_target(selection: &BindingSelection, default_routes: &RouteTable) -> (target: Option<
    ResolvedTarget,
>)
    ensures
        target_of_option(target) == model::resolve(selection@, default_routes@),
{
    match selection {
        BindingSelection::Endpoint(EndpointSelection::Pinned { endpoint_id }) => Some(
            ResolvedTarget::Endpoint(endpoint_id.clone()),
        ),
        BindingSelection::Endpoint(EndpointSelection::FollowDefault { flow, role }) => {
            match default_routes.get(*flow, *role) {
                Some(endpoint_id) => Some(ResolvedTarget::Endpoint(endpoint_id.clone())),
                None => None,
            }
        },
        BindingSelection::Process { pid, .. } => match pid {
            Some(pid) => Some(ResolvedTarget::Process { pid: *pid }),
            None => None,
        },
    }
}

/// Whether `selection` currently points at `target`: a default change to what the
/// binding already has is then no change at all.
fn selection_targets(
    selection: &BindingSelection,
    target: &ResolvedTarget,
    default_routes: &RouteTable,
) -> (same: bool)
    ensures
        same == (model::resolve(selection@, default_routes@) == Some(target@)),
{
    match resolve_target(selection, default_routes) {
        Some(resolved) => same_target(&resolved, target),
        None => false,
    }
}

/// The endpoint that a selection is pinned to, if it is pinned.
fn resolve_target_id(selection: &BindingSelection) -> (endpoint_id: Option<EndpointId>)
    ensures
        tables::endpoint_text(endpoint_id) == model::pinned_endpoint(selection@),
{
    match selection {
        BindingSelection::Endpoint(EndpointSelection::Pinned { endpoint_id }) => Some(
            endpoint_id.clone(),
        ),
        _ => None,
    }
}

/// The only place where state is written. Reads no clock, draws no random numbers,
/// makes no OS calls: every id comes from the counters inside `state`. Where several
/// bindings are affected, they are taken in the order in which [`BindingKind`] lists
/// the kinds.
pub fn decide(state: &mut DecisionState, input: DecisionInput) -> (effects: Vec<Effect>)
    requires
        model::decide_step(old(state)@, input@).state.fits(),
    ensures
        final(state)@ == model::decide_step(old(state)@, input@).state,
        effects_of(effects@) == model::decide_step(old(state)@, input@).effects,
{
    match input {
        DecisionInput::ShutdownRequested => shut_down(state),
        DecisionInput::UserIntent(UserIntent::Start { binding }) => into_list(
            start_binding(state, binding),
        ),
        DecisionInput::UserIntent(UserIntent::Stop { binding }) => into_list(
            stop_binding(state, binding, AfterStop::RemainStopped),
        ),
        DecisionInput::RetryTimerFired { binding, retry_id } => handle_retry_timer(
            state,
            binding,
            retry_id,
        ),
        DecisionInput::Observation(obs) => handle_observation(state, obs),
    }
}

fn shut_down(state: &mut DecisionState) -> (effects: Vec<Effect>)
    requires
        model::shutdown_step(old(state)@).state.fits(),
    ensures
        final(state)@ == model::shutdown_step(old(state)@).state,
        effects_of(effects@) == model::shutdown_step(old(state)@).effects,
{
    state.shutdown = true;
    proof {
        let a = model::shutdown_one(state@, BindingKind::Microphone).state;
        let b = model::shutdown_one(a, BindingKind::EndpointLoopback).state;
        let c = model::shutdown_one(b, BindingKind::ProcessLoopback).state;
        model::lemma_stop_advances(a, BindingKind::EndpointLoopback, AfterStop::RemainStopped);
        model::lemma_stop_advances(b, BindingKind::ProcessLoopback, AfterStop::RemainStopped);
        model::lemma_fitted_before(b, c, 1);
        model::lemma_fitted_before(a, b, 1);
    }
    let mut effects: Vec<Effect> = no_effects();
    let first: Option<Effect> = stop_binding(
        state,
        BindingKind::Microphone,
        AfterStop::RemainStopped,
    );
    push_effect(&mut effects, first);
    let second: Option<Effect> = stop_binding(
        state,
        BindingKind::EndpointLoopback,
        AfterStop::RemainStopped,
    );
    push_effect(&mut effects, second);
    let third: Option<Effect> = stop_binding(
        state,
        BindingKind::ProcessLoopback,
        AfterStop::RemainStopped,
    );
    push_effect(&mut effects, third);
    assert(effects_of(effects@) =~= model::shutdown_step(old(state)@).effects);
    effects
}

fn start_binding(state: &mut DecisionState, kind: BindingKind) -> (effect: Option<Effect>)
    requires
        model::start_step(old(state)@, kind).state.fits(),
    ensures
        final(state)@ == model::start_step(old(state)@, kind).state,
        effects_of_option(effect) == model::start_step(old(state)@, kind).effects,
{
    if state.shutdown {
        return None;
    }
    let target: Option<ResolvedTarget> = match state.bindings.get(kind) {
        None => {
            return None;
        },
        Some(binding) => {
            // A fresh start from Stopped, or a retry from Waiting (the device recovered,
            // or a retry timer fired). Anything else is refused: in particular no new
            // worker is started while one is still stopping.
            match binding.lifecycle {
                CaptureBindingState::Stopped => {},
                CaptureBindingState::Waiting { .. } => {},
                _ => {
                    return None;
                },
            }
            resolve_target(&binding.selection, &state.default_routes)
        },
    };
    match target {
        Some(target) => {
            let operation_id: OperationId = state.alloc_operation_id();
            let proposed_epoch: StreamEpoch = state.alloc_stream_epoch();
            let effect_id: EffectId = state.alloc_effect_id();
            state.set_lifecycle(
                kind,
                CaptureBindingState::Starting {
                    operation_id,
                    proposed_epoch,
                    target: target.clone(),
                },
            );
            Some(
                Effect::StartCapture {
                    effect_id,
                    binding: kind,
                    operation_id,
                    proposed_epoch,
                    target,
                },
            )
        },
        None => {
            state.set_lifecycle(
                kind,
                CaptureBindingState::Waiting { reason: WaitReason::DeviceUnavailable },
            );
            None
        },
    }
}

/// Stops a running binding with a plan for what happens afterwards.
fn stop_binding(state: &mut DecisionState, kind: BindingKind, next: AfterStop) -> (effect: Option<
    Effect,
>)
    requires
        model::stop_step(old(state)@, kind, next).state.fits(),
    ensures
        final(state)@ == model::stop_step(old(state)@, kind, next).state,
        effects_of_option(effect) == model::stop_step(old(state)@, kind, next).effects,
{
    let (operation_id, epoch): (OperationId, StreamEpoch) = match state.bindings.get(kind) {
        None => {
            return None;
        },
        Some(binding) => match &binding.lifecycle {
            CaptureBindingState::Running { operation_id, epoch, .. } => (*operation_id, *epoch),
            _ => {
                return None;
            },
        },
    };
    let effect_id: EffectId = state.alloc_effect_id();
    state.set_lifecycle(kind, CaptureBindingState::Stopping { operation_id, epoch, next });
    Some(Effect::StopCapture { effect_id, binding: kind, operation_id, epoch })
}

fn reroute_binding(
    state: &mut DecisionState,
    kind: BindingKind,
    flow: DataFlow,
    role: DeviceRole,
) -> (effect: Option<Effect>)
    requires
        model::reroute_one(old(state)@, kind, flow, role).state.fits(),
    ensures
        final(state)@ == model::reroute_one(old(state)@, kind, flow, role).state,
        effects_of_option(effect) == model::reroute_one(old(state)@, kind, flow, role).effects,
{
    let restart: bool = match state.bindings.get(kind) {
        None => false,
        Some(binding) => match &binding.selection {
            BindingSelection::Endpoint(EndpointSelection::FollowDefault { flow: f, role: r }) => {
                if kind != BindingKind::ProcessLoopback && *f == flow && *r == role {
                    match &binding.lifecycle {
                        // Already connected to the new default: nothing to do.
                        CaptureBindingState::Running { target, .. } => !selection_targets(
                            &binding.selection,
                            target,
                            &state.default_routes,
                        ),
                        // While stopping, starting or waiting, the recorded default is
                        // picked up when the binding next resolves.
                        _ => false,
                    }
                } else {
                    false
                }
            },
            _ => false,
        },
    };
    if restart {
        stop_binding(state, kind, AfterStop::ResolveAndStart)
    } else {
        None
    }
}

fn remove_endpoint(
    state: &mut DecisionState,
    kind: BindingKind,
    endpoint_id: &EndpointId,
) -> (effect: Option<Effect>)
    requires
        model::remove_one(old(state)@, kind, endpoint_id@).state.fits(),
    ensures
        final(state)@ == model::remove_one(old(state)@, kind, endpoint_id@).state,
        effects_of_option(effect) == model::remove_one(old(state)@, kind, endpoint_id@).effects,
{
    let lost: bool = if kind == BindingKind::ProcessLoopback {
        false
    } else {
        match state.bindings.get(kind) {
            None => false,
            Some(binding) => match &binding.lifecycle {
                CaptureBindingState::Running { target: ResolvedTarget::Endpoint(id), .. } => id.0
                    == endpoint_id.0,
                _ => false,
            },
        }
    };
    if lost {
        stop_binding(
            state,
            kind,
            AfterStop::WaitForRecovery { reason: WaitReason::DeviceUnavailable },
        )
    } else {
        None
    }
}

fn add_endpoint(
    state: &mut DecisionState,
    kind: BindingKind,
    endpoint_id: &EndpointId,
) -> (effect: Option<Effect>)
    requires
        model::add_one(old(state)@, kind, endpoint_id@).state.fits(),
    ensures
        final(state)@ == model::add_one(old(state)@, kind, endpoint_id@).state,
        effects_of_option(effect) == model::add_one(old(state)@, kind, endpoint_id@).effects,
{
    let found: bool = if kind == BindingKind::ProcessLoopback {
        false
    } else {
        match state.bindings.get(kind) {
            None => false,
            Some(binding) => match &binding.lifecycle {
                CaptureBindingState::Waiting { .. } => match resolve_target_id(&binding.selection) {
                    Some(id) => id.0 == endpoint_id.0,
                    None => false,
                },
                _ => false,
            },
        }
    };
    if found {
        start_binding(state, kind)
    } else {
        None
    }
}

fn handle_observation(state: &mut DecisionState, obs: Observation) -> (effects: Vec<Effect>)
    requires
        model::observe_step(old(state)@, obs@).state.fits(),
    ensures
        final(state)@ == model::observe_step(old(state)@, obs@).state,
        effects_of(effects@) == model::observe_step(old(state)@, obs@).effects,
{
    match obs {
        Observation::DefaultEndpointChanged { flow, role, endpoint_id } => {
            state.default_routes.insert((flow, role), endpoint_id);
            proof {
                let a = model::reroute_one(state@, BindingKind::Microphone, flow, role).state;
                let b = model::reroute_one(a, BindingKind::EndpointLoopback, flow, role).state;
                let c = model::reroute_one(b, BindingKind::ProcessLoopback, flow, role).state;
                model::lemma_reroute_advances(a, BindingKind::EndpointLoopback, flow, role);
                model::lemma_reroute_advances(b, BindingKind::ProcessLoopback, flow, role);
                model::lemma_fitted_before(b, c, 1);
                model::lemma_fitted_before(a, b, 1);
            }
            let mut effects: Vec<Effect> = no_effects();
            let first: Option<Effect> = reroute_binding(state, BindingKind::Microphone, flow, role);
            push_effect(&mut effects, first);
            let second: Option<Effect> = reroute_binding(
                state,
                BindingKind::EndpointLoopback,
                flow,
                role,
            );
            push_effect(&mut effects, second);
            let third: Option<Effect> = reroute_binding(
                state,
                BindingKind::ProcessLoopback,
                flow,
                role,
            );
            push_effect(&mut effects, third);
            assert(effects_of(effects@) =~= model::observe_step(old(state)@, obs@).effects);
            effects
        },
        Observation::EndpointRemoved { endpoint_id } => {
            proof {
                let a = model::remove_one(state@, BindingKind::Microphone, endpoint_id@).state;
                let b = model::remove_one(a, BindingKind::EndpointLoopback, endpoint_id@).state;
                let c = model::remove_one(b, BindingKind::ProcessLoopback, endpoint_id@).state;
                model::lemma_remove_advances(a, BindingKind::EndpointLoopback, endpoint_id@);
                model::lemma_remove_advances(b, BindingKind::ProcessLoopback, endpoint_id@);
                model::lemma_fitted_before(b, c, 1);
                model::lemma_fitted_before(a, b, 1);
            }
            let mut effects: Vec<Effect> = no_effects();
            let first: Option<Effect> = remove_endpoint(
                state,
                BindingKind::Microphone,
                &endpoint_id,
            );
            push_effect(&mut effects, first);
            let second: Option<Effect> = remove_endpoint(
                state,
                BindingKind::EndpointLoopback,
                &endpoint_id,
            );
            push_effect(&mut effects, second);
            let third: Option<Effect> = remove_endpoint(
                state,
                BindingKind::ProcessLoopback,
                &endpoint_id,
            );
            push_effect(&mut effects, third);
            assert(effects_of(effects@) =~= model::observe_step(old(state)@, obs@).effects);
            effects
        },
        Observation::EndpointAdded { endpoint_id } => {
            proof {
                let a = model::add_one(state@, BindingKind::Microphone, endpoint_id@).state;
                let b = model::add_one(a, BindingKind::EndpointLoopback, endpoint_id@).state;
                let c = model::add_one(b, BindingKind::ProcessLoopback, endpoint_id@).state;
                model::lemma_add_advances(a, BindingKind::EndpointLoopback, endpoint_id@);
                model::lemma_add_advances(b, BindingKind::ProcessLoopback, endpoint_id@);
                model::lemma_fitted_before(b, c, 1);
                model::lemma_fitted_before(a, b, 1);
            }
            let mut effects: Vec<Effect> = no_effects();
            let first: Option<Effect> = add_endpoint(state, BindingKind::Microphone, &endpoint_id);
            push_effect(&mut effects, first);
            let second: Option<Effect> = add_endpoint(
                state,
                BindingKind::EndpointLoopback,
                &endpoint_id,
            );
            push_effect(&mut effects, second);
            let third: Option<Effect> = add_endpoint(
                state,
                BindingKind::ProcessLoopback,
                &endpoint_id,
            );
            push_effect(&mut effects, third);
            assert(effects_of(effects@) =~= model::observe_step(old(state)@, obs@).effects);
            effects
        },
        Observation::ProcessExited { pid } => {
            match process_binding_with_pid(state, pid) {
                Some(kind) => into_list(
                    stop_binding(
                        state,
                        kind,
                        AfterStop::WaitForRecovery { reason: WaitReason::ProcessNotFound },
                    ),
                ),
                None => no_effects(),
            }
        },
        Observation::ProcessRestarted { old_pid, new_pid } => {
            match process_binding_with_pid(state, old_pid) {
                Some(kind) => {
                    move_to_pid(state, kind, new_pid);
                    into_list(stop_binding(state, kind, AfterStop::ResolveAndStart))
                },
                None => no_effects(),
            }
        },
        Observation::WorkerStarted { binding, operation_id, epoch, target } => worker_started(
            state,
            binding,
            operation_id,
            epoch,
            target,
        ),
        Observation::WorkerStopped { binding, operation_id, epoch } => worker_stopped(
            state,
            binding,
            operation_id,
            epoch,
        ),
        Observation::WorkerFailed { binding, operation_id, error } => worker_failed(
            state,
            binding,
            operation_id,
            error,
        ),
    }
}

fn worker_started(
    state: &mut DecisionState,
    kind: BindingKind,
    operation_id: OperationId,
    epoch: StreamEpoch,
    target: ResolvedTarget,
) -> (effects: Vec<Effect>)
    ensures
        final(state)@ == model::worker_started_step(
            old(state)@,
            kind,
            operation_id,
            epoch,
            target@,
        ).state,
        effects_of(effects@) == Seq::<EffectModel>::empty(),
{
    let expected: bool = match state.bindings.get(kind) {
        None => false,
        Some(binding) => match &binding.lifecycle {
            CaptureBindingState::Starting { operation_id: op, proposed_epoch, .. } => *op
                == operation_id && *proposed_epoch == epoch,
            // A late arrival from another operation is stale.
            _ => false,
        },
    };
    if expected {
        // Success resets the consecutive-failure count.
        state.bindings.set_attempt(
            kind,
            CaptureBindingState::Running { operation_id, epoch, target },
            0,
        );
    }
    no_effects()
}

fn worker_stopped(
    state: &mut DecisionState,
    kind: BindingKind,
    operation_id: OperationId,
    epoch: StreamEpoch,
) -> (effects: Vec<Effect>)
    requires
        model::worker_stopped_step(old(state)@, kind, operation_id, epoch).state.fits(),
    ensures
        final(state)@ == model::worker_stopped_step(old(state)@, kind, operation_id, epoch).state,
        effects_of(effects@) == model::worker_stopped_step(
            old(state)@,
            kind,
            operation_id,
            epoch,
        ).effects,
{
    let next: AfterStop = match state.bindings.get(kind) {
        None => {
            return no_effects();
        },
        Some(binding) => match &binding.lifecycle {
            CaptureBindingState::Stopping { operation_id: op, epoch: e, next } => {
                if *op != operation_id || *e != epoch {
                    return no_effects();
                }
                *next
            },
            _ => {
                return no_effects();
            },
        },
    };
    match next {
        AfterStop::RemainStopped => {
            state.set_lifecycle(kind, CaptureBindingState::Stopped);
            no_effects()
        },
        AfterStop::WaitForRecovery { reason } => {
            state.set_lifecycle(kind, CaptureBindingState::Waiting { reason });
            no_effects()
        },
        AfterStop::ResolveAndStart => {
            state.set_lifecycle(kind, CaptureBindingState::Stopped);
            into_list(start_binding(state, kind))
        },
    }
}

fn giving_up_text(attempt: u32, error: &str) -> (cause: String)
    ensures
        cause@ == model::giving_up(attempt as nat, error@),
{
    let count: String = crate::text::decimal_text(attempt as u64);
    let cause: String = String::from_str("giving up after ").concat(count.as_str()).concat(
        " attempts: ",
    ).concat(error);
    assert(cause@ =~= model::giving_up(attempt as nat, error@));
    cause
}

fn worker_failed(
    state: &mut DecisionState,
    kind: BindingKind,
    operation_id: OperationId,
    error: String,
) -> (effects: Vec<Effect>)
    requires
        model::worker_failed_step(old(state)@, kind, operation_id, error@).state.fits(),
    ensures
        final(state)@ == model::worker_failed_step(old(state)@, kind, operation_id, error@).state,
        effects_of(effects@) == model::worker_failed_step(
            old(state)@,
            kind,
            operation_id,
            error@,
        ).effects,
{
    let previous: u32 = match state.bindings.get(kind) {
        None => {
            return no_effects();
        },
        Some(binding) => {
            let live: bool = match &binding.lifecycle {
                CaptureBindingState::Starting { operation_id: op, .. } => *op == operation_id,
                CaptureBindingState::Running { operation_id: op, .. } => *op == operation_id,
                _ => false,
            };
            if !live {
                return no_effects();
            }
            binding.retry_attempt
        },
    };
    proof {
        let after = model::worker_failed_step(old(state)@, kind, operation_id, error@).state;
        assert(after.bindings.contains_key(kind));
    }
    let attempt: u32 = previous + 1;
    if attempt > MAX_RETRY_ATTEMPTS {
        let cause: String = giving_up_text(attempt, error.as_str());
        state.bindings.set_attempt(kind, CaptureBindingState::Failed { cause }, attempt);
        return no_effects();
    }
    state.bindings.set_attempt(
        kind,
        CaptureBindingState::Waiting { reason: WaitReason::RetryableFailure { attempt } },
        attempt,
    );
    let effect_id: EffectId = state.alloc_effect_id();
    into_list(
        Some(Effect::ScheduleRetry { effect_id, binding: kind, retry_id: attempt as u64, attempt }),
    )
}

fn process_binding_with_pid(state: &DecisionState, pid: u32) -> (kind: Option<BindingKind>)
    ensures
        kind == if model::captures_process(state@, pid) {
            Some(BindingKind::ProcessLoopback)
        } else {
            None
        },
{
    match state.bindings.get(BindingKind::ProcessLoopback) {
        None => None,
        Some(binding) => match &binding.lifecycle {
            CaptureBindingState::Running { target: ResolvedTarget::Process { pid: p }, .. } => {
                if *p == pid {
                    Some(binding.kind)
                } else {
                    None
                }
            },
            _ => None,
        },
    }
}

fn move_to_pid(state: &mut DecisionState, kind: BindingKind, new_pid: u32)
    requires
        old(state)@.bindings.contains_key(kind),
    ensures
        final(state)@ == (DecisionModel {
            bindings: old(state)@.bindings.insert(
                kind,
                BindingModel {
                    selection: model::with_pid(old(state)@.bindings[kind].selection, new_pid),
                    ..old(state)@.bindings[kind]
                },
            ),
            ..old(state)@
        }),
{
    let moved: Option<BindingSelection> = match state.bindings.get(kind) {
        None => None,
        Some(binding) => match &binding.selection {
            BindingSelection::Process { exe_name, .. } => Some(
                BindingSelection::Process { exe_name: exe_name.clone(), pid: Some(new_pid) },
            ),
            _ => None,
        },
    };
    match moved {
        Some(selection) => {
            state.bindings.set_selection(kind, selection);
        },
        None => {
            assert(old(state)@.bindings.insert(kind, old(state)@.bindings[kind])
                =~= old(state)@.bindings);
        },
    }
}

fn handle_retry_timer(state: &mut DecisionState, kind: BindingKind, retry_id: u64) -> (effects: Vec<
    Effect,
>)
    requires
        model::retry_step(old(state)@, kind, retry_id).state.fits(),
    ensures
        final(state)@ == model::retry_step(old(state)@, kind, retry_id).state,
        effects_of(effects@) == model::retry_step(old(state)@, kind, retry_id).effects,
{
    let due: bool = match state.bindings.get(kind) {
        None => false,
        Some(binding) => match &binding.lifecycle {
            CaptureBindingState::Waiting { reason: WaitReason::RetryableFailure { .. } } =>
                binding.retry_attempt as u64 == retry_id,
            // A stale timer: the binding has left this wait.
            _ => false,
        },
    };
    if due {
        into_list(start_binding(state, kind))
    } else {
        no_effects()
    }
}

} // verus!
