//! The mathematical model of the rebinding state machine: what each value stands
//! for, and what one decision does to it.
//!
//! Text is a sequence of characters, the tables are maps, and the counters are
//! natural numbers without a machine limit.

use vstd::prelude::*;

use super::{
    AfterStop, BindingKind, DataFlow, DeviceRole, EffectId, OperationId, StreamEpoch, WaitReason,
    MAX_RETRY_ATTEMPTS,
};

verus! {

/// What a capture worker is pointed at.
pub enum TargetModel {
    Endpoint(Seq<char>),
    Process { pid: u32 },
}

/// The policy by which a binding picks its target.
pub enum SelectionModel {
    FollowDefault { flow: DataFlow, role: DeviceRole },
    Pinned { endpoint_id: Seq<char> },
    Process { exe_name: Seq<char>, pid: Option<u32> },
}

/// Where a binding is in its life.
pub enum LifecycleModel {
    Stopped,
    Resolving { operation_id: OperationId },
    Starting { operation_id: OperationId, proposed_epoch: StreamEpoch, target: TargetModel },
    Running { operation_id: OperationId, epoch: StreamEpoch, target: TargetModel },
    Stopping { operation_id: OperationId, epoch: StreamEpoch, next: AfterStop },
    Waiting { reason: WaitReason },
    Failed { cause: Seq<char> },
}

/// One binding; its kind is the key it is stored under.
pub struct BindingModel {
    pub selection: SelectionModel,
    pub lifecycle: LifecycleModel,
    pub retry_attempt: nat,
}

/// The whole state that a decision reads and writes.
#[verifier::ext_equal]
pub struct DecisionModel {
    pub bindings: Map<BindingKind, BindingModel>,
    pub routes: Map<(DataFlow, DeviceRole), Option<Seq<char>>>,
    pub next_operation_id: nat,
    pub next_stream_epoch: nat,
    pub next_effect_id: nat,
    pub shutdown: bool,
}

#[allow(inconsistent_fields)]
pub enum ObservationModel {
    EndpointRemoved { endpoint_id: Seq<char> },
    EndpointAdded { endpoint_id: Seq<char> },
    DefaultEndpointChanged { flow: DataFlow, role: DeviceRole, endpoint_id: Option<Seq<char>> },
    WorkerStarted {
        binding: BindingKind,
        operation_id: OperationId,
        epoch: StreamEpoch,
        target: TargetModel,
    },
    WorkerStopped { binding: BindingKind, operation_id: OperationId, epoch: StreamEpoch },
    WorkerFailed { binding: BindingKind, operation_id: OperationId, error: Seq<char> },
    ProcessExited { pid: u32 },
    ProcessRestarted { old_pid: u32, new_pid: u32 },
}

pub enum InputModel {
    Observation(ObservationModel),
    Start { binding: BindingKind },
    Stop { binding: BindingKind },
    RetryTimerFired { binding: BindingKind, retry_id: u64 },
    ShutdownRequested,
}

pub enum EffectModel {
    StartCapture {
        effect_id: EffectId,
        binding: BindingKind,
        operation_id: OperationId,
        proposed_epoch: StreamEpoch,
        target: TargetModel,
    },
    StopCapture {
        effect_id: EffectId,
        binding: BindingKind,
        operation_id: OperationId,
        epoch: StreamEpoch,
    },
    ScheduleRetry { effect_id: EffectId, binding: BindingKind, retry_id: u64, attempt: u32 },
}

/// What a decision leads to: the state after it and the effects to carry out, in order.
pub struct Step {
    pub state: DecisionModel,
    pub effects: Seq<EffectModel>,
}

impl LifecycleModel {
    /// Whether audio of this epoch belongs to the binding as it is now.
    pub open spec fn accepts_epoch(self, epoch: StreamEpoch) -> bool {
        self matches LifecycleModel::Running { epoch: current, .. } && current == epoch
    }
}

impl DecisionModel {
    pub open spec fn empty() -> DecisionModel {
        DecisionModel {
            bindings: Map::empty(),
            routes: Map::empty(),
            next_operation_id: 0,
            next_stream_epoch: 0,
            next_effect_id: 0,
            shutdown: false,
        }
    }

    /// Whether every counter has a value that its machine integer can hold.
    pub open spec fn fits(self) -> bool {
        &&& self.next_operation_id <= u64::MAX
        &&& self.next_stream_epoch <= u64::MAX
        &&& self.next_effect_id <= u64::MAX
        &&& forall|kind: BindingKind| #[trigger]
            self.bindings.contains_key(kind) ==> self.bindings[kind].retry_attempt <= u32::MAX
    }

    /// Whether `steps` more decisions are sure to stay within the machine integers.
    pub open spec fn has_room(self, steps: nat) -> bool {
        &&& self.next_operation_id + 3 * steps <= u64::MAX
        &&& self.next_stream_epoch + 3 * steps <= u64::MAX
        &&& self.next_effect_id + 3 * steps <= u64::MAX
        &&& forall|kind: BindingKind| #[trigger]
            self.bindings.contains_key(kind) ==> self.bindings[kind].retry_attempt + steps
                <= u32::MAX
    }

    pub open spec fn lifecycle(self, kind: BindingKind) -> LifecycleModel
        recommends
            self.bindings.contains_key(kind),
    {
        self.bindings[kind].lifecycle
    }

    pub open spec fn set_lifecycle(
        self,
        kind: BindingKind,
        lifecycle: LifecycleModel,
    ) -> DecisionModel {
        let binding = BindingModel { lifecycle, ..self.bindings[kind] };
        DecisionModel { bindings: self.bindings.insert(kind, binding), ..self }
    }

    pub open spec fn quiet(self) -> Step {
        Step { state: self, effects: Seq::empty() }
    }

    /// Whether audio of this epoch belongs to the current generation of that binding.
    pub open spec fn accepts_epoch(self, kind: BindingKind, epoch: StreamEpoch) -> bool {
        self.bindings.contains_key(kind) && self.lifecycle(kind).accepts_epoch(epoch)
    }

    /// The default endpoint recorded for a route, if there is one.
    pub open spec fn default_endpoint(self, flow: DataFlow, role: DeviceRole) -> Option<Seq<char>> {
        if self.routes.contains_key((flow, role)) {
            self.routes[(flow, role)]
        } else {
            None
        }
    }
}

/// The target that a selection stands for right now. A pinned endpoint stands for
/// itself and nothing else.
pub open spec fn resolve(
    selection: SelectionModel,
    routes: Map<(DataFlow, DeviceRole), Option<Seq<char>>>,
) -> Option<TargetModel> {
    match selection {
        SelectionModel::Pinned { endpoint_id } => Some(TargetModel::Endpoint(endpoint_id)),
        SelectionModel::FollowDefault { flow, role } => if routes.contains_key((flow, role)) {
            match routes[(flow, role)] {
                Some(endpoint_id) => Some(TargetModel::Endpoint(endpoint_id)),
                None => None,
            }
        } else {
            None
        },
        SelectionModel::Process { pid, .. } => match pid {
            Some(pid) => Some(TargetModel::Process { pid }),
            None => None,
        },
    }
}

/// The endpoint that a selection is pinned to, if it is pinned.
pub open spec fn pinned_endpoint(selection: SelectionModel) -> Option<Seq<char>> {
    match selection {
        SelectionModel::Pinned { endpoint_id } => Some(endpoint_id),
        _ => None,
    }
}

/// Whether a start request is looked at in this state at all.
pub open spec fn startable(m: DecisionModel, kind: BindingKind) -> bool {
    &&& !m.shutdown
    &&& m.bindings.contains_key(kind)
    &&& m.lifecycle(kind) is Stopped || m.lifecycle(kind) is Waiting
}

/// Starting a binding: it moves to `Starting` under fresh ids when its selection
/// resolves, and waits for a device when it does not.
pub open spec fn start_step(m: DecisionModel, kind: BindingKind) -> Step {
    if !startable(m, kind) {
        m.quiet()
    } else {
        match resolve(m.bindings[kind].selection, m.routes) {
            Some(target) => {
                let operation_id = OperationId(m.next_operation_id as u64);
                let proposed_epoch = StreamEpoch(m.next_stream_epoch as u64);
                let effect_id = EffectId(m.next_effect_id as u64);
                let started = m.set_lifecycle(
                    kind,
                    LifecycleModel::Starting { operation_id, proposed_epoch, target },
                );
                Step {
                    state: DecisionModel {
                        next_operation_id: m.next_operation_id + 1,
                        next_stream_epoch: m.next_stream_epoch + 1,
                        next_effect_id: m.next_effect_id + 1,
                        ..started
                    },
                    effects: seq![
                        EffectModel::StartCapture {
                            effect_id,
                            binding: kind,
                            operation_id,
                            proposed_epoch,
                            target,
                        },
                    ],
                }
            },
            None => m.set_lifecycle(
                kind,
                LifecycleModel::Waiting { reason: WaitReason::DeviceUnavailable },
            ).quiet(),
        }
    }
}

/// Stopping a binding: only a running one stops, and it remembers what comes next.
pub open spec fn stop_step(m: DecisionModel, kind: BindingKind, next: AfterStop) -> Step {
    if !m.bindings.contains_key(kind) {
        m.quiet()
    } else {
        match m.lifecycle(kind) {
            LifecycleModel::Running { operation_id, epoch, .. } => {
                let stopping = m.set_lifecycle(
                    kind,
                    LifecycleModel::Stopping { operation_id, epoch, next },
                );
                Step {
                    state: DecisionModel { next_effect_id: m.next_effect_id + 1, ..stopping },
                    effects: seq![
                        EffectModel::StopCapture {
                            effect_id: EffectId(m.next_effect_id as u64),
                            binding: kind,
                            operation_id,
                            epoch,
                        },
                    ],
                }
            },
            _ => m.quiet(),
        }
    }
}

/// Three steps, one for each kind of binding, run one after the other.
pub open spec fn joined(a: Step, b: Step, c: Step) -> Step {
    Step { state: c.state, effects: a.effects + b.effects + c.effects }
}

/// A new default endpoint, as one binding sees it: a running binding that follows this
/// route restarts, unless it already has the new default.
pub open spec fn reroute_one(
    m: DecisionModel,
    kind: BindingKind,
    flow: DataFlow,
    role: DeviceRole,
) -> Step {
    if kind != BindingKind::ProcessLoopback && m.bindings.contains_key(kind)
        && m.bindings[kind].selection == (SelectionModel::FollowDefault { flow, role }) {
        match m.lifecycle(kind) {
            LifecycleModel::Running { target, .. } => if resolve(
                m.bindings[kind].selection,
                m.routes,
            ) == Some(target) {
                m.quiet()
            } else {
                stop_step(m, kind, AfterStop::ResolveAndStart)
            },
            _ => m.quiet(),
        }
    } else {
        m.quiet()
    }
}

pub open spec fn reroute_step(
    m: DecisionModel,
    flow: DataFlow,
    role: DeviceRole,
    endpoint_id: Option<Seq<char>>,
) -> Step {
    let routed = DecisionModel { routes: m.routes.insert((flow, role), endpoint_id), ..m };
    let a = reroute_one(routed, BindingKind::Microphone, flow, role);
    let b = reroute_one(a.state, BindingKind::EndpointLoopback, flow, role);
    let c = reroute_one(b.state, BindingKind::ProcessLoopback, flow, role);
    joined(a, b, c)
}

/// A lost endpoint, as one binding sees it: whatever runs on it stops and waits.
pub open spec fn remove_one(m: DecisionModel, kind: BindingKind, endpoint_id: Seq<char>) -> Step {
    if kind != BindingKind::ProcessLoopback && m.bindings.contains_key(kind) && (m.lifecycle(
        kind,
    ) matches LifecycleModel::Running { target, .. } && target == TargetModel::Endpoint(
        endpoint_id,
    )) {
        stop_step(
            m,
            kind,
            AfterStop::WaitForRecovery { reason: WaitReason::DeviceUnavailable },
        )
    } else {
        m.quiet()
    }
}

pub open spec fn remove_step(m: DecisionModel, endpoint_id: Seq<char>) -> Step {
    let a = remove_one(m, BindingKind::Microphone, endpoint_id);
    let b = remove_one(a.state, BindingKind::EndpointLoopback, endpoint_id);
    let c = remove_one(b.state, BindingKind::ProcessLoopback, endpoint_id);
    joined(a, b, c)
}

/// A new endpoint, as one binding sees it: whatever waits and is pinned to it starts.
pub open spec fn add_one(m: DecisionModel, kind: BindingKind, endpoint_id: Seq<char>) -> Step {
    if kind != BindingKind::ProcessLoopback && m.bindings.contains_key(kind) && m.lifecycle(
        kind,
    ) is Waiting && pinned_endpoint(m.bindings[kind].selection) == Some(endpoint_id) {
        start_step(m, kind)
    } else {
        m.quiet()
    }
}

pub open spec fn add_step(m: DecisionModel, endpoint_id: Seq<char>) -> Step {
    let a = add_one(m, BindingKind::Microphone, endpoint_id);
    let b = add_one(a.state, BindingKind::EndpointLoopback, endpoint_id);
    let c = add_one(b.state, BindingKind::ProcessLoopback, endpoint_id);
    joined(a, b, c)
}

/// Whether the process loopback is capturing the process with this id.
pub open spec fn captures_process(m: DecisionModel, pid: u32) -> bool {
    &&& m.bindings.contains_key(BindingKind::ProcessLoopback)
    &&& m.lifecycle(BindingKind::ProcessLoopback) matches LifecycleModel::Running { target, .. }
    &&& target == (TargetModel::Process { pid })
}

pub open spec fn process_exited_step(m: DecisionModel, pid: u32) -> Step {
    if captures_process(m, pid) {
        stop_step(
            m,
            BindingKind::ProcessLoopback,
            AfterStop::WaitForRecovery { reason: WaitReason::ProcessNotFound },
        )
    } else {
        m.quiet()
    }
}

/// The selection with a new process id, where it selects a process.
pub open spec fn with_pid(selection: SelectionModel, new_pid: u32) -> SelectionModel {
    match selection {
        SelectionModel::Process { exe_name, .. } => SelectionModel::Process {
            exe_name,
            pid: Some(new_pid),
        },
        other => other,
    }
}

pub open spec fn process_restarted_step(m: DecisionModel, old_pid: u32, new_pid: u32) -> Step {
    if captures_process(m, old_pid) {
        let kind = BindingKind::ProcessLoopback;
        let binding = BindingModel {
            selection: with_pid(m.bindings[kind].selection, new_pid),
            ..m.bindings[kind]
        };
        let moved = DecisionModel { bindings: m.bindings.insert(kind, binding), ..m };
        stop_step(moved, kind, AfterStop::ResolveAndStart)
    } else {
        m.quiet()
    }
}

pub open spec fn worker_started_step(
    m: DecisionModel,
    kind: BindingKind,
    operation_id: OperationId,
    epoch: StreamEpoch,
    target: TargetModel,
) -> Step {
    if m.bindings.contains_key(kind) && (m.lifecycle(kind) matches LifecycleModel::Starting {
        operation_id: expected,
        proposed_epoch,
        ..
    } && expected == operation_id && proposed_epoch == epoch) {
        let binding = BindingModel {
            lifecycle: LifecycleModel::Running { operation_id, epoch, target },
            retry_attempt: 0,
            ..m.bindings[kind]
        };
        DecisionModel { bindings: m.bindings.insert(kind, binding), ..m }.quiet()
    } else {
        m.quiet()
    }
}

pub open spec fn worker_stopped_step(
    m: DecisionModel,
    kind: BindingKind,
    operation_id: OperationId,
    epoch: StreamEpoch,
) -> Step {
    if !m.bindings.contains_key(kind) {
        m.quiet()
    } else {
        match m.lifecycle(kind) {
            LifecycleModel::Stopping { operation_id: expected, epoch: expected_epoch, next } => {
                if expected != operation_id || expected_epoch != epoch {
                    m.quiet()
                } else {
                    match next {
                        AfterStop::RemainStopped => m.set_lifecycle(
                            kind,
                            LifecycleModel::Stopped,
                        ).quiet(),
                        AfterStop::WaitForRecovery { reason } => m.set_lifecycle(
                            kind,
                            LifecycleModel::Waiting { reason },
                        ).quiet(),
                        AfterStop::ResolveAndStart => start_step(
                            m.set_lifecycle(kind, LifecycleModel::Stopped),
                            kind,
                        ),
                    }
                }
            },
            _ => m.quiet(),
        }
    }
}

/// The operation whose failure a binding would take notice of.
pub open spec fn live_operation(lifecycle: LifecycleModel) -> Option<OperationId> {
    match lifecycle {
        LifecycleModel::Starting { operation_id, .. } => Some(operation_id),
        LifecycleModel::Running { operation_id, .. } => Some(operation_id),
        _ => None,
    }
}

/// The reason kept when a binding has failed too often in a row.
pub open spec fn giving_up(attempt: nat, error: Seq<char>) -> Seq<char> {
    "giving up after "@ + crate::text::decimal(attempt) + " attempts: "@ + error
}

pub open spec fn worker_failed_step(
    m: DecisionModel,
    kind: BindingKind,
    operation_id: OperationId,
    error: Seq<char>,
) -> Step {
    if !m.bindings.contains_key(kind) || live_operation(m.lifecycle(kind)) != Some(operation_id) {
        m.quiet()
    } else {
        let attempt = m.bindings[kind].retry_attempt + 1;
        if attempt > MAX_RETRY_ATTEMPTS {
            let binding = BindingModel {
                lifecycle: LifecycleModel::Failed { cause: giving_up(attempt, error) },
                retry_attempt: attempt,
                ..m.bindings[kind]
            };
            DecisionModel { bindings: m.bindings.insert(kind, binding), ..m }.quiet()
        } else {
            let binding = BindingModel {
                lifecycle: LifecycleModel::Waiting {
                    reason: WaitReason::RetryableFailure { attempt: attempt as u32 },
                },
                retry_attempt: attempt,
                ..m.bindings[kind]
            };
            Step {
                state: DecisionModel {
                    bindings: m.bindings.insert(kind, binding),
                    next_effect_id: m.next_effect_id + 1,
                    ..m
                },
                effects: seq![
                    EffectModel::ScheduleRetry {
                        effect_id: EffectId(m.next_effect_id as u64),
                        binding: kind,
                        retry_id: attempt as u64,
                        attempt: attempt as u32,
                    },
                ],
            }
        }
    }
}

pub open spec fn retry_step(m: DecisionModel, kind: BindingKind, retry_id: u64) -> Step {
    if m.bindings.contains_key(kind) && (m.lifecycle(kind) matches LifecycleModel::Waiting {
        reason,
    } && reason is RetryableFailure) && m.bindings[kind].retry_attempt == retry_id {
        start_step(m, kind)
    } else {
        m.quiet()
    }
}

/// Shutdown, as one binding sees it: what runs stops for good.
pub open spec fn shutdown_one(m: DecisionModel, kind: BindingKind) -> Step {
    stop_step(m, kind, AfterStop::RemainStopped)
}

pub open spec fn shutdown_step(m: DecisionModel) -> Step {
    let closing = DecisionModel { shutdown: true, ..m };
    let a = shutdown_one(closing, BindingKind::Microphone);
    let b = shutdown_one(a.state, BindingKind::EndpointLoopback);
    let c = shutdown_one(b.state, BindingKind::ProcessLoopback);
    joined(a, b, c)
}

pub open spec fn observe_step(m: DecisionModel, obs: ObservationModel) -> Step {
    match obs {
        ObservationModel::DefaultEndpointChanged { flow, role, endpoint_id } => reroute_step(
            m,
            flow,
            role,
            endpoint_id,
        ),
        ObservationModel::EndpointRemoved { endpoint_id } => remove_step(m, endpoint_id),
        ObservationModel::EndpointAdded { endpoint_id } => add_step(m, endpoint_id),
        ObservationModel::ProcessExited { pid } => process_exited_step(m, pid),
        ObservationModel::ProcessRestarted { old_pid, new_pid } => process_restarted_step(
            m,
            old_pid,
            new_pid,
        ),
        ObservationModel::WorkerStarted { binding, operation_id, epoch, target } =>
            worker_started_step(m, binding, operation_id, epoch, target),
        ObservationModel::WorkerStopped { binding, operation_id, epoch } => worker_stopped_step(
            m,
            binding,
            operation_id,
            epoch,
        ),
        ObservationModel::WorkerFailed { binding, operation_id, error } => worker_failed_step(
            m,
            binding,
            operation_id,
            error,
        ),
    }
}

/// What one decision does.
pub open spec fn decide_step(m: DecisionModel, input: InputModel) -> Step {
    match input {
        InputModel::ShutdownRequested => shutdown_step(m),
        InputModel::Start { binding } => start_step(m, binding),
        InputModel::Stop { binding } => stop_step(m, binding, AfterStop::RemainStopped),
        InputModel::RetryTimerFired { binding, retry_id } => retry_step(m, binding, retry_id),
        InputModel::Observation(obs) => observe_step(m, obs),
    }
}

/// Whether `later` has the same bindings as `m`, with the same failure counts, and has
/// handed out at most `ids` more of each id.
pub open spec fn advanced(m: DecisionModel, later: DecisionModel, ids: nat) -> bool {
    &&& m.next_operation_id <= later.next_operation_id <= m.next_operation_id + ids
    &&& m.next_stream_epoch <= later.next_stream_epoch <= m.next_stream_epoch + ids
    &&& m.next_effect_id <= later.next_effect_id <= m.next_effect_id + ids
    &&& forall|kind: BindingKind|
        #![trigger m.bindings.contains_key(kind)]
        #![trigger later.bindings.contains_key(kind)]
        {
            &&& m.bindings.contains_key(kind) == later.bindings.contains_key(kind)
            &&& m.bindings.contains_key(kind) ==> m.bindings[kind].retry_attempt
                == later.bindings[kind].retry_attempt
        }
}

/// What fits later fitted before.
pub proof fn lemma_fitted_before(m: DecisionModel, later: DecisionModel, ids: nat)
    requires
        advanced(m, later, ids),
        later.fits(),
    ensures
        m.fits(),
{
}

pub proof fn lemma_start_advances(m: DecisionModel, kind: BindingKind)
    ensures
        advanced(m, start_step(m, kind).state, 1),
{
}

pub proof fn lemma_stop_advances(m: DecisionModel, kind: BindingKind, next: AfterStop)
    ensures
        advanced(m, stop_step(m, kind, next).state, 1),
{
}

pub proof fn lemma_reroute_advances(
    m: DecisionModel,
    kind: BindingKind,
    flow: DataFlow,
    role: DeviceRole,
)
    ensures
        advanced(m, reroute_one(m, kind, flow, role).state, 1),
{
    lemma_stop_advances(m, kind, AfterStop::ResolveAndStart);
}

pub proof fn lemma_remove_advances(m: DecisionModel, kind: BindingKind, endpoint_id: Seq<char>)
    ensures
        advanced(m, remove_one(m, kind, endpoint_id).state, 1),
{
    lemma_stop_advances(
        m,
        kind,
        AfterStop::WaitForRecovery { reason: WaitReason::DeviceUnavailable },
    );
}

pub proof fn lemma_add_advances(m: DecisionModel, kind: BindingKind, endpoint_id: Seq<char>)
    ensures
        advanced(m, add_one(m, kind, endpoint_id).state, 1),
{
    lemma_start_advances(m, kind);
}

proof fn lemma_advanced_twice(a: DecisionModel, b: DecisionModel, c: DecisionModel, i: nat, j: nat)
    requires
        advanced(a, b, i),
        advanced(b, c, j),
    ensures
        advanced(a, c, i + j),
{
}

proof fn lemma_room_after(m: DecisionModel, later: DecisionModel, steps: nat)
    requires
        m.has_room(steps),
        steps >= 1,
        advanced(m, later, 3),
    ensures
        later.fits(),
        later.has_room((steps - 1) as nat),
{
}

/// A decision uses up at most one step of the room that there is.
pub proof fn lemma_decide_uses_one_step(m: DecisionModel, input: InputModel, steps: nat)
    requires
        m.has_room(steps),
        steps >= 1,
    ensures
        decide_step(m, input).state.fits(),
        decide_step(m, input).state.has_room((steps - 1) as nat),
{
    let after = decide_step(m, input).state;
    match input {
        InputModel::ShutdownRequested => {
            let closing = DecisionModel { shutdown: true, ..m };
            let a = shutdown_one(closing, BindingKind::Microphone).state;
            let b = shutdown_one(a, BindingKind::EndpointLoopback).state;
            lemma_stop_advances(closing, BindingKind::Microphone, AfterStop::RemainStopped);
            lemma_stop_advances(a, BindingKind::EndpointLoopback, AfterStop::RemainStopped);
            lemma_stop_advances(b, BindingKind::ProcessLoopback, AfterStop::RemainStopped);
            lemma_advanced_twice(closing, a, b, 1, 1);
            lemma_advanced_twice(closing, b, after, 2, 1);
            lemma_room_after(closing, after, steps);
        },
        InputModel::Start { binding } => {
            lemma_start_advances(m, binding);
            lemma_room_after(m, after, steps);
        },
        InputModel::Stop { binding } => {
            lemma_stop_advances(m, binding, AfterStop::RemainStopped);
            lemma_room_after(m, after, steps);
        },
        InputModel::RetryTimerFired { binding, retry_id } => {
            lemma_start_advances(m, binding);
            lemma_room_after(m, after, steps);
        },
        InputModel::Observation(obs) => {
            lemma_observation_uses_one_step(m, obs, steps);
        },
    }
}

proof fn lemma_observation_uses_one_step(m: DecisionModel, obs: ObservationModel, steps: nat)
    requires
        m.has_room(steps),
        steps >= 1,
    ensures
        observe_step(m, obs).state.fits(),
        observe_step(m, obs).state.has_room((steps - 1) as nat),
{
    let after = observe_step(m, obs).state;
    match obs {
        ObservationModel::DefaultEndpointChanged { flow, role, endpoint_id } => {
            let routed = DecisionModel { routes: m.routes.insert((flow, role), endpoint_id), ..m };
            let a = reroute_one(routed, BindingKind::Microphone, flow, role).state;
            let b = reroute_one(a, BindingKind::EndpointLoopback, flow, role).state;
            lemma_reroute_advances(routed, BindingKind::Microphone, flow, role);
            lemma_reroute_advances(a, BindingKind::EndpointLoopback, flow, role);
            lemma_reroute_advances(b, BindingKind::ProcessLoopback, flow, role);
            lemma_advanced_twice(routed, a, b, 1, 1);
            lemma_advanced_twice(routed, b, after, 2, 1);
            lemma_room_after(routed, after, steps);
        },
        ObservationModel::EndpointRemoved { endpoint_id } => {
            let a = remove_one(m, BindingKind::Microphone, endpoint_id).state;
            let b = remove_one(a, BindingKind::EndpointLoopback, endpoint_id).state;
            lemma_remove_advances(m, BindingKind::Microphone, endpoint_id);
            lemma_remove_advances(a, BindingKind::EndpointLoopback, endpoint_id);
            lemma_remove_advances(b, BindingKind::ProcessLoopback, endpoint_id);
            lemma_advanced_twice(m, a, b, 1, 1);
            lemma_advanced_twice(m, b, after, 2, 1);
            lemma_room_after(m, after, steps);
        },
        ObservationModel::EndpointAdded { endpoint_id } => {
            let a = add_one(m, BindingKind::Microphone, endpoint_id).state;
            let b = add_one(a, BindingKind::EndpointLoopback, endpoint_id).state;
            lemma_add_advances(m, BindingKind::Microphone, endpoint_id);
            lemma_add_advances(a, BindingKind::EndpointLoopback, endpoint_id);
            lemma_add_advances(b, BindingKind::ProcessLoopback, endpoint_id);
            lemma_advanced_twice(m, a, b, 1, 1);
            lemma_advanced_twice(m, b, after, 2, 1);
            lemma_room_after(m, after, steps);
        },
        ObservationModel::ProcessExited { pid } => {
            lemma_stop_advances(
                m,
                BindingKind::ProcessLoopback,
                AfterStop::WaitForRecovery { reason: WaitReason::ProcessNotFound },
            );
            lemma_room_after(m, after, steps);
        },
        ObservationModel::ProcessRestarted { old_pid, new_pid } => {
            let kind = BindingKind::ProcessLoopback;
            let binding = BindingModel {
                selection: with_pid(m.bindings[kind].selection, new_pid),
                ..m.bindings[kind]
            };
            let moved = DecisionModel { bindings: m.bindings.insert(kind, binding), ..m };
            lemma_stop_advances(moved, kind, AfterStop::ResolveAndStart);
            if captures_process(m, old_pid) {
                lemma_advanced_twice(m, moved, after, 0, 1);
            }
            lemma_room_after(m, after, steps);
        },
        ObservationModel::WorkerStopped { binding, operation_id, epoch } => {
            let stopped = m.set_lifecycle(binding, LifecycleModel::Stopped);
            lemma_start_advances(stopped, binding);
            lemma_room_after(m, after, steps);
        },
        ObservationModel::WorkerStarted { .. } => {},
        ObservationModel::WorkerFailed { .. } => {},
    }
}

} // verus!
