//! The supervisor for backends that run one capture worker per binding.

use super::workers::{self, WorkerHandle, WorkerModel, WorkerTable};
use crate::capture_health::CaptureHealth;
use crate::rebinding::model::{
    self, BindingModel, DecisionModel, EffectModel, InputModel, LifecycleModel, ObservationModel,
    SelectionModel, TargetModel,
};
use crate::rebinding::{
    self, decide, BindingKind, BindingSelection, CaptureBinding, DataFlow, DecisionInput,
    DecisionState, DeviceRole, Effect, EndpointId, EndpointSelection, Observation, OperationId,
    ResolvedTarget, StreamEpoch, UserIntent,
};
use vstd::prelude::*;

verus! {

/// What whoever drives the supervisor has to do next.
#[derive(Debug, PartialEq, Eq)]
pub enum WorkerCommand {
    /// Start a capture worker for this binding on this target; its frames carry the
    /// epoch.
    Spawn { binding: BindingKind, target: ResolvedTarget, epoch: StreamEpoch },
    /// Tell the binding's worker to stop, and report its end when it has been joined.
    Stop { binding: BindingKind, operation_id: OperationId, epoch: StreamEpoch },
    /// The binding's worker is dying on its own: join it, and report its end.
    Join { binding: BindingKind, operation_id: OperationId, epoch: StreamEpoch },
    /// Report back after this delay.
    ScheduleRetry { binding: BindingKind, retry_id: u64, delay_ms: u64 },
}

/// A command, by what it names.
pub enum CommandModel {
    Spawn { binding: BindingKind, target: TargetModel, epoch: StreamEpoch },
    Stop { binding: BindingKind, operation_id: OperationId, epoch: StreamEpoch },
    Join { binding: BindingKind, operation_id: OperationId, epoch: StreamEpoch },
    ScheduleRetry { binding: BindingKind, retry_id: u64, delay_ms: u64 },
}

impl View for WorkerCommand {
    type V = CommandModel;

    open spec fn view(&self) -> CommandModel {
        match self {
            WorkerCommand::Spawn { binding, target, epoch } => CommandModel::Spawn {
                binding: *binding,
                target: target@,
                epoch: *epoch,
            },
            WorkerCommand::Stop { binding, operation_id, epoch } => CommandModel::Stop {
                binding: *binding,
                operation_id: *operation_id,
                epoch: *epoch,
            },
            WorkerCommand::Join { binding, operation_id, epoch } => CommandModel::Join {
                binding: *binding,
                operation_id: *operation_id,
                epoch: *epoch,
            },
            WorkerCommand::ScheduleRetry { binding, retry_id, delay_ms } =>
                CommandModel::ScheduleRetry {
                binding: *binding,
                retry_id: *retry_id,
                delay_ms: *delay_ms,
            },
        }
    }
}

/// The commands of a list, each by its model.
pub open spec fn commands_of(commands: Seq<WorkerCommand>) -> Seq<CommandModel> {
    Seq::new(commands.len(), |i: int| commands[i]@)
}

/// The state of the supervisor.
#[verifier::ext_equal]
pub struct WindowsModel {
    pub state: DecisionModel,
    pub workers: Map<BindingKind, WorkerModel>,
    /// Workers that are being joined and have not been reported back.
    pub pending_joins: int,
}

/// The supervisor and the commands so far.
pub struct Progress {
    pub supervisor: WindowsModel,
    pub commands: Seq<CommandModel>,
}

impl WindowsModel {
    pub open spec fn quiet(self) -> Progress {
        Progress { supervisor: self, commands: Seq::empty() }
    }
}

/// What one effect comes to.
pub open spec fn perform_one(m: WindowsModel, effect: EffectModel) -> Progress {
    match effect {
        EffectModel::StartCapture { binding, operation_id, proposed_epoch, target, .. } => {
            let worker = WorkerModel { operation_id, epoch: proposed_epoch, target };
            Progress {
                supervisor: WindowsModel { workers: m.workers.insert(binding, worker), ..m },
                commands: seq![CommandModel::Spawn { binding, target, epoch: proposed_epoch }],
            }
        },
        EffectModel::StopCapture { binding, operation_id, epoch, .. } => if m.workers.contains_key(
            binding,
        ) {
            Progress {
                supervisor: WindowsModel {
                    workers: m.workers.remove(binding),
                    pending_joins: m.pending_joins + 1,
                    ..m
                },
                commands: seq![CommandModel::Stop { binding, operation_id, epoch }],
            }
        } else {
            m.quiet()
        },
        EffectModel::ScheduleRetry { binding, retry_id, attempt, .. } => Progress {
            supervisor: m,
            commands: seq![
                CommandModel::ScheduleRetry {
                    binding,
                    retry_id,
                    delay_ms: super::backoff_ms(attempt) as u64,
                },
            ],
        },
    }
}

/// What a list of effects comes to, carried out in order.
pub open spec fn perform(m: WindowsModel, effects: Seq<EffectModel>) -> Progress
    decreases effects.len(),
{
    if effects.len() == 0 {
        m.quiet()
    } else {
        let before = perform(m, effects.drop_last());
        let last = perform_one(before.supervisor, effects.last());
        Progress { supervisor: last.supervisor, commands: before.commands + last.commands }
    }
}

/// What an input comes to: a decision, and its effects carried out.
pub open spec fn react(m: WindowsModel, input: InputModel) -> Progress {
    let step = model::decide_step(m.state, input);
    perform(WindowsModel { state: step.state, ..m }, step.effects)
}

/// Joining the worker of a binding that is dying on its own.
pub open spec fn reap(m: WindowsModel, binding: BindingKind) -> Progress {
    if m.workers.contains_key(binding) {
        let worker = m.workers[binding];
        Progress {
            supervisor: WindowsModel {
                workers: m.workers.remove(binding),
                pending_joins: m.pending_joins + 1,
                ..m
            },
            commands: seq![
                CommandModel::Join {
                    binding,
                    operation_id: worker.operation_id,
                    epoch: worker.epoch,
                },
            ],
        }
    } else {
        m.quiet()
    }
}

/// A failure reported by the worker of a binding: the decision about it, and the worker
/// joined.
pub open spec fn fail(m: WindowsModel, binding: BindingKind, error: Seq<char>) -> Progress {
    if m.workers.contains_key(binding) {
        let reacted = react(
            m,
            InputModel::Observation(
                ObservationModel::WorkerFailed {
                    binding,
                    operation_id: m.workers[binding].operation_id,
                    error,
                },
            ),
        );
        let reaped = reap(reacted.supervisor, binding);
        Progress {
            supervisor: reaped.supervisor,
            commands: reacted.commands + reaped.commands,
        }
    } else {
        m.quiet()
    }
}

/// A start reported by the worker of a binding.
pub open spec fn announce(m: WindowsModel, binding: BindingKind) -> Progress {
    if m.workers.contains_key(binding) {
        let worker = m.workers[binding];
        react(
            m,
            InputModel::Observation(
                ObservationModel::WorkerStarted {
                    binding,
                    operation_id: worker.operation_id,
                    epoch: worker.epoch,
                    target: worker.target,
                },
            ),
        )
    } else {
        m.quiet()
    }
}

/// The end of a joined worker.
pub open spec fn joined(
    m: WindowsModel,
    binding: BindingKind,
    operation_id: OperationId,
    epoch: StreamEpoch,
) -> Progress {
    let counted = WindowsModel {
        pending_joins: if m.pending_joins > 0 {
            m.pending_joins - 1
        } else {
            0
        },
        ..m
    };
    react(
        counted,
        InputModel::Observation(ObservationModel::WorkerStopped { binding, operation_id, epoch }),
    )
}

/// What a worker reports about its stream.
#[derive(Debug, Clone, PartialEq, Eq)]
pub enum WorkerReport {
    StreamStarted { stream: BindingKind },
    StreamError { stream: BindingKind, error: String },
    StreamStopped { stream: BindingKind },
    /// The audio session was cut, for a reason that the system gives as a number.
    SessionDisconnected { stream: BindingKind, reason_raw: i64 },
}

/// What a report comes to.
pub open spec fn reported(m: WindowsModel, report: WorkerReport) -> Progress {
    match report {
        WorkerReport::StreamStarted { stream } => announce(m, stream),
        WorkerReport::StreamError { stream, error } => fail(m, stream, error@),
        WorkerReport::SessionDisconnected { stream, reason_raw } => fail(
            m,
            stream,
            disconnect_text(reason_raw),
        ),
        WorkerReport::StreamStopped { .. } => m.quiet(),
    }
}

/// What a device-change notice comes to.
pub open spec fn noticed(
    m: WindowsModel,
    notice: DeviceNotice,
    constants: AudioConstants,
) -> Progress {
    match meaning(notice, constants) {
        Some(observation) => react(m, InputModel::Observation(observation)),
        None => m.quiet(),
    }
}

/// What starting everything comes to.
pub open spec fn started_all(m: WindowsModel) -> Progress {
    let first = react(m, InputModel::Start { binding: BindingKind::Microphone });
    let second = react(
        first.supervisor,
        InputModel::Start { binding: BindingKind::EndpointLoopback },
    );
    Progress { supervisor: second.supervisor, commands: first.commands + second.commands }
}

/// The error recorded when the audio session of a worker is cut.
pub open spec fn disconnect_text(reason_raw: i64) -> Seq<char> {
    "audio session disconnected (reason="@ + crate::text::signed_decimal(reason_raw as int) + ")"@
}

/// A device-change notification of the system.
#[derive(Debug, Clone, PartialEq, Eq)]
#[allow(inconsistent_fields)]
pub enum DeviceNotice {
    DeviceAdded { endpoint_id: String },
    DeviceRemoved { endpoint_id: String },
    DeviceStateChanged { endpoint_id: String, new_state_raw: u32 },
    DefaultDeviceChanged { flow_raw: i32, role_raw: i32, endpoint_id: Option<String> },
    PropertyValueChanged { endpoint_id: String },
}

/// The system's numbers for device states, directions and roles.
#[derive(Debug, Clone, Copy, PartialEq, Eq, Structural)]
pub struct AudioConstants {
    pub device_state_active: u32,
    pub flow_capture: i32,
    pub flow_render: i32,
    pub role_console: i32,
    pub role_multimedia: i32,
    pub role_communications: i32,
}

/// The direction that a number stands for, if it is one that is followed.
pub open spec fn flow_of(flow_raw: i32, constants: AudioConstants) -> Option<DataFlow> {
    if flow_raw == constants.flow_capture {
        Some(DataFlow::Capture)
    } else if flow_raw == constants.flow_render {
        Some(DataFlow::Render)
    } else {
        None
    }
}

/// The role that a number stands for.
pub open spec fn role_of(role_raw: i32, constants: AudioConstants) -> Option<DeviceRole> {
    if role_raw == constants.role_console {
        Some(DeviceRole::Console)
    } else if role_raw == constants.role_multimedia {
        Some(DeviceRole::Multimedia)
    } else if role_raw == constants.role_communications {
        Some(DeviceRole::Communications)
    } else {
        None
    }
}

/// What a notice means for the bindings, if anything.
pub open spec fn meaning(notice: DeviceNotice, constants: AudioConstants) -> Option<
    ObservationModel,
> {
    match notice {
        DeviceNotice::DeviceRemoved { endpoint_id } => Some(
            ObservationModel::EndpointRemoved { endpoint_id: endpoint_id@ },
        ),
        DeviceNotice::DeviceAdded { endpoint_id } => Some(
            ObservationModel::EndpointAdded { endpoint_id: endpoint_id@ },
        ),
        DeviceNotice::DeviceStateChanged { endpoint_id, new_state_raw } => if new_state_raw
            == constants.device_state_active {
            Some(ObservationModel::EndpointAdded { endpoint_id: endpoint_id@ })
        } else {
            Some(ObservationModel::EndpointRemoved { endpoint_id: endpoint_id@ })
        },
        DeviceNotice::DefaultDeviceChanged { flow_raw, role_raw, endpoint_id } => {
            match (flow_of(flow_raw, constants), role_of(role_raw, constants)) {
                (Some(flow), Some(role)) => Some(
                    ObservationModel::DefaultEndpointChanged {
                        flow,
                        role,
                        endpoint_id: match endpoint_id {
                            Some(endpoint_id) => Some(endpoint_id@),
                            None => None,
                        },
                    },
                ),
                _ => None,
            }
        },
        DeviceNotice::PropertyValueChanged { .. } => None,
    }
}

/// What a notice means for the bindings, by its model.
pub open spec fn observation_of(observation: Option<Observation>) -> Option<ObservationModel> {
    match observation {
        Some(observation) => Some(observation@),
        None => None,
    }
}

/// Turns a notice into an observation, where it has a meaning for the bindings.
pub fn interpret(notice: DeviceNotice, constants: &AudioConstants) -> (observation: Option<
    Observation,
>)
    ensures
        observation_of(observation) == meaning(notice, *constants),
{
    match notice {
        DeviceNotice::DeviceRemoved { endpoint_id } => Some(
            Observation::EndpointRemoved { endpoint_id: EndpointId(endpoint_id) },
        ),
        DeviceNotice::DeviceAdded { endpoint_id } => Some(
            Observation::EndpointAdded { endpoint_id: EndpointId(endpoint_id) },
        ),
        DeviceNotice::DeviceStateChanged { endpoint_id, new_state_raw } => {
            if new_state_raw == constants.device_state_active {
                Some(Observation::EndpointAdded { endpoint_id: EndpointId(endpoint_id) })
            } else {
                Some(Observation::EndpointRemoved { endpoint_id: EndpointId(endpoint_id) })
            }
        },
        DeviceNotice::DefaultDeviceChanged { flow_raw, role_raw, endpoint_id } => {
            let flow: Option<DataFlow> = if flow_raw == constants.flow_capture {
                Some(DataFlow::Capture)
            } else if flow_raw == constants.flow_render {
                Some(DataFlow::Render)
            } else {
                None
            };
            let role: Option<DeviceRole> = if role_raw == constants.role_console {
                Some(DeviceRole::Console)
            } else if role_raw == constants.role_multimedia {
                Some(DeviceRole::Multimedia)
            } else if role_raw == constants.role_communications {
                Some(DeviceRole::Communications)
            } else {
                None
            };
            match (flow, role) {
                (Some(flow), Some(role)) => {
                    let endpoint_id: Option<EndpointId> = match endpoint_id {
                        Some(endpoint_id) => Some(EndpointId(endpoint_id)),
                        None => None,
                    };
                    Some(Observation::DefaultEndpointChanged { flow, role, endpoint_id })
                },
                _ => None,
            }
        },
        DeviceNotice::PropertyValueChanged { .. } => None,
    }
}

/// A binding that is pinned to an endpoint and has not started.
pub open spec fn pinned_binding(endpoint_id: Seq<char>) -> BindingModel {
    BindingModel {
        selection: SelectionModel::Pinned { endpoint_id },
        lifecycle: LifecycleModel::Stopped,
        retry_attempt: 0,
    }
}

/// Pins the microphone and the endpoint loopback in a state.
pub open spec fn pinned(
    m: DecisionModel,
    microphone: Seq<char>,
    render: Seq<char>,
) -> DecisionModel {
    DecisionModel {
        bindings: m.bindings.insert(BindingKind::Microphone, pinned_binding(microphone)).insert(
            BindingKind::EndpointLoopback,
            pinned_binding(render),
        ),
        ..m
    }
}

/// Pins the microphone and the endpoint loopback to specific endpoints. Bindings never
/// follow the system default: a recording keeps the devices that it started with.
pub fn pin_bindings(
    state: &mut DecisionState,
    microphone_endpoint_id: EndpointId,
    render_endpoint_id: EndpointId,
)
    ensures
        final(state)@ == pinned(old(state)@, microphone_endpoint_id@, render_endpoint_id@),
{
    state.bindings.insert(
        CaptureBinding::new(
            BindingKind::Microphone,
            BindingSelection::Endpoint(
                EndpointSelection::Pinned { endpoint_id: microphone_endpoint_id },
            ),
        ),
    );
    state.bindings.insert(
        CaptureBinding::new(
            BindingKind::EndpointLoopback,
            BindingSelection::Endpoint(EndpointSelection::Pinned { endpoint_id: render_endpoint_id }),
        ),
    );
    assert(state@ =~= pinned(old(state)@, microphone_endpoint_id@, render_endpoint_id@));
}

/// Supervises one worker per binding.
#[derive(Debug)]
pub struct WindowsSupervisor {
    pub state: DecisionState,
    pub workers: WorkerTable,
    /// Workers that are being joined and have not been reported back; after a shutdown
    /// request the driver waits for these.
    pub pending_joins: usize,
}

impl View for WindowsSupervisor {
    type V = WindowsModel;

    open spec fn view(&self) -> WindowsModel {
        WindowsModel {
            state: self.state@,
            workers: self.workers@,
            pending_joins: self.pending_joins as int,
        }
    }
}

/// Whether a supervisor has room for this many more reports, each with a decision and its
/// effects.
pub open spec fn has_room(m: WindowsModel, reports: nat) -> bool {
    m.state.has_room(reports) && m.pending_joins + 4 * reports <= usize::MAX
}

/// Whether a supervisor has used up the room for this many reports at most.
pub open spec fn used(before: WindowsModel, after: WindowsModel, reports: nat) -> bool {
    forall|left: nat| has_room(before, left + reports) ==> #[trigger] has_room(after, left)
}

proof fn lemma_nothing_used(m: WindowsModel)
    ensures
        used(m, m, 1),
{
    assert forall|left: nat| has_room(m, left + 1) implies #[trigger] has_room(m, left) by {
        assert forall|kind: BindingKind| #[trigger] m.state.bindings.contains_key(kind) implies
            m.state.bindings[kind].retry_attempt + left <= u32::MAX by {}
    }
}

proof fn lemma_one_used(before: WindowsModel, after: WindowsModel, input: InputModel)
    requires
        after.state == model::decide_step(before.state, input).state,
        after.pending_joins <= before.pending_joins + 4,
    ensures
        used(before, after, 1),
{
    assert forall|left: nat| has_room(before, left + 1) implies #[trigger] has_room(after, left) by {
        model::lemma_decide_uses_one_step(before.state, input, left + 1);
    }
}

proof fn lemma_effects_are_few(m: DecisionModel, input: InputModel)
    ensures
        model::decide_step(m, input).effects.len() <= 3,
{
    rebinding::laws::law_one_effect_per_binding(m, input);
}

impl WindowsSupervisor {
    /// Starts without bindings: devices are pinned before anything is started.
    pub fn new() -> (supervisor: Self)
        ensures
            supervisor@ == (WindowsModel {
                state: DecisionModel::empty(),
                workers: Map::empty(),
                pending_joins: 0,
            }),
    {
        WindowsSupervisor {
            state: DecisionState::new(),
            workers: WorkerTable::new(),
            pending_joins: 0,
        }
    }

    /// Snapshot of both tracks' current health.
    pub fn capture_health(&self) -> (health: CaptureHealth)
        ensures
            crate::capture_health::shows(health.self_health, self.state, BindingKind::Microphone),
            crate::capture_health::shows(
                health.remote_health,
                self.state,
                BindingKind::EndpointLoopback,
            ),
    {
        crate::capture_health::capture_health(&self.state)
    }

    /// Pins both bindings to specific endpoints. Called while neither is running: this
    /// does not itself stop anything.
    pub fn pin_devices(
        &mut self,
        microphone_endpoint_id: EndpointId,
        render_endpoint_id: EndpointId,
    )
        ensures
            final(self)@ == (WindowsModel {
                state: pinned(old(self)@.state, microphone_endpoint_id@, render_endpoint_id@),
                ..old(self)@
            }),
    {
        pin_bindings(&mut self.state, microphone_endpoint_id, render_endpoint_id);
    }

    /// Whether a frame of this epoch belongs to the current generation of its binding;
    /// others are left out.
    pub fn accepts_frame(&self, binding: BindingKind, capture_epoch: u64) -> (accepted: bool)
        ensures
            accepted == self@.state.accepts_epoch(binding, StreamEpoch(capture_epoch)),
    {
        self.state.accepts_epoch(binding, StreamEpoch(capture_epoch))
    }

    fn execute(&mut self, effects: Vec<Effect>) -> (commands: Vec<WorkerCommand>)
        requires
            old(self).pending_joins + effects@.len() <= usize::MAX,
        ensures
            final(self)@ == perform(old(self)@, rebinding::effects_of(effects@)).supervisor,
            commands_of(commands@) == perform(
                old(self)@,
                rebinding::effects_of(effects@),
            ).commands,
            final(self).pending_joins <= old(self).pending_joins + effects@.len(),
    {
        let ghost all = rebinding::effects_of(effects@);
        let ghost start = self@;
        let mut commands: Vec<WorkerCommand> = Vec::new();
        assert(commands_of(commands@) =~= Seq::empty());
        assert(all.take(0) =~= Seq::empty());
        let n: usize = effects.len();
        for effect in iter: effects
            invariant
                iter.seq() == effects@,
                all == rebinding::effects_of(effects@),
                n == effects@.len(),
                self@ == perform(start, all.take(iter.index() as int)).supervisor,
                commands_of(commands@) == perform(start, all.take(iter.index() as int)).commands,
                self.pending_joins <= start.pending_joins + iter.index(),
                start.pending_joins + n <= usize::MAX,
        {
            let ghost k = iter.index() as int;
            let ghost so_far = all.take(k + 1);
            let ghost earlier = commands_of(commands@);
            assert(so_far.drop_last() =~= all.take(k));
            assert(so_far.last() == effect@);
            match effect {
                Effect::StartCapture { binding, operation_id, proposed_epoch, target, .. } => {
                    self.workers.insert(
                        binding,
                        WorkerHandle {
                            operation_id,
                            epoch: proposed_epoch,
                            target: target.clone(),
                        },
                    );
                    commands.push(
                        WorkerCommand::Spawn { binding, target, epoch: proposed_epoch },
                    );
                },
                Effect::StopCapture { binding, operation_id, epoch, .. } => {
                    match self.workers.remove(binding) {
                        Some(_) => {
                            self.pending_joins = self.pending_joins + 1;
                            commands.push(WorkerCommand::Stop { binding, operation_id, epoch });
                        },
                        None => {
                            assert(self.workers@ =~= perform(
                                start,
                                all.take(k),
                            ).supervisor.workers);
                        },
                    }
                },
                Effect::ScheduleRetry { binding, retry_id, attempt, .. } => {
                    let delay_ms: u64 = super::backoff_for_attempt(attempt);
                    commands.push(WorkerCommand::ScheduleRetry { binding, retry_id, delay_ms });
                },
            }
            assert(commands_of(commands@) =~= earlier + perform_one(
                perform(start, all.take(k)).supervisor,
                effect@,
            ).commands);
            assert(self@ =~= perform(start, so_far).supervisor);
        }
        assert(all.take(n as int) =~= all);
        commands
    }

    /// Hands an input to the decision and carries out what it leads to.
    fn react(&mut self, input: DecisionInput) -> (commands: Vec<WorkerCommand>)
        requires
            has_room(old(self)@, 1),
        ensures
            final(self)@ == react(old(self)@, input@).supervisor,
            commands_of(commands@) == react(old(self)@, input@).commands,
            final(self)@.state == model::decide_step(old(self)@.state, input@).state,
            final(self).pending_joins <= old(self).pending_joins + 3,
            used(old(self)@, final(self)@, 1),
    {
        proof {
            model::lemma_decide_uses_one_step(self.state@, input@, 1);
            lemma_effects_are_few(self.state@, input@);
        }
        let effects: Vec<Effect> = decide(&mut self.state, input);
        let ghost decided = self@;
        assert(effects@.len() == rebinding::effects_of(effects@).len());
        let commands: Vec<WorkerCommand> = self.execute(effects);
        proof {
            lemma_perform_keeps_state(decided, rebinding::effects_of(effects@));
            lemma_one_used(old(self)@, self@, input@);
        }
        commands
    }

    fn reap_dead_worker(&mut self, binding: BindingKind) -> (commands: Vec<WorkerCommand>)
        requires
            old(self).pending_joins < usize::MAX,
        ensures
            final(self)@ == reap(old(self)@, binding).supervisor,
            commands_of(commands@) == reap(old(self)@, binding).commands,
    {
        let mut commands: Vec<WorkerCommand> = Vec::new();
        match self.workers.remove(binding) {
            Some(worker) => {
                self.pending_joins = self.pending_joins + 1;
                commands.push(
                    WorkerCommand::Join {
                        binding,
                        operation_id: worker.operation_id,
                        epoch: worker.epoch,
                    },
                );
            },
            None => {
                assert(self.workers@ =~= old(self).workers@);
            },
        }
        assert(self@ =~= reap(old(self)@, binding).supervisor);
        assert(commands_of(commands@) =~= reap(old(self)@, binding).commands);
        commands
    }

    fn worker_failed(&mut self, binding: BindingKind, error: String) -> (commands: Vec<
        WorkerCommand,
    >)
        requires
            has_room(old(self)@, 1),
        ensures
            final(self)@ == fail(old(self)@, binding, error@).supervisor,
            commands_of(commands@) == fail(old(self)@, binding, error@).commands,
            used(old(self)@, final(self)@, 1),
    {
        let operation_id: OperationId = match self.workers.get(binding) {
            Some(worker) => worker.operation_id,
            None => {
                proof {
                    lemma_nothing_used(self@);
                }
                let commands: Vec<WorkerCommand> = Vec::new();
                assert(commands_of(commands@) =~= Seq::empty());
                return commands;
            },
        };
        let failed = Observation::WorkerFailed { binding, operation_id, error };
        let mut commands: Vec<WorkerCommand> = self.react(DecisionInput::Observation(failed));
        let ghost reacted = commands_of(commands@);
        let mut reaped: Vec<WorkerCommand> = self.reap_dead_worker(binding);
        let ghost joining = commands_of(reaped@);
        commands.append(&mut reaped);
        assert(commands_of(commands@) =~= reacted + joining);
        proof {
            lemma_one_used(old(self)@, self@, InputModel::Observation(failed@));
        }
        commands
    }

    /// A worker reported something about its stream. The end of a stream is only
    /// informational: what counts is the joined worker.
    pub fn handle_capture_event(&mut self, report: WorkerReport) -> (commands: Vec<WorkerCommand>)
        requires
            has_room(old(self)@, 1),
        ensures
            final(self)@ == reported(old(self)@, report).supervisor,
            commands_of(commands@) == reported(old(self)@, report).commands,
            used(old(self)@, final(self)@, 1),
    {
        proof {
            lemma_nothing_used(self@);
        }
        match report {
            WorkerReport::StreamStarted { stream } => {
                let (operation_id, epoch, target): (OperationId, StreamEpoch, ResolvedTarget) =
                    match self.workers.get(stream) {
                    Some(worker) => (worker.operation_id, worker.epoch, worker.target.clone()),
                    None => {
                        let commands: Vec<WorkerCommand> = Vec::new();
                        assert(commands_of(commands@) =~= Seq::empty());
                        return commands;
                    },
                };
                self.react(
                    DecisionInput::Observation(
                        Observation::WorkerStarted { binding: stream, operation_id, epoch, target },
                    ),
                )
            },
            WorkerReport::StreamError { stream, error } => self.worker_failed(stream, error),
            WorkerReport::SessionDisconnected { stream, reason_raw } => {
                let number: String = crate::text::signed_decimal_text(reason_raw);
                let error: String = String::from_str("audio session disconnected (reason=").concat(
                    number.as_str(),
                ).concat(")");
                assert(error@ =~= disconnect_text(reason_raw));
                self.worker_failed(stream, error)
            },
            WorkerReport::StreamStopped { .. } => {
                let commands: Vec<WorkerCommand> = Vec::new();
                assert(commands_of(commands@) =~= Seq::empty());
                commands
            },
        }
    }

    /// The system reported a device change.
    pub fn handle_device_watch_event(
        &mut self,
        notice: DeviceNotice,
        constants: &AudioConstants,
    ) -> (commands: Vec<WorkerCommand>)
        requires
            has_room(old(self)@, 1),
        ensures
            final(self)@ == noticed(old(self)@, notice, *constants).supervisor,
            commands_of(commands@) == noticed(old(self)@, notice, *constants).commands,
            used(old(self)@, final(self)@, 1),
    {
        proof {
            lemma_nothing_used(self@);
        }
        match interpret(notice, constants) {
            Some(observation) => self.react(DecisionInput::Observation(observation)),
            None => {
                let commands: Vec<WorkerCommand> = Vec::new();
                assert(commands_of(commands@) =~= Seq::empty());
                commands
            },
        }
    }

    /// A worker was joined. A late or superseded end is told apart by its ids.
    pub fn handle_join_result(
        &mut self,
        binding: BindingKind,
        operation_id: OperationId,
        epoch: StreamEpoch,
    ) -> (commands: Vec<WorkerCommand>)
        requires
            has_room(old(self)@, 1),
        ensures
            final(self)@ == joined(old(self)@, binding, operation_id, epoch).supervisor,
            commands_of(commands@) == joined(old(self)@, binding, operation_id, epoch).commands,
            used(old(self)@, final(self)@, 1),
    {
        let stopped = Observation::WorkerStopped { binding, operation_id, epoch };
        self.pending_joins = self.pending_joins.saturating_sub(1);
        let commands: Vec<WorkerCommand> = self.react(DecisionInput::Observation(stopped));
        proof {
            lemma_one_used(old(self)@, self@, InputModel::Observation(stopped@));
        }
        commands
    }

    /// A retry timer fired.
    pub fn handle_retry_timer(&mut self, binding: BindingKind, retry_id: u64) -> (commands: Vec<
        WorkerCommand,
    >)
        requires
            has_room(old(self)@, 1),
        ensures
            final(self)@ == react(
                old(self)@,
                InputModel::RetryTimerFired { binding, retry_id },
            ).supervisor,
            commands_of(commands@) == react(
                old(self)@,
                InputModel::RetryTimerFired { binding, retry_id },
            ).commands,
            used(old(self)@, final(self)@, 1),
    {
        self.react(DecisionInput::RetryTimerFired { binding, retry_id })
    }

    /// Shutdown was requested. The driver then joins workers while
    /// [`WindowsSupervisor::pending_joins`] is not zero.
    pub fn handle_shutdown(&mut self) -> (commands: Vec<WorkerCommand>)
        requires
            has_room(old(self)@, 1),
        ensures
            final(self)@ == react(old(self)@, InputModel::ShutdownRequested).supervisor,
            commands_of(commands@) == react(old(self)@, InputModel::ShutdownRequested).commands,
            used(old(self)@, final(self)@, 1),
    {
        self.react(DecisionInput::ShutdownRequested)
    }

    /// Starts the microphone and then the endpoint loopback.
    pub fn start_all(&mut self) -> (commands: Vec<WorkerCommand>)
        requires
            has_room(old(self)@, 2),
        ensures
            final(self)@ == started_all(old(self)@).supervisor,
            commands_of(commands@) == started_all(old(self)@).commands,
            used(old(self)@, final(self)@, 2),
    {
        proof {
            lemma_nothing_used(self@);
            assert(has_room(self@, 1 + 1));
        }
        let mut commands: Vec<WorkerCommand> = self.react(
            DecisionInput::UserIntent(UserIntent::Start { binding: BindingKind::Microphone }),
        );
        let ghost between = self@;
        let ghost first = commands_of(commands@);
        let mut more: Vec<WorkerCommand> = self.react(
            DecisionInput::UserIntent(
                UserIntent::Start { binding: BindingKind::EndpointLoopback },
            ),
        );
        let ghost second = commands_of(more@);
        commands.append(&mut more);
        assert(commands_of(commands@) =~= first + second);
        proof {
            assert forall|left: nat| has_room(old(self)@, left + 2) implies #[trigger] has_room(
                self@,
                left,
            ) by {
                assert(has_room(old(self)@, (left + 1) + 1));
                assert(has_room(between, left + 1));
            }
        }
        commands
    }
}

/// Carrying out effects leaves the decision state alone.
pub proof fn lemma_perform_keeps_state(m: WindowsModel, effects: Seq<EffectModel>)
    ensures
        perform(m, effects).supervisor.state == m.state,
    decreases effects.len(),
{
    if effects.len() > 0 {
        lemma_perform_keeps_state(m, effects.drop_last());
    }
}

proof fn lemma_perform_workers(m: WindowsModel, effects: Seq<EffectModel>)
    ensures
        perform(m, effects).supervisor.workers == workers::workers_after(m.workers, effects),
    decreases effects.len(),
{
    if effects.len() > 0 {
        lemma_perform_workers(m, effects.drop_last());
        let before = perform(m, effects.drop_last()).supervisor;
        assert(perform_one(before, effects.last()).supervisor.workers
            =~= workers::workers_after_one(before.workers, effects.last()));
    }
}

proof fn lemma_reaction_in_step(m: WindowsModel, input: InputModel)
    requires
        workers::in_step(m.state, m.workers),
        !workers::is_own_report(m.workers, input),
    ensures
        workers::in_step(
            react(m, input).supervisor.state,
            react(m, input).supervisor.workers,
        ),
{
    let step = model::decide_step(m.state, input);
    let decided = WindowsModel { state: step.state, ..m };
    lemma_perform_workers(decided, step.effects);
    lemma_perform_keeps_state(decided, step.effects);
    workers::lemma_decision_in_step(m.state, m.workers, input);
}

/// The supervisor lists exactly the workers of the bindings that are starting or
/// running, whatever workers, devices, joins, timers and users report.
pub proof fn law_workers_match_bindings(
    m: WindowsModel,
    report: WorkerReport,
    notice: DeviceNotice,
    constants: AudioConstants,
    binding: BindingKind,
    operation_id: OperationId,
    epoch: StreamEpoch,
    retry_id: u64,
)
    requires
        workers::in_step(m.state, m.workers),
    ensures
        ({
            let after = reported(m, report).supervisor;
            workers::in_step(after.state, after.workers)
        }),
        ({
            let after = noticed(m, notice, constants).supervisor;
            workers::in_step(after.state, after.workers)
        }),
        ({
            let after = joined(m, binding, operation_id, epoch).supervisor;
            workers::in_step(after.state, after.workers)
        }),
        ({
            let after = react(m, InputModel::RetryTimerFired { binding, retry_id }).supervisor;
            workers::in_step(after.state, after.workers)
        }),
        ({
            let after = react(m, InputModel::ShutdownRequested).supervisor;
            workers::in_step(after.state, after.workers)
        }),
        ({
            let after = started_all(m).supervisor;
            workers::in_step(after.state, after.workers)
        }),
{
    match report {
        WorkerReport::StreamStarted { stream } => {
            if m.workers.contains_key(stream) {
                let worker = m.workers[stream];
                lemma_reaction_in_step(
                    m,
                    InputModel::Observation(
                        ObservationModel::WorkerStarted {
                            binding: stream,
                            operation_id: worker.operation_id,
                            epoch: worker.epoch,
                            target: worker.target,
                        },
                    ),
                );
            }
        },
        WorkerReport::StreamError { stream, error } => {
            lemma_failure_keeps_step(m, stream, error@);
        },
        WorkerReport::SessionDisconnected { stream, reason_raw } => {
            lemma_failure_keeps_step(m, stream, disconnect_text(reason_raw));
        },
        WorkerReport::StreamStopped { .. } => {},
    }
    if meaning(notice, constants) is Some {
        lemma_reaction_in_step(m, InputModel::Observation(meaning(notice, constants)->0));
    }
    let counted = WindowsModel {
        pending_joins: if m.pending_joins > 0 {
            m.pending_joins - 1
        } else {
            0
        },
        ..m
    };
    lemma_reaction_in_step(
        counted,
        InputModel::Observation(ObservationModel::WorkerStopped { binding, operation_id, epoch }),
    );
    lemma_reaction_in_step(m, InputModel::RetryTimerFired { binding, retry_id });
    lemma_reaction_in_step(m, InputModel::ShutdownRequested);
    let mic = InputModel::Start { binding: BindingKind::Microphone };
    lemma_reaction_in_step(m, mic);
    lemma_reaction_in_step(
        react(m, mic).supervisor,
        InputModel::Start { binding: BindingKind::EndpointLoopback },
    );
}

proof fn lemma_failure_keeps_step(m: WindowsModel, binding: BindingKind, error: Seq<char>)
    requires
        workers::in_step(m.state, m.workers),
    ensures
        ({
            let after = fail(m, binding, error).supervisor;
            workers::in_step(after.state, after.workers)
        }),
{
    if m.workers.contains_key(binding) {
        let input = InputModel::Observation(
            ObservationModel::WorkerFailed {
                binding,
                operation_id: m.workers[binding].operation_id,
                error,
            },
        );
        let step = model::decide_step(m.state, input);
        let decided = WindowsModel { state: step.state, ..m };
        workers::lemma_failure_in_step(m.state, m.workers, binding, error);
        lemma_perform_workers(decided, step.effects);
        lemma_perform_keeps_state(decided, step.effects);
    }
}

/// Effects are carried out in order, each once: what a list of them comes to is what its
/// parts come to one after the other.
pub proof fn law_effects_are_carried_out_in_order(
    m: WindowsModel,
    first: Seq<EffectModel>,
    second: Seq<EffectModel>,
)
    ensures
        ({
            let begun = perform(m, first);
            let done = perform(begun.supervisor, second);
            let all = perform(m, first + second);
            &&& all.supervisor == done.supervisor
            &&& all.commands == begun.commands + done.commands
        }),
    decreases second.len(),
{
    if second.len() == 0 {
        assert(first + second =~= first);
        assert(perform(m, first).commands + Seq::empty() =~= perform(m, first).commands);
    } else {
        law_effects_are_carried_out_in_order(m, first, second.drop_last());
        assert((first + second).drop_last() =~= first + second.drop_last());
        assert((first + second).last() == second.last());
        let begun = perform(m, first);
        let between = perform(begun.supervisor, second.drop_last());
        let last = perform_one(between.supervisor, second.last());
        assert((begun.commands + between.commands) + last.commands =~= begun.commands + (
        between.commands + last.commands));
    }
}

/// A start spawns a worker and lists it; a stop of a worker that is listed tells it to
/// stop, takes it off the list and waits for it to be joined, and a stop of any other
/// comes to nothing; a retry is scheduled after the delay for its attempt.
pub proof fn law_an_effect_becomes_its_command(m: WindowsModel, effect: EffectModel)
    ensures
        ({
            let done = perform(m, seq![effect]);
            let after = done.supervisor;
            &&& after.state == m.state
            &&& effect matches EffectModel::StartCapture {
                binding,
                operation_id,
                proposed_epoch,
                target,
                ..
            } ==> {
                &&& done.commands == seq![
                    CommandModel::Spawn { binding, target, epoch: proposed_epoch },
                ]
                &&& after.workers.contains_key(binding)
                &&& after.workers[binding] == (WorkerModel {
                    operation_id,
                    epoch: proposed_epoch,
                    target,
                })
                &&& after.workers.remove(binding) == m.workers.remove(binding)
                &&& after.pending_joins == m.pending_joins
            }
            &&& effect matches EffectModel::StopCapture { binding, operation_id, epoch, .. } ==> {
                &&& after.workers == m.workers.remove(binding)
                &&& m.workers.contains_key(binding) ==> done.commands == seq![
                    CommandModel::Stop { binding, operation_id, epoch },
                ] && after.pending_joins == m.pending_joins + 1
                &&& !m.workers.contains_key(binding) ==> done.commands.len() == 0
                    && after.pending_joins == m.pending_joins
            }
            &&& effect matches EffectModel::ScheduleRetry { binding, retry_id, attempt, .. } ==> {
                &&& done.commands.len() == 1
                &&& done.commands[0] == (CommandModel::ScheduleRetry {
                    binding,
                    retry_id,
                    delay_ms: super::backoff_ms(attempt) as u64,
                })
                &&& after == m
            }
        }),
{
    let one = seq![effect];
    assert(one.drop_last() =~= Seq::<EffectModel>::empty());
    assert(perform(m, Seq::<EffectModel>::empty()) == m.quiet());
    let last = perform_one(m, effect);
    assert(m.quiet().commands + last.commands =~= last.commands);
    let after = last.supervisor;
    match effect {
        EffectModel::StartCapture { binding, .. } => {
            assert(after.workers.remove(binding) =~= m.workers.remove(binding));
        },
        EffectModel::StopCapture { binding, .. } => {
            assert(after.workers =~= m.workers.remove(binding));
        },
        _ => {},
    }
}

/// A worker that reports its start is running under the epoch it was given, and nothing
/// has to be done about it.
pub proof fn law_a_started_worker_runs(m: WindowsModel, stream: BindingKind, epoch: StreamEpoch)
    requires
        m.workers.contains_key(stream),
        m.state.bindings.contains_key(stream),
        m.state.lifecycle(stream) is Starting,
        workers::live_worker(m.state, stream) == Some(m.workers[stream]),
    ensures
        ({
            let done = reported(m, WorkerReport::StreamStarted { stream });
            let after = done.supervisor;
            &&& done.commands.len() == 0
            &&& after.workers == m.workers
            &&& after.pending_joins == m.pending_joins
            &&& after.state.lifecycle(stream) == (LifecycleModel::Running {
                operation_id: m.workers[stream].operation_id,
                epoch: m.workers[stream].epoch,
                target: m.workers[stream].target,
            })
            &&& after.state.accepts_epoch(stream, epoch) <==> epoch == m.workers[stream].epoch
        }),
{
}

/// A worker that reports an error is joined, after whatever is decided about the failure,
/// and is off the list; a session that was cut is such an error. A worker that reports its
/// end was told to stop, and nothing follows from it. Nor does anything follow from what
/// is reported for a binding without a worker.
pub proof fn law_a_failed_worker_is_joined(
    m: WindowsModel,
    stream: BindingKind,
    error: String,
    reason_raw: i64,
)
    ensures
        ({
            let done = reported(m, WorkerReport::StreamError { stream, error });
            let after = done.supervisor;
            let worker = m.workers[stream];
            &&& !m.workers.contains_key(stream) ==> after == m && done.commands.len() == 0
            &&& m.workers.contains_key(stream) ==> {
                let decided = model::decide_step(
                    m.state,
                    InputModel::Observation(
                        ObservationModel::WorkerFailed {
                            binding: stream,
                            operation_id: worker.operation_id,
                            error: error@,
                        },
                    ),
                );
                &&& after.state == decided.state
                &&& after.workers == m.workers.remove(stream)
                &&& after.pending_joins == m.pending_joins + 1
                &&& done.commands.len() == decided.effects.len() + 1
                &&& done.commands.last() == (CommandModel::Join {
                    binding: stream,
                    operation_id: worker.operation_id,
                    epoch: worker.epoch,
                })
                &&& forall|i: int|
                    0 <= i < done.commands.len() - 1 ==> #[trigger] done.commands[i]
                        is ScheduleRetry
            }
        }),
        error@ == disconnect_text(reason_raw) ==> reported(
            m,
            WorkerReport::SessionDisconnected { stream, reason_raw },
        ) == reported(m, WorkerReport::StreamError { stream, error }),
        reported(m, WorkerReport::StreamStopped { stream }).supervisor == m,
        reported(m, WorkerReport::StreamStopped { stream }).commands.len() == 0,
{
    if m.workers.contains_key(stream) {
        let input = InputModel::Observation(
            ObservationModel::WorkerFailed {
                binding: stream,
                operation_id: m.workers[stream].operation_id,
                error: error@,
            },
        );
        let step = model::decide_step(m.state, input);
        let decided = WindowsModel { state: step.state, ..m };
        assert(perform(decided, Seq::<EffectModel>::empty()) == decided.quiet());
        if step.effects.len() == 1 {
            assert(step.effects =~= seq![step.effects[0]]);
            law_an_effect_becomes_its_command(decided, step.effects[0]);
        } else {
            assert(step.effects =~= Seq::<EffectModel>::empty());
        }
        let reacted = react(m, input);
        let reaped = reap(reacted.supervisor, stream);
        assert(reaped.commands.len() == 1);
        assert(fail(m, stream, error@).commands =~= reacted.commands + reaped.commands);
    }
}

/// Every worker that is joined is waited for once: each report of an end counts one off,
/// and none too many.
pub proof fn law_joins_are_counted_off(
    m: WindowsModel,
    binding: BindingKind,
    operation_id: OperationId,
    epoch: StreamEpoch,
)
    requires
        m.pending_joins >= 0,
    ensures
        ({
            let after = joined(m, binding, operation_id, epoch).supervisor;
            &&& m.pending_joins > 0 ==> after.pending_joins == m.pending_joins - 1
            &&& m.pending_joins == 0 ==> after.pending_joins == 0
            &&& after.state == model::decide_step(
                m.state,
                InputModel::Observation(
                    ObservationModel::WorkerStopped { binding, operation_id, epoch },
                ),
            ).state
        }),
{
    let counted = WindowsModel {
        pending_joins: if m.pending_joins > 0 {
            m.pending_joins - 1
        } else {
            0
        },
        ..m
    };
    let step = model::decide_step(
        m.state,
        InputModel::Observation(ObservationModel::WorkerStopped { binding, operation_id, epoch }),
    );
    let decided = WindowsModel { state: step.state, ..counted };
    assert(perform(decided, Seq::<EffectModel>::empty()) == decided.quiet());
    if step.effects.len() == 1 {
        assert(step.effects =~= seq![step.effects[0]]);
        law_an_effect_becomes_its_command(decided, step.effects[0]);
    } else {
        assert(step.effects =~= Seq::<EffectModel>::empty());
    }
}

/// A device that becomes active is as good as a new one, and one in any other state is as
/// good as gone. A new default is told with the direction and the role that its numbers
/// stand for; numbers that stand for neither, and changed properties, mean nothing.
pub proof fn law_notices_mean_what_they_say(
    endpoint_id: String,
    new_default: Option<String>,
    new_state_raw: u32,
    flow_raw: i32,
    role_raw: i32,
    constants: AudioConstants,
)
    requires
        constants.flow_capture != constants.flow_render,
        constants.role_console != constants.role_multimedia,
        constants.role_console != constants.role_communications,
        constants.role_multimedia != constants.role_communications,
    ensures
        meaning(DeviceNotice::DeviceAdded { endpoint_id }, constants) == Some(
            ObservationModel::EndpointAdded { endpoint_id: endpoint_id@ },
        ),
        meaning(DeviceNotice::DeviceRemoved { endpoint_id }, constants) == Some(
            ObservationModel::EndpointRemoved { endpoint_id: endpoint_id@ },
        ),
        new_state_raw == constants.device_state_active ==> meaning(
            DeviceNotice::DeviceStateChanged { endpoint_id, new_state_raw },
            constants,
        ) == meaning(DeviceNotice::DeviceAdded { endpoint_id }, constants),
        new_state_raw != constants.device_state_active ==> meaning(
            DeviceNotice::DeviceStateChanged { endpoint_id, new_state_raw },
            constants,
        ) == meaning(DeviceNotice::DeviceRemoved { endpoint_id }, constants),
        meaning(DeviceNotice::PropertyValueChanged { endpoint_id }, constants) is None,
        ({
            let told = meaning(
                DeviceNotice::DefaultDeviceChanged {
                    flow_raw,
                    role_raw,
                    endpoint_id: new_default,
                },
                constants,
            );
            let flow_known = flow_raw == constants.flow_capture || flow_raw
                == constants.flow_render;
            let role_known = role_raw == constants.role_console || role_raw
                == constants.role_multimedia || role_raw == constants.role_communications;
            &&& told is Some <==> flow_known && role_known
            &&& told is Some ==> {
                &&& told->0 matches ObservationModel::DefaultEndpointChanged {
                    flow,
                    role,
                    endpoint_id,
                }
                &&& flow == DataFlow::Capture <==> flow_raw == constants.flow_capture
                &&& flow == DataFlow::Render <==> flow_raw == constants.flow_render
                &&& role == DeviceRole::Console <==> role_raw == constants.role_console
                &&& role == DeviceRole::Multimedia <==> role_raw == constants.role_multimedia
                &&& role == DeviceRole::Communications <==> role_raw
                    == constants.role_communications
                &&& new_default is None ==> endpoint_id is None
                &&& new_default matches Some(id) ==> endpoint_id == Some(id@)
            }
        }),
{
}

/// A recording starts with a worker for each track, the microphone's first, on the
/// endpoints that the tracks were pinned to, and each under an epoch of its own.
pub proof fn law_both_tracks_start_on_their_endpoints(
    m: WindowsModel,
    microphone: Seq<char>,
    render: Seq<char>,
)
    requires
        !m.state.shutdown,
    ensures
        ({
            let ready = WindowsModel { state: pinned(m.state, microphone, render), ..m };
            let done = started_all(ready);
            &&& done.commands == seq![
                CommandModel::Spawn {
                    binding: BindingKind::Microphone,
                    target: TargetModel::Endpoint(microphone),
                    epoch: StreamEpoch(m.state.next_stream_epoch as u64),
                },
                CommandModel::Spawn {
                    binding: BindingKind::EndpointLoopback,
                    target: TargetModel::Endpoint(render),
                    epoch: StreamEpoch((m.state.next_stream_epoch + 1) as u64),
                },
            ]
            &&& done.supervisor.pending_joins == m.pending_joins
            &&& done.supervisor.state.lifecycle(BindingKind::Microphone) is Starting
            &&& done.supervisor.state.lifecycle(BindingKind::EndpointLoopback) is Starting
        }),
{
    let ready = WindowsModel { state: pinned(m.state, microphone, render), ..m };
    let mic = BindingKind::Microphone;
    let system = BindingKind::EndpointLoopback;
    let first = model::decide_step(ready.state, InputModel::Start { binding: mic });
    let begun = WindowsModel { state: first.state, ..ready };
    assert(first.effects =~= seq![first.effects[0]]);
    law_an_effect_becomes_its_command(begun, first.effects[0]);
    let between = react(ready, InputModel::Start { binding: mic }).supervisor;
    assert(between.state == first.state);
    assert(first.state.bindings[system] == pinned_binding(render));
    let second = model::decide_step(between.state, InputModel::Start { binding: system });
    let going = WindowsModel { state: second.state, ..between };
    assert(second.effects =~= seq![second.effects[0]]);
    law_an_effect_becomes_its_command(going, second.effects[0]);
    assert(second.state.bindings[mic] == first.state.bindings[mic]);
}

} // verus!
