//! The supervisor for a backend in which one shared stream serves every binding.
//!
//! Decisions treat the bindings as independent, each with starts and stops of its own,
//! but here one stream delivers microphone and system audio at once, and no output can
//! be added to a stream that runs. So the bindings are kept track of one by one, while
//! the stream is one for all: after every batch of starts and stops the supervisor
//! compares the bindings that the stream serves with those that have a worker, and where
//! they differ the whole stream is torn down and built anew. A binding that did not ask
//! for it may then be interrupted briefly; its own bookkeeping is left alone.

use super::windows;
use super::workers::{self, KindTable, WorkerHandle, WorkerModel, WorkerTable};
use crate::capture_health::CaptureHealth;
use crate::capture_stream::StreamOutputs;
use crate::device_diff::{DeviceDelta, DeviceSnapshot};
use crate::device_watch::DeviceWatchEvent;
use crate::rebinding::model::{
    self, DecisionModel, EffectModel, InputModel, ObservationModel, Step, TargetModel,
};
use crate::rebinding::{
    self, decide, BindingKind, DataFlow, DecisionInput, DecisionState, DeviceRole, Effect,
    EndpointId, Observation, OperationId, ResolvedTarget, StreamEpoch, UserIntent,
};
use vstd::prelude::*;

verus! {

/// How to build the shared stream.
#[derive(Debug, PartialEq, Eq)]
pub struct SharedStreamPlan {
    pub outputs: StreamOutputs,
    /// The binding that the system-audio output is for.
    pub system_audio_binding: BindingKind,
    /// Each output has the epoch of its own binding.
    pub microphone_epoch: Option<u64>,
    pub system_audio_epoch: Option<u64>,
    /// The microphone to pin the stream to, if it has one.
    pub microphone_device_id: Option<String>,
}

/// What whoever drives the supervisor has to do next.
#[derive(Debug, PartialEq, Eq)]
pub enum StreamCommand {
    /// Tell the shared stream to stop, and report its end when it has been joined.
    TearDown,
    /// Build the shared stream and start it.
    Build(SharedStreamPlan),
    /// Report back after this delay.
    ScheduleRetry { binding: BindingKind, retry_id: u64, delay_ms: u64 },
}

/// A plan, by what it names.
pub struct PlanModel {
    pub outputs: StreamOutputs,
    pub system_audio_binding: BindingKind,
    pub microphone_epoch: Option<u64>,
    pub system_audio_epoch: Option<u64>,
    pub microphone_device_id: Option<Seq<char>>,
}

/// A command, by what it names.
pub enum CommandModel {
    TearDown,
    Build(PlanModel),
    ScheduleRetry { binding: BindingKind, retry_id: u64, delay_ms: u64 },
}

/// The text of an optional id.
pub open spec fn id_text(id: Option<String>) -> Option<Seq<char>> {
    match id {
        Some(id) => Some(id@),
        None => None,
    }
}

impl View for StreamCommand {
    type V = CommandModel;

    open spec fn view(&self) -> CommandModel {
        match self {
            StreamCommand::TearDown => CommandModel::TearDown,
            StreamCommand::Build(plan) => CommandModel::Build(
                PlanModel {
                    outputs: plan.outputs,
                    system_audio_binding: plan.system_audio_binding,
                    microphone_epoch: plan.microphone_epoch,
                    system_audio_epoch: plan.system_audio_epoch,
                    microphone_device_id: id_text(plan.microphone_device_id),
                },
            ),
            StreamCommand::ScheduleRetry { binding, retry_id, delay_ms } =>
                CommandModel::ScheduleRetry {
                binding: *binding,
                retry_id: *retry_id,
                delay_ms: *delay_ms,
            },
        }
    }
}

/// The commands of a list, each by its model.
pub open spec fn commands_of(commands: Seq<StreamCommand>) -> Seq<CommandModel> {
    Seq::new(commands.len(), |i: int| commands[i]@)
}

/// The state of the supervisor.
#[verifier::ext_equal]
pub struct MacosModel {
    pub state: DecisionModel,
    pub workers: Map<BindingKind, WorkerModel>,
    /// The bindings that the shared stream serves, and under which operation each was
    /// when the stream was built; `None` while there is no stream.
    pub active: Option<Map<BindingKind, OperationId>>,
    /// Streams that are being joined and have not been reported back.
    pub pending_joins: int,
}

/// The supervisor and the commands so far.
pub struct Progress {
    pub supervisor: MacosModel,
    pub commands: Seq<CommandModel>,
}

impl MacosModel {
    pub open spec fn quiet(self) -> Progress {
        Progress { supervisor: self, commands: Seq::empty() }
    }

    /// The bindings that the shared stream serves.
    pub open spec fn served(self) -> Set<BindingKind> {
        match self.active {
            Some(operations) => operations.dom(),
            None => Set::empty(),
        }
    }
}

/// The operation of each worker.
pub open spec fn operations(workers: Map<BindingKind, WorkerModel>) -> Map<
    BindingKind,
    OperationId,
> {
    workers.map_values(|worker: WorkerModel| worker.operation_id)
}

/// The epoch of a binding's worker, if it has one.
pub open spec fn epoch_of(workers: Map<BindingKind, WorkerModel>, kind: BindingKind) -> Option<
    u64,
> {
    if workers.contains_key(kind) {
        Some(workers[kind].epoch.0)
    } else {
        None
    }
}

/// How to build a stream that serves these workers.
pub open spec fn plan_for(workers: Map<BindingKind, WorkerModel>) -> PlanModel {
    let microphone = workers.contains_key(BindingKind::Microphone);
    let process = workers.contains_key(BindingKind::ProcessLoopback);
    let system_audio_binding = if process {
        BindingKind::ProcessLoopback
    } else {
        BindingKind::EndpointLoopback
    };
    PlanModel {
        outputs: StreamOutputs {
            microphone,
            system_audio: workers.contains_key(BindingKind::EndpointLoopback) || process,
        },
        system_audio_binding,
        microphone_epoch: epoch_of(workers, BindingKind::Microphone),
        system_audio_epoch: epoch_of(workers, system_audio_binding),
        microphone_device_id: if microphone {
            match workers[BindingKind::Microphone].target {
                TargetModel::Endpoint(id) => Some(id),
                TargetModel::Process { .. } => None,
            }
        } else {
            None
        },
    }
}

/// Bringing the shared stream in line with the workers. A stream that serves exactly the
/// bindings that have a worker is left alone; any other is torn down, and a new one is
/// built if there is anything to serve.
pub open spec fn reconcile(m: MacosModel) -> Progress {
    if m.workers.dom() == m.served() {
        m.quiet()
    } else {
        let torn = MacosModel {
            active: None,
            pending_joins: m.pending_joins + if m.active is Some {
                1int
            } else {
                0int
            },
            ..m
        };
        let tearing = if m.active is Some {
            seq![CommandModel::TearDown]
        } else {
            Seq::empty()
        };
        if m.workers.dom() == Set::<BindingKind>::empty() {
            Progress { supervisor: torn, commands: tearing }
        } else {
            Progress {
                supervisor: MacosModel { active: Some(operations(m.workers)), ..torn },
                commands: tearing.push(CommandModel::Build(plan_for(m.workers))),
            }
        }
    }
}

/// Starting the worker that a decision asks for right after a stop was reported, if it
/// asks for one.
pub open spec fn resume(m: MacosModel, effects: Seq<EffectModel>) -> Progress {
    if effects.len() == 0 {
        m.quiet()
    } else {
        reconcile(
            MacosModel { workers: workers::workers_after_one(m.workers, effects[0]), ..m },
        )
    }
}

/// What one effect comes to. A stop takes the binding's worker off the table and is
/// reported as done at once: the stream is shared, so there is no worker of the
/// binding's own to wait for.
pub open spec fn perform_one(m: MacosModel, effect: EffectModel) -> Progress {
    match effect {
        EffectModel::StartCapture { .. } => MacosModel {
            workers: workers::workers_after_one(m.workers, effect),
            ..m
        }.quiet(),
        EffectModel::StopCapture { binding, operation_id, epoch, .. } => {
            let step = model::decide_step(
                m.state,
                InputModel::Observation(
                    ObservationModel::WorkerStopped { binding, operation_id, epoch },
                ),
            );
            resume(
                MacosModel {
                    state: step.state,
                    workers: workers::workers_after_one(m.workers, effect),
                    ..m
                },
                step.effects,
            )
        },
        EffectModel::ScheduleRetry { binding, retry_id, attempt, .. } => Progress {
            supervisor: m,
            commands: seq![
                CommandModel::ScheduleRetry {
                    binding,
                    retry_id,
                    delay_ms: super::backoff_ms(attempt) as u64,
                },
            ],
        },
    }
}

/// What the effects of a list come to one by one, before the stream is brought in line.
pub open spec fn perform_each(m: MacosModel, effects: Seq<EffectModel>) -> Progress
    decreases effects.len(),
{
    if effects.len() == 0 {
        m.quiet()
    } else {
        let before = perform_each(m, effects.drop_last());
        let last = perform_one(before.supervisor, effects.last());
        Progress { supervisor: last.supervisor, commands: before.commands + last.commands }
    }
}

/// Whether a list of effects starts or stops anything.
pub open spec fn changes_bindings(effects: Seq<EffectModel>) -> bool {
    exists|i: int| 0 <= i < effects.len() && !(#[trigger] effects[i] is ScheduleRetry)
}

/// What a list of effects comes to.
pub open spec fn perform(m: MacosModel, effects: Seq<EffectModel>) -> Progress {
    let each = perform_each(m, effects);
    if changes_bindings(effects) {
        let settled = reconcile(each.supervisor);
        Progress {
            supervisor: settled.supervisor,
            commands: each.commands + settled.commands,
        }
    } else {
        each
    }
}

/// Several decisions in a row, their effects put together.
pub open spec fn decide_all(m: DecisionModel, inputs: Seq<InputModel>) -> Step
    decreases inputs.len(),
{
    if inputs.len() == 0 {
        m.quiet()
    } else {
        let before = decide_all(m, inputs.drop_last());
        let last = model::decide_step(before.state, inputs.last());
        Step { state: last.state, effects: before.effects + last.effects }
    }
}

/// What a batch of inputs comes to: all the decisions first, then their effects.
pub open spec fn react_all(m: MacosModel, inputs: Seq<InputModel>) -> Progress {
    let step = decide_all(m.state, inputs);
    perform(MacosModel { state: step.state, ..m }, step.effects)
}

/// What one input comes to.
pub open spec fn react(m: MacosModel, input: InputModel) -> Progress {
    let step = model::decide_step(m.state, input);
    perform(MacosModel { state: step.state, ..m }, step.effects)
}

/// Whether a binding still has the worker that it had when the stream was built.
pub open spec fn is_live(m: MacosModel, kind: BindingKind) -> bool {
    match m.active {
        Some(held) => held.contains_key(kind) && m.workers.contains_key(kind)
            && m.workers[kind].operation_id == held[kind],
        None => false,
    }
}

/// Whether a binding that the dead stream served still has the worker that it had when
/// the stream was built: its own report of the failure is yet to come. A worker that was
/// started since has an operation of its own and is not waited for.
pub open spec fn awaits_siblings(m: MacosModel) -> bool {
    exists|kind: BindingKind| #[trigger] is_live(m, kind)
}

/// A failure of the shared stream, reported for one of the bindings that it served. The
/// stream reports its death once for each of them; only after the last report is it
/// replaced, so that it is replaced once.
pub open spec fn fail(m: MacosModel, binding: BindingKind, error: Seq<char>) -> Progress {
    if m.workers.contains_key(binding) {
        let step = model::decide_step(
            m.state,
            InputModel::Observation(
                ObservationModel::WorkerFailed {
                    binding,
                    operation_id: m.workers[binding].operation_id,
                    error,
                },
            ),
        );
        let failed = perform(
            MacosModel { state: step.state, workers: m.workers.remove(binding), ..m },
            step.effects,
        );
        if awaits_siblings(failed.supervisor) {
            failed
        } else {
            let settled = reconcile(failed.supervisor);
            Progress {
                supervisor: settled.supervisor,
                commands: failed.commands + settled.commands,
            }
        }
    } else {
        m.quiet()
    }
}

/// A start of the shared stream, reported for one of its bindings.
pub open spec fn announce(m: MacosModel, binding: BindingKind) -> Progress {
    if m.workers.contains_key(binding) {
        let worker = m.workers[binding];
        react(
            m,
            InputModel::Observation(
                ObservationModel::WorkerStarted {
                    binding,
                    operation_id: worker.operation_id,
                    epoch: worker.epoch,
                    target: worker.target,
                },
            ),
        )
    } else {
        m.quiet()
    }
}

/// What a device-change event means for the bindings, if anything. A change of the
/// device list means nothing by itself: the devices have to be looked up again.
pub open spec fn meaning(event: DeviceWatchEvent) -> Option<ObservationModel> {
    match event {
        DeviceWatchEvent::DefaultInputDeviceChanged { device_uid } => match device_uid {
            Some(id) => Some(
                ObservationModel::DefaultEndpointChanged {
                    flow: DataFlow::Capture,
                    role: DeviceRole::Console,
                    endpoint_id: Some(id@),
                },
            ),
            None => None,
        },
        DeviceWatchEvent::DefaultOutputDeviceChanged { device_uid } => match device_uid {
            Some(id) => Some(
                ObservationModel::DefaultEndpointChanged {
                    flow: DataFlow::Render,
                    role: DeviceRole::Console,
                    endpoint_id: Some(id@),
                },
            ),
            None => None,
        },
        DeviceWatchEvent::DeviceListChanged => None,
        DeviceWatchEvent::DeviceAdded { device_uid } => if device_uid@.len() > 0 {
            Some(ObservationModel::EndpointAdded { endpoint_id: device_uid@ })
        } else {
            None
        },
        DeviceWatchEvent::DeviceRemoved { device_uid } => if device_uid@.len() > 0 {
            Some(ObservationModel::EndpointRemoved { endpoint_id: device_uid@ })
        } else {
            None
        },
        DeviceWatchEvent::ApplicationTerminated { pid, .. } => Some(
            ObservationModel::ProcessExited { pid },
        ),
        DeviceWatchEvent::ApplicationLaunched { .. } => None,
    }
}

/// Turns a device-change event into an observation, where it has a meaning for the
/// bindings.
pub fn interpret(event: DeviceWatchEvent) -> (observation: Option<Observation>)
    ensures
        windows::observation_of(observation) == meaning(event),
{
    match event {
        DeviceWatchEvent::DefaultInputDeviceChanged { device_uid } => match device_uid {
            Some(id) => Some(
                Observation::DefaultEndpointChanged {
                    flow: DataFlow::Capture,
                    role: DeviceRole::Console,
                    endpoint_id: Some(EndpointId(id)),
                },
            ),
            None => None,
        },
        DeviceWatchEvent::DefaultOutputDeviceChanged { device_uid } => match device_uid {
            Some(id) => Some(
                Observation::DefaultEndpointChanged {
                    flow: DataFlow::Render,
                    role: DeviceRole::Console,
                    endpoint_id: Some(EndpointId(id)),
                },
            ),
            None => None,
        },
        DeviceWatchEvent::DeviceListChanged => None,
        DeviceWatchEvent::DeviceAdded { device_uid } => {
            if device_uid.as_str().is_empty() {
                None
            } else {
                Some(Observation::EndpointAdded { endpoint_id: EndpointId(device_uid) })
            }
        },
        DeviceWatchEvent::DeviceRemoved { device_uid } => {
            if device_uid.as_str().is_empty() {
                None
            } else {
                Some(Observation::EndpointRemoved { endpoint_id: EndpointId(device_uid) })
            }
        },
        DeviceWatchEvent::ApplicationTerminated { pid, .. } => Some(
            Observation::ProcessExited { pid },
        ),
        DeviceWatchEvent::ApplicationLaunched { .. } => None,
    }
}

/// The observations that a change of the device list comes to: the losses first, as a
/// device that goes and comes back would produce them.
pub open spec fn delta_inputs(delta: DeviceDelta) -> Seq<InputModel> {
    Seq::new(
        delta.removed@.len(),
        |i: int|
            InputModel::Observation(
                ObservationModel::EndpointRemoved { endpoint_id: delta.removed@[i]@ },
            ),
    ) + Seq::new(
        delta.added@.len(),
        |i: int|
            InputModel::Observation(
                ObservationModel::EndpointAdded { endpoint_id: delta.added@[i]@ },
            ),
    )
}

/// The inputs that start everything: the microphone, then the endpoint loopback.
pub open spec fn start_inputs() -> Seq<InputModel> {
    seq![
        InputModel::Start { binding: BindingKind::Microphone },
        InputModel::Start { binding: BindingKind::EndpointLoopback },
    ]
}

/// Supervises one shared stream for all bindings.
#[derive(Debug)]
pub struct MacosSupervisor {
    pub state: DecisionState,
    pub workers: WorkerTable,
    pub active_stream: Option<KindTable<OperationId>>,
    pub pending_joins: usize,
    /// The devices of both directions that were there when last looked up.
    pub device_snapshot: DeviceSnapshot,
}

/// The operations of an optional stream.
pub open spec fn active_of(active: Option<KindTable<OperationId>>) -> Option<
    Map<BindingKind, OperationId>,
> {
    match active {
        Some(table) => Some(table@),
        None => None,
    }
}

impl View for MacosSupervisor {
    type V = MacosModel;

    open spec fn view(&self) -> MacosModel {
        MacosModel {
            state: self.state@,
            workers: self.workers@,
            active: active_of(self.active_stream),
            pending_joins: self.pending_joins as int,
        }
    }
}

/// What a device-change event comes to by itself.
pub open spec fn noticed(m: MacosModel, event: DeviceWatchEvent) -> Progress {
    match meaning(event) {
        Some(observation) => react(m, InputModel::Observation(observation)),
        None => m.quiet(),
    }
}

/// The inputs of a list, each by its model.
pub open spec fn inputs_of(inputs: Seq<DecisionInput>) -> Seq<InputModel> {
    Seq::new(inputs.len(), |i: int| inputs[i]@)
}

/// Whether a supervisor has room for `decisions` more decisions and their effects.
pub open spec fn has_room(m: MacosModel, decisions: nat) -> bool {
    m.state.has_room(4 * decisions) && m.pending_joins + 5 * decisions <= usize::MAX
}

/// Whether a supervisor has used up the room for this many decisions at most.
pub open spec fn used(before: MacosModel, after: MacosModel, decisions: nat) -> bool {
    forall|left: nat| has_room(before, left + decisions) ==> #[trigger] has_room(after, left)
}

proof fn lemma_nothing_used(m: MacosModel)
    ensures
        used(m, m, 1),
{
    assert forall|left: nat| has_room(m, left + 1) implies #[trigger] has_room(m, left) by {
        lemma_room_shrinks(m.state, 4 * (left + 1), 4 * left);
    }
}

/// Several decisions take up as many steps, and have three effects each at most.
proof fn lemma_deciding_uses_steps(m: DecisionModel, inputs: Seq<InputModel>, left: nat)
    requires
        m.has_room(left + inputs.len()),
    ensures
        decide_all(m, inputs).state.has_room(left),
        decide_all(m, inputs).effects.len() <= 3 * inputs.len(),
    decreases inputs.len(),
{
    if inputs.len() > 0 {
        lemma_deciding_uses_steps(m, inputs.drop_last(), left + 1);
        let before = decide_all(m, inputs.drop_last()).state;
        model::lemma_decide_uses_one_step(before, inputs.last(), left + 1);
        rebinding::laws::law_one_effect_per_binding(before, inputs.last());
    }
}

/// Every effect takes up a step at most, and leads to one join at most.
proof fn lemma_performing_uses_steps(m: MacosModel, effects: Seq<EffectModel>, left: nat)
    requires
        m.state.has_room(left + effects.len()),
    ensures
        perform_each(m, effects).supervisor.state.has_room(left),
        perform_each(m, effects).supervisor.pending_joins <= m.pending_joins + effects.len(),
    decreases effects.len(),
{
    if effects.len() > 0 {
        lemma_performing_uses_steps(m, effects.drop_last(), left + 1);
        let before = perform_each(m, effects.drop_last()).supervisor;
        match effects.last() {
            EffectModel::StopCapture { binding, operation_id, epoch, .. } => {
                model::lemma_decide_uses_one_step(
                    before.state,
                    InputModel::Observation(
                        ObservationModel::WorkerStopped { binding, operation_id, epoch },
                    ),
                    left + 1,
                );
            },
            _ => {
                lemma_room_shrinks(before.state, left + 1, left);
            },
        }
    }
}

/// A list of effects leads to one join for each of them at most, and one more.
proof fn lemma_perform_uses_steps(m: MacosModel, effects: Seq<EffectModel>, left: nat)
    requires
        m.state.has_room(left + effects.len()),
    ensures
        perform(m, effects).supervisor.state.has_room(left),
        perform(m, effects).supervisor.pending_joins <= m.pending_joins + if effects.len() > 0 {
            effects.len() + 1
        } else {
            0
        },
{
    lemma_performing_uses_steps(m, effects, left);
}

proof fn lemma_batch_used(m: MacosModel, inputs: Seq<InputModel>)
    ensures
        used(m, react_all(m, inputs).supervisor, inputs.len()),
{
    let after = react_all(m, inputs).supervisor;
    let step = decide_all(m.state, inputs);
    let decided = MacosModel { state: step.state, ..m };
    assert forall|left: nat| has_room(m, left + inputs.len()) implies #[trigger] has_room(
        after,
        left,
    ) by {
        lemma_deciding_uses_steps(m.state, inputs, 4 * left + 3 * inputs.len());
        lemma_room_shrinks(step.state, 4 * left + 3 * inputs.len(), 4 * left + step.effects.len());
        lemma_perform_uses_steps(decided, step.effects, 4 * left);
    }
}

proof fn lemma_one_used(m: MacosModel, input: InputModel)
    ensures
        used(m, react(m, input).supervisor, 1),
{
    let inputs = seq![input];
    lemma_batch_used(m, inputs);
    assert(inputs.drop_last() =~= Seq::<InputModel>::empty());
    assert(decide_all(m.state, Seq::<InputModel>::empty()) == m.state.quiet());
    let step = model::decide_step(m.state, input);
    assert(m.state.quiet().effects + step.effects =~= step.effects);
    assert(decide_all(m.state, inputs).effects == step.effects);
}

proof fn lemma_failure_used(m: MacosModel, binding: BindingKind, error: Seq<char>)
    ensures
        used(m, fail(m, binding, error).supervisor, 1),
{
    let after = fail(m, binding, error).supervisor;
    if m.workers.contains_key(binding) {
        let input = InputModel::Observation(
            ObservationModel::WorkerFailed {
                binding,
                operation_id: m.workers[binding].operation_id,
                error,
            },
        );
        let step = model::decide_step(m.state, input);
        let decided = MacosModel {
            state: step.state,
            workers: m.workers.remove(binding),
            ..m
        };
        rebinding::laws::law_one_effect_per_binding(m.state, input);
        assert forall|left: nat| has_room(m, left + 1) implies #[trigger] has_room(after, left) by {
            model::lemma_decide_uses_one_step(m.state, input, 4 * (left + 1));
            lemma_room_shrinks(step.state, 4 * left + 3, 4 * left + step.effects.len());
            lemma_perform_uses_steps(decided, step.effects, 4 * left);
        }
    } else {
        lemma_nothing_used(m);
    }
}

proof fn lemma_room_shrinks(m: DecisionModel, more: nat, fewer: nat)
    requires
        m.has_room(more),
        fewer <= more,
    ensures
        m.has_room(fewer),
{
    assert forall|kind: BindingKind| #[trigger] m.bindings.contains_key(kind) implies
        m.bindings[kind].retry_attempt + fewer <= u32::MAX by {}
}

proof fn lemma_change_so_far(effects: Seq<EffectModel>)
    requires
        effects.len() > 0,
    ensures
        changes_bindings(effects) == (changes_bindings(effects.drop_last())
            || !(effects.last() is ScheduleRetry)),
{
    if changes_bindings(effects.drop_last()) {
        let i = choose|i: int|
            0 <= i < effects.drop_last().len() && !(#[trigger] effects.drop_last()[i]
                is ScheduleRetry);
        assert(effects[i] == effects.drop_last()[i]);
    }
    if changes_bindings(effects) {
        let i = choose|i: int| 0 <= i < effects.len() && !(#[trigger] effects[i] is ScheduleRetry);
        if i < effects.len() - 1 {
            assert(effects.drop_last()[i] == effects[i]);
        }
    }
    assert(effects.last() == effects[effects.len() - 1]);
}

/// What follows a stop is a start or nothing.
proof fn lemma_stop_resumes_with_a_start(
    m: DecisionModel,
    binding: BindingKind,
    operation_id: OperationId,
    epoch: StreamEpoch,
)
    ensures
        ({
            let effects = model::worker_stopped_step(m, binding, operation_id, epoch).effects;
            &&& effects.len() <= 1
            &&& effects.len() == 1 ==> effects[0] is StartCapture
        }),
{
}

proof fn lemma_awaits(m: MacosModel)
    ensures
        awaits_siblings(m) == (is_live(m, BindingKind::Microphone) || is_live(
            m,
            BindingKind::EndpointLoopback,
        ) || is_live(m, BindingKind::ProcessLoopback)),
{
    if awaits_siblings(m) {
        let kind = choose|kind: BindingKind| #[trigger] is_live(m, kind);
        match kind {
            BindingKind::Microphone => {},
            BindingKind::EndpointLoopback => {},
            BindingKind::ProcessLoopback => {},
        }
    }
}

proof fn lemma_same_kinds(a: Set<BindingKind>, b: Set<BindingKind>)
    ensures
        a == b <==> {
            &&& a.contains(BindingKind::Microphone) == b.contains(BindingKind::Microphone)
            &&& a.contains(BindingKind::EndpointLoopback) == b.contains(
                BindingKind::EndpointLoopback,
            )
            &&& a.contains(BindingKind::ProcessLoopback) == b.contains(
                BindingKind::ProcessLoopback,
            )
        },
{
    if a.contains(BindingKind::Microphone) == b.contains(BindingKind::Microphone) && a.contains(
        BindingKind::EndpointLoopback,
    ) == b.contains(BindingKind::EndpointLoopback) && a.contains(BindingKind::ProcessLoopback)
        == b.contains(BindingKind::ProcessLoopback) {
        assert forall|kind: BindingKind| a.contains(kind) == b.contains(kind) by {
            match kind {
                BindingKind::Microphone => {},
                BindingKind::EndpointLoopback => {},
                BindingKind::ProcessLoopback => {},
            }
        }
        assert(a =~= b);
    }
}

/// Takes several decisions in a row and puts their effects together.
fn decide_batch(state: &mut DecisionState, inputs: Vec<DecisionInput>) -> (effects: Vec<Effect>)
    requires
        old(state)@.has_room(4 * inputs@.len()),
    ensures
        final(state)@ == decide_all(old(state)@, inputs_of(inputs@)).state,
        rebinding::effects_of(effects@) == decide_all(old(state)@, inputs_of(inputs@)).effects,
        effects@.len() <= 3 * inputs@.len(),
        final(state)@.has_room(3 * inputs@.len()),
{
    let ghost all = inputs_of(inputs@);
    let ghost start = state@;
    let mut effects: Vec<Effect> = Vec::new();
    let n: usize = inputs.len();
    let ghost mut left: nat = 4 * inputs@.len();
    assert(rebinding::effects_of(effects@) =~= Seq::empty());
    assert(all.take(0) =~= Seq::empty());
    for input in iter: inputs
        invariant
            iter.seq() == inputs@,
            all == inputs_of(inputs@),
            n == inputs@.len(),
            state@ == decide_all(start, all.take(iter.index() as int)).state,
            rebinding::effects_of(effects@) == decide_all(
                start,
                all.take(iter.index() as int),
            ).effects,
            effects@.len() <= 3 * iter.index(),
            left == 4 * n - iter.index(),
            state@.has_room(left),
    {
        let ghost k = iter.index() as int;
        let ghost so_far = all.take(k + 1);
        let ghost earlier = rebinding::effects_of(effects@);
        assert(so_far.drop_last() =~= all.take(k));
        assert(so_far.last() == input@);
        proof {
            model::lemma_decide_uses_one_step(state@, input@, left);
            rebinding::laws::law_one_effect_per_binding(state@, input@);
            left = (left - 1) as nat;
        }
        let mut more: Vec<Effect> = decide(state, input);
        let ghost added = rebinding::effects_of(more@);
        assert(added.len() == more@.len());
        effects.append(&mut more);
        assert(rebinding::effects_of(effects@) =~= earlier + added);
    }
    assert(all.take(n as int) =~= all);
    effects
}

impl MacosSupervisor {
    /// Starts without bindings: devices are pinned before anything is started.
    pub fn new() -> (supervisor: Self)
        ensures
            supervisor@ == (MacosModel {
                state: DecisionModel::empty(),
                workers: Map::empty(),
                active: None,
                pending_joins: 0,
            }),
            supervisor.device_snapshot@ == Set::<Seq<char>>::empty(),
    {
        MacosSupervisor {
            state: DecisionState::new(),
            workers: WorkerTable::new(),
            active_stream: None,
            pending_joins: 0,
            device_snapshot: DeviceSnapshot::default(),
        }
    }

    /// Snapshot of both tracks' current health.
    pub fn capture_health(&self) -> (health: CaptureHealth)
        ensures
            crate::capture_health::shows(health.self_health, self.state, BindingKind::Microphone),
            crate::capture_health::shows(
                health.remote_health,
                self.state,
                BindingKind::EndpointLoopback,
            ),
    {
        crate::capture_health::capture_health(&self.state)
    }

    /// Pins both bindings to specific endpoints.
    pub fn pin_devices(
        &mut self,
        microphone_endpoint_id: EndpointId,
        render_endpoint_id: EndpointId,
    )
        ensures
            final(self)@ == (MacosModel {
                state: windows::pinned(old(self)@.state, microphone_endpoint_id@, render_endpoint_id@),
                ..old(self)@
            }),
            final(self).device_snapshot == old(self).device_snapshot,
    {
        windows::pin_bindings(&mut self.state, microphone_endpoint_id, render_endpoint_id);
    }

    /// Whether a frame of this epoch belongs to the current generation of its binding;
    /// others, such as those of a stream that was just torn down, are left out.
    pub fn accepts_frame(&self, binding: BindingKind, capture_epoch: u64) -> (accepted: bool)
        ensures
            accepted == self@.state.accepts_epoch(binding, StreamEpoch(capture_epoch)),
    {
        self.state.accepts_epoch(binding, StreamEpoch(capture_epoch))
    }

    fn serves(&self, kind: BindingKind) -> (serves: bool)
        ensures
            serves == self@.served().contains(kind),
    {
        match &self.active_stream {
            Some(table) => table.get(kind).is_some(),
            None => false,
        }
    }

    fn plan(&self) -> (plan: SharedStreamPlan)
        ensures
            StreamCommand::Build(plan)@ == CommandModel::Build(plan_for(self.workers@)),
    {
        let process: bool = self.workers.get(BindingKind::ProcessLoopback).is_some();
        let endpoint: bool = self.workers.get(BindingKind::EndpointLoopback).is_some();
        let system_audio_binding: BindingKind = if process {
            BindingKind::ProcessLoopback
        } else {
            BindingKind::EndpointLoopback
        };
        let system_audio_epoch: Option<u64> = match self.workers.get(system_audio_binding) {
            Some(worker) => Some(worker.epoch.0),
            None => None,
        };
        match self.workers.get(BindingKind::Microphone) {
            Some(worker) => SharedStreamPlan {
                outputs: StreamOutputs { microphone: true, system_audio: endpoint || process },
                system_audio_binding,
                microphone_epoch: Some(worker.epoch.0),
                system_audio_epoch,
                microphone_device_id: match &worker.target {
                    ResolvedTarget::Endpoint(endpoint_id) => Some(endpoint_id.0.clone()),
                    ResolvedTarget::Process { .. } => None,
                },
            },
            None => SharedStreamPlan {
                outputs: StreamOutputs { microphone: false, system_audio: endpoint || process },
                system_audio_binding,
                microphone_epoch: None,
                system_audio_epoch,
                microphone_device_id: None,
            },
        }
    }

    fn operation_table(&self) -> (table: KindTable<OperationId>)
        ensures
            table@ == operations(self.workers@),
    {
        let mut table: KindTable<OperationId> = KindTable::new();
        match self.workers.get(BindingKind::Microphone) {
            Some(worker) => {
                table.insert(BindingKind::Microphone, worker.operation_id);
            },
            None => {},
        }
        match self.workers.get(BindingKind::EndpointLoopback) {
            Some(worker) => {
                table.insert(BindingKind::EndpointLoopback, worker.operation_id);
            },
            None => {},
        }
        match self.workers.get(BindingKind::ProcessLoopback) {
            Some(worker) => {
                table.insert(BindingKind::ProcessLoopback, worker.operation_id);
            },
            None => {},
        }
        proof {
            lemma_same_kinds(table@.dom(), self.workers@.dom());
            assert(table@ =~= operations(self.workers@)) by {
                assert forall|kind: BindingKind| table@.contains_key(kind) implies table@[kind]
                    == operations(self.workers@)[kind] by {
                    match kind {
                        BindingKind::Microphone => {},
                        BindingKind::EndpointLoopback => {},
                        BindingKind::ProcessLoopback => {},
                    }
                }
            }
        }
        table
    }

    fn reconcile_active_stream(&mut self) -> (commands: Vec<StreamCommand>)
        requires
            old(self).pending_joins < usize::MAX,
        ensures
            final(self)@ == reconcile(old(self)@).supervisor,
            commands_of(commands@) == reconcile(old(self)@).commands,
            final(self).pending_joins <= old(self).pending_joins + 1,
            final(self).device_snapshot == old(self).device_snapshot,
    {
        let microphone: bool = self.workers.get(BindingKind::Microphone).is_some();
        let endpoint: bool = self.workers.get(BindingKind::EndpointLoopback).is_some();
        let process: bool = self.workers.get(BindingKind::ProcessLoopback).is_some();
        let mut commands: Vec<StreamCommand> = Vec::new();
        proof {
            lemma_same_kinds(self.workers@.dom(), self@.served());
            lemma_same_kinds(self.workers@.dom(), Set::empty());
        }
        if microphone == self.serves(BindingKind::Microphone) && endpoint == self.serves(
            BindingKind::EndpointLoopback,
        ) && process == self.serves(BindingKind::ProcessLoopback) {
            assert(commands_of(commands@) =~= Seq::empty());
            return commands;
        }
        if self.active_stream.is_some() {
            self.active_stream = None;
            self.pending_joins = self.pending_joins + 1;
            commands.push(StreamCommand::TearDown);
        }
        if !microphone && !endpoint && !process {
            assert(commands_of(commands@) =~= reconcile(old(self)@).commands);
            return commands;
        }
        let plan: SharedStreamPlan = self.plan();
        commands.push(StreamCommand::Build(plan));
        self.active_stream = Some(self.operation_table());
        assert(commands_of(commands@) =~= reconcile(old(self)@).commands);
        commands
    }

    fn resume(&mut self, effects: Vec<Effect>) -> (commands: Vec<StreamCommand>)
        requires
            effects@.len() <= 1,
            effects@.len() == 1 ==> effects@[0] is StartCapture,
            old(self).pending_joins < usize::MAX,
        ensures
            final(self)@ == resume(old(self)@, rebinding::effects_of(effects@)).supervisor,
            commands_of(commands@) == resume(
                old(self)@,
                rebinding::effects_of(effects@),
            ).commands,
            final(self).pending_joins <= old(self).pending_joins + 1,
            final(self).device_snapshot == old(self).device_snapshot,
    {
        let mut effects: Vec<Effect> = effects;
        match effects.pop() {
            Some(Effect::StartCapture { binding, operation_id, proposed_epoch, target, .. }) => {
                self.workers.insert(
                    binding,
                    WorkerHandle { operation_id, epoch: proposed_epoch, target },
                );
                self.reconcile_active_stream()
            },
            _ => {
                let commands: Vec<StreamCommand> = Vec::new();
                assert(commands_of(commands@) =~= Seq::empty());
                commands
            },
        }
    }

    fn execute(&mut self, effects: Vec<Effect>) -> (commands: Vec<StreamCommand>)
        requires
            old(self)@.state.has_room(effects@.len()),
            effects@.len() > 0 ==> old(self).pending_joins + effects@.len() + 1 <= usize::MAX,
        ensures
            final(self)@ == perform(old(self)@, rebinding::effects_of(effects@)).supervisor,
            commands_of(commands@) == perform(
                old(self)@,
                rebinding::effects_of(effects@),
            ).commands,
            final(self).pending_joins <= old(self).pending_joins + effects@.len() + 1,
            final(self).device_snapshot == old(self).device_snapshot,
    {
        let ghost all = rebinding::effects_of(effects@);
        let ghost start = self@;
        let mut binding_set_changed: bool = false;
        let mut commands: Vec<StreamCommand> = Vec::new();
        assert(commands_of(commands@) =~= Seq::empty());
        assert(all.take(0) =~= Seq::empty());
        let n: usize = effects.len();
        for effect in iter: effects
            invariant
                iter.seq() == effects@,
                all == rebinding::effects_of(effects@),
                n == effects@.len(),
                self@ == perform_each(start, all.take(iter.index() as int)).supervisor,
                commands_of(commands@) == perform_each(
                    start,
                    all.take(iter.index() as int),
                ).commands,
                binding_set_changed == changes_bindings(all.take(iter.index() as int)),
                self@.state.has_room((n - iter.index()) as nat),
                self.pending_joins <= start.pending_joins + iter.index(),
                n > 0 ==> start.pending_joins + n + 1 <= usize::MAX,
                self.device_snapshot == old(self).device_snapshot,
        {
            let ghost k = iter.index() as int;
            let ghost before = self@;
            let ghost so_far = all.take(k + 1);
            let ghost earlier = commands_of(commands@);
            assert(so_far.drop_last() =~= all.take(k));
            assert(so_far.last() == effect@);
            proof {
                lemma_change_so_far(so_far);
            }
            match effect {
                Effect::StartCapture { binding, operation_id, proposed_epoch, target, .. } => {
                    self.workers.insert(
                        binding,
                        WorkerHandle { operation_id, epoch: proposed_epoch, target },
                    );
                    binding_set_changed = true;
                },
                Effect::StopCapture { binding, operation_id, epoch, .. } => {
                    let stopped = Observation::WorkerStopped { binding, operation_id, epoch };
                    let _ = self.workers.remove(binding);
                    binding_set_changed = true;
                    proof {
                        model::lemma_decide_uses_one_step(
                            self.state@,
                            InputModel::Observation(stopped@),
                            (n - k) as nat,
                        );
                        lemma_stop_resumes_with_a_start(
                            self.state@,
                            binding,
                            operation_id,
                            epoch,
                        );
                    }
                    let next: Vec<Effect> = decide(
                        &mut self.state,
                        DecisionInput::Observation(stopped),
                    );
                    assert(rebinding::effects_of(next@).len() == next@.len());
                    assert(next@.len() == 1 ==> rebinding::effects_of(next@)[0] == next@[0]@);
                    assert(self.workers@ =~= workers::workers_after_one(before.workers, effect@));
                    let mut resumed: Vec<StreamCommand> = self.resume(next);
                    let ghost added = commands_of(resumed@);
                    commands.append(&mut resumed);
                    assert(commands_of(commands@) =~= earlier + added);
                },
                Effect::ScheduleRetry { binding, retry_id, attempt, .. } => {
                    let delay_ms: u64 = super::backoff_for_attempt(attempt);
                    commands.push(StreamCommand::ScheduleRetry { binding, retry_id, delay_ms });
                },
            }
            assert(commands_of(commands@) =~= earlier + perform_one(before, effect@).commands);
            assert(self@ =~= perform_each(start, so_far).supervisor);
        }
        assert(all.take(n as int) =~= all);
        if binding_set_changed {
            let ghost earlier = commands_of(commands@);
            let mut settled: Vec<StreamCommand> = self.reconcile_active_stream();
            let ghost added = commands_of(settled@);
            commands.append(&mut settled);
            assert(commands_of(commands@) =~= earlier + added);
        }
        commands
    }

    fn react(&mut self, input: DecisionInput) -> (commands: Vec<StreamCommand>)
        requires
            has_room(old(self)@, 1),
        ensures
            final(self)@ == react(old(self)@, input@).supervisor,
            commands_of(commands@) == react(old(self)@, input@).commands,
            used(old(self)@, final(self)@, 1),
            final(self).device_snapshot == old(self).device_snapshot,
    {
        proof {
            lemma_one_used(self@, input@);
            model::lemma_decide_uses_one_step(self.state@, input@, 4);
            rebinding::laws::law_one_effect_per_binding(self.state@, input@);
        }
        let effects: Vec<Effect> = decide(&mut self.state, input);
        assert(effects@.len() == rebinding::effects_of(effects@).len());
        self.execute(effects)
    }

    fn awaits_siblings(&self) -> (awaits: bool)
        ensures
            awaits == awaits_siblings(self@),
    {
        proof {
            lemma_awaits(self@);
        }
        self.is_live(BindingKind::Microphone) || self.is_live(BindingKind::EndpointLoopback)
            || self.is_live(BindingKind::ProcessLoopback)
    }

    fn is_live(&self, kind: BindingKind) -> (live: bool)
        ensures
            live == is_live(self@, kind),
    {
        match &self.active_stream {
            Some(held) => match (held.get(kind), self.workers.get(kind)) {
                (Some(operation_id), Some(worker)) => *operation_id == worker.operation_id,
                _ => false,
            },
            None => false,
        }
    }

    /// The shared stream reported a start for one of its bindings.
    pub fn handle_stream_started(&mut self, stream: BindingKind) -> (commands: Vec<StreamCommand>)
        requires
            has_room(old(self)@, 1),
        ensures
            final(self)@ == announce(old(self)@, stream).supervisor,
            commands_of(commands@) == announce(old(self)@, stream).commands,
            used(old(self)@, final(self)@, 1),
            final(self).device_snapshot == old(self).device_snapshot,
    {
        proof {
            lemma_nothing_used(self@);
        }
        let (operation_id, epoch, target): (OperationId, StreamEpoch, ResolvedTarget) =
            match self.workers.get(stream) {
            Some(worker) => (worker.operation_id, worker.epoch, worker.target.clone()),
            None => {
                let commands: Vec<StreamCommand> = Vec::new();
                assert(commands_of(commands@) =~= Seq::empty());
                return commands;
            },
        };
        self.react(
            DecisionInput::Observation(
                Observation::WorkerStarted { binding: stream, operation_id, epoch, target },
            ),
        )
    }

    /// The shared stream died and reported it for one of its bindings.
    pub fn handle_stream_error(&mut self, stream: BindingKind, error: String) -> (commands: Vec<
        StreamCommand,
    >)
        requires
            has_room(old(self)@, 1),
        ensures
            final(self)@ == fail(old(self)@, stream, error@).supervisor,
            commands_of(commands@) == fail(old(self)@, stream, error@).commands,
            used(old(self)@, final(self)@, 1),
            final(self).device_snapshot == old(self).device_snapshot,
    {
        proof {
            lemma_failure_used(self@, stream, error@);
        }
        let operation_id: OperationId = match self.workers.get(stream) {
            Some(worker) => worker.operation_id,
            None => {
                let commands: Vec<StreamCommand> = Vec::new();
                assert(commands_of(commands@) =~= Seq::empty());
                return commands;
            },
        };
        let failed = Observation::WorkerFailed { binding: stream, operation_id, error };
        proof {
            model::lemma_decide_uses_one_step(
                self.state@,
                InputModel::Observation(failed@),
                4,
            );
            rebinding::laws::law_one_effect_per_binding(self.state@, InputModel::Observation(failed@));
        }
        let effects: Vec<Effect> = decide(&mut self.state, DecisionInput::Observation(failed));
        assert(effects@.len() == rebinding::effects_of(effects@).len());
        let _ = self.workers.remove(stream);
        let mut commands: Vec<StreamCommand> = self.execute(effects);
        if !self.awaits_siblings() {
            let ghost earlier = commands_of(commands@);
            let mut settled: Vec<StreamCommand> = self.reconcile_active_stream();
            let ghost added = commands_of(settled@);
            commands.append(&mut settled);
            assert(commands_of(commands@) =~= earlier + added);
        }
        commands
    }

    /// The system reported a device change. A change of the device list is followed up
    /// with [`MacosSupervisor::roll_devices`] and
    /// [`MacosSupervisor::reconcile_device_list`], once the devices have been looked up.
    pub fn handle_device_watch_event(&mut self, event: DeviceWatchEvent) -> (commands: Vec<
        StreamCommand,
    >)
        requires
            has_room(old(self)@, 1),
        ensures
            final(self)@ == noticed(old(self)@, event).supervisor,
            commands_of(commands@) == noticed(old(self)@, event).commands,
            used(old(self)@, final(self)@, 1),
            final(self).device_snapshot == old(self).device_snapshot,
    {
        proof {
            lemma_nothing_used(self@);
        }
        match interpret(event) {
            Some(observation) => self.react(DecisionInput::Observation(observation)),
            None => {
                let commands: Vec<StreamCommand> = Vec::new();
                assert(commands_of(commands@) =~= Seq::empty());
                commands
            },
        }
    }

    /// Takes over the devices as just looked up, and says what changed since they were
    /// last looked up. A lookup that fails is not passed on: the next one that works is
    /// then compared with the last one that did.
    pub fn roll_devices(&mut self, next: DeviceSnapshot) -> (delta: DeviceDelta)
        ensures
            final(self)@ == old(self)@,
            final(self).device_snapshot@ == next@,
            crate::device_diff::ascending(delta.added@),
            crate::device_diff::ascending(delta.removed@),
            crate::device_diff::ids_of(delta.added@) == next@.difference(
                old(self).device_snapshot@,
            ),
            crate::device_diff::ids_of(delta.removed@) == old(self).device_snapshot@.difference(
                next@,
            ),
    {
        self.device_snapshot.diff_and_update(next)
    }

    fn react_all(&mut self, inputs: Vec<DecisionInput>) -> (commands: Vec<StreamCommand>)
        requires
            has_room(old(self)@, inputs@.len()),
        ensures
            final(self)@ == react_all(old(self)@, inputs_of(inputs@)).supervisor,
            commands_of(commands@) == react_all(old(self)@, inputs_of(inputs@)).commands,
            used(old(self)@, final(self)@, inputs@.len()),
            final(self).device_snapshot == old(self).device_snapshot,
    {
        let ghost n = inputs@.len();
        proof {
            lemma_batch_used(self@, inputs_of(inputs@));
        }
        let effects: Vec<Effect> = decide_batch(&mut self.state, inputs);
        proof {
            lemma_room_shrinks(self@.state, 3 * n, effects@.len());
        }
        self.execute(effects)
    }

    /// Acts on a change of the device list. This is how a pinned device that is not the
    /// default is noticed to be gone, or to be back.
    pub fn reconcile_device_list(&mut self, delta: DeviceDelta) -> (commands: Vec<StreamCommand>)
        requires
            has_room(old(self)@, (delta.removed@.len() + delta.added@.len()) as nat),
        ensures
            final(self)@ == react_all(old(self)@, delta_inputs(delta)).supervisor,
            commands_of(commands@) == react_all(old(self)@, delta_inputs(delta)).commands,
            used(old(self)@, final(self)@, delta_inputs(delta).len()),
            final(self).device_snapshot == old(self).device_snapshot,
    {
        let ghost expected = delta_inputs(delta);
        let ghost lost = delta.removed@;
        let ghost gained = delta.added@;
        let mut inputs: Vec<DecisionInput> = Vec::new();
        for endpoint_id in iter: delta.removed
            invariant
                iter.seq() == lost,
                inputs@.len() == iter.index(),
                forall|i: int|
                    0 <= i < inputs@.len() ==> (#[trigger] inputs@[i])@
                        == InputModel::Observation(
                        ObservationModel::EndpointRemoved { endpoint_id: lost[i]@ },
                    ),
        {
            inputs.push(DecisionInput::Observation(Observation::EndpointRemoved { endpoint_id }));
        }
        for endpoint_id in iter: delta.added
            invariant
                iter.seq() == gained,
                inputs@.len() == lost.len() + iter.index(),
                forall|i: int|
                    0 <= i < lost.len() ==> (#[trigger] inputs@[i])@ == InputModel::Observation(
                        ObservationModel::EndpointRemoved { endpoint_id: lost[i]@ },
                    ),
                forall|i: int|
                    lost.len() <= i < inputs@.len() ==> (#[trigger] inputs@[i])@
                        == InputModel::Observation(
                        ObservationModel::EndpointAdded { endpoint_id: gained[i - lost.len()]@ },
                    ),
        {
            inputs.push(DecisionInput::Observation(Observation::EndpointAdded { endpoint_id }));
        }
        assert(inputs_of(inputs@) =~= expected);
        self.react_all(inputs)
    }

    /// Starts the microphone and the endpoint loopback, on one stream for both. `devices`
    /// are the devices as just looked up, so that the first change of the device list is
    /// compared with these; where the lookup failed, the list starts out as it was.
    pub fn start_all(&mut self, devices: Option<DeviceSnapshot>) -> (commands: Vec<StreamCommand>)
        requires
            has_room(old(self)@, 2),
        ensures
            final(self)@ == react_all(old(self)@, start_inputs()).supervisor,
            commands_of(commands@) == react_all(old(self)@, start_inputs()).commands,
            used(old(self)@, final(self)@, 2),
            final(self).device_snapshot == match devices {
                Some(devices) => devices,
                None => old(self).device_snapshot,
            },
    {
        match devices {
            Some(devices) => {
                self.device_snapshot = devices;
            },
            None => {},
        }
        let mut inputs: Vec<DecisionInput> = Vec::new();
        inputs.push(
            DecisionInput::UserIntent(UserIntent::Start { binding: BindingKind::Microphone }),
        );
        inputs.push(
            DecisionInput::UserIntent(
                UserIntent::Start { binding: BindingKind::EndpointLoopback },
            ),
        );
        assert(inputs_of(inputs@) =~= start_inputs());
        self.react_all(inputs)
    }

    /// A stream that was torn down has been joined. Nothing else follows from it: its
    /// bindings were reported as stopped when it was torn down.
    pub fn handle_join_result(&mut self)
        ensures
            final(self)@ == (MacosModel {
                pending_joins: if old(self)@.pending_joins > 0 {
                    old(self)@.pending_joins - 1
                } else {
                    0
                },
                ..old(self)@
            }),
            used(old(self)@, final(self)@, 0),
            final(self).device_snapshot == old(self).device_snapshot,
    {
        self.pending_joins = self.pending_joins.saturating_sub(1);
    }

    /// A retry timer fired.
    pub fn handle_retry_timer(&mut self, binding: BindingKind, retry_id: u64) -> (commands: Vec<
        StreamCommand,
    >)
        requires
            has_room(old(self)@, 1),
        ensures
            final(self)@ == react(
                old(self)@,
                InputModel::RetryTimerFired { binding, retry_id },
            ).supervisor,
            commands_of(commands@) == react(
                old(self)@,
                InputModel::RetryTimerFired { binding, retry_id },
            ).commands,
            used(old(self)@, final(self)@, 1),
            final(self).device_snapshot == old(self).device_snapshot,
    {
        self.react(DecisionInput::RetryTimerFired { binding, retry_id })
    }

    /// Shutdown was requested. The driver then joins streams while
    /// [`MacosSupervisor::pending_joins`] is not zero.
    pub fn handle_shutdown(&mut self) -> (commands: Vec<StreamCommand>)
        requires
            has_room(old(self)@, 1),
        ensures
            final(self)@ == react(old(self)@, InputModel::ShutdownRequested).supervisor,
            commands_of(commands@) == react(old(self)@, InputModel::ShutdownRequested).commands,
            used(old(self)@, final(self)@, 1),
            final(self).device_snapshot == old(self).device_snapshot,
    {
        self.react(DecisionInput::ShutdownRequested)
    }
}

/// The binding that an effect is about.
pub open spec fn binding_of(effect: EffectModel) -> BindingKind {
    match effect {
        EffectModel::StartCapture { binding, .. } => binding,
        EffectModel::StopCapture { binding, .. } => binding,
        EffectModel::ScheduleRetry { binding, .. } => binding,
    }
}

spec fn busy(m: DecisionModel, kind: BindingKind) -> bool {
    m.bindings.contains_key(kind) && (m.lifecycle(kind) is Starting || m.lifecycle(kind)
        is Stopping)
}

/// No binding has two effects, and each that has one is on its way.
spec fn one_each(step: Step) -> bool {
    &&& forall|i: int, j: int|
        0 <= i < j < step.effects.len() ==> binding_of(#[trigger] step.effects[i]) != binding_of(
            #[trigger] step.effects[j],
        )
    &&& forall|i: int|
        0 <= i < step.effects.len() ==> busy(
            step.state,
            binding_of(#[trigger] step.effects[i]),
        )
}

/// A step that is about one binding and leaves it alone while it is on its way.
spec fn gentle(m: DecisionModel, step: Step, kind: BindingKind) -> bool {
    &&& step.effects.len() <= 1
    &&& step.effects.len() == 1 ==> binding_of(step.effects[0]) == kind && !busy(m, kind) && busy(
        step.state,
        kind,
    )
    &&& busy(m, kind) ==> busy(step.state, kind)
    &&& forall|other: BindingKind|
        other != kind ==> #[trigger] busy(step.state, other) == busy(m, other)
}

proof fn lemma_one_each_goes_on(sofar: Step, step: Step, kind: BindingKind)
    requires
        one_each(sofar),
        gentle(sofar.state, step, kind),
    ensures
        one_each(Step { state: step.state, effects: sofar.effects + step.effects }),
{
    let both = Step { state: step.state, effects: sofar.effects + step.effects };
    let n = sofar.effects.len();
    assert forall|i: int| 0 <= i < both.effects.len() implies busy(
        both.state,
        binding_of(#[trigger] both.effects[i]),
    ) by {
        if i < n {
            assert(both.effects[i] == sofar.effects[i]);
            let other = binding_of(sofar.effects[i]);
            assert(busy(sofar.state, other));
            if other != kind {
                assert(busy(step.state, other) == busy(sofar.state, other));
            }
        }
    }
    assert forall|i: int, j: int| 0 <= i < j < both.effects.len() implies binding_of(
        #[trigger] both.effects[i],
    ) != binding_of(#[trigger] both.effects[j]) by {
        assert(both.effects[i] == sofar.effects[i]);
        if j < n {
            assert(both.effects[j] == sofar.effects[j]);
        } else {
            assert(both.effects[j] == step.effects[0]);
            assert(busy(sofar.state, binding_of(sofar.effects[i])));
        }
    }
}

proof fn lemma_start_is_gentle(m: DecisionModel, kind: BindingKind)
    ensures
        gentle(m, model::start_step(m, kind), kind),
{
}

proof fn lemma_stop_is_gentle(m: DecisionModel, kind: BindingKind, next: rebinding::AfterStop)
    ensures
        gentle(m, model::stop_step(m, kind, next), kind),
{
}

/// The inputs that the supervisor hands on, other than reports of stopped or failed
/// workers.
spec fn ordinary(input: InputModel) -> bool {
    match input {
        InputModel::Observation(obs) => match obs {
            ObservationModel::WorkerStopped { .. } => false,
            ObservationModel::WorkerFailed { .. } => false,
            ObservationModel::WorkerStarted { .. } => false,
            ObservationModel::ProcessRestarted { .. } => false,
            _ => true,
        },
        _ => true,
    }
}

proof fn lemma_three_go_on(sofar: Step, a: Step, b: Step, c: Step)
    requires
        one_each(sofar),
        gentle(sofar.state, a, BindingKind::Microphone),
        gentle(a.state, b, BindingKind::EndpointLoopback),
        gentle(b.state, c, BindingKind::ProcessLoopback),
    ensures
        one_each(
            Step { state: c.state, effects: sofar.effects + model::joined(a, b, c).effects },
        ),
{
    let first = Step { state: a.state, effects: sofar.effects + a.effects };
    let second = Step { state: b.state, effects: first.effects + b.effects };
    lemma_one_each_goes_on(sofar, a, BindingKind::Microphone);
    lemma_one_each_goes_on(first, b, BindingKind::EndpointLoopback);
    lemma_one_each_goes_on(second, c, BindingKind::ProcessLoopback);
    assert(second.effects + c.effects =~= sofar.effects + model::joined(a, b, c).effects);
}

proof fn lemma_decision_goes_on(sofar: Step, input: InputModel)
    requires
        one_each(sofar),
        ordinary(input),
    ensures
        ({
            let step = model::decide_step(sofar.state, input);
            one_each(Step { state: step.state, effects: sofar.effects + step.effects })
        }),
{
    let m = sofar.state;
    let mic = BindingKind::Microphone;
    let ep = BindingKind::EndpointLoopback;
    let process = BindingKind::ProcessLoopback;
    match input {
        InputModel::ShutdownRequested => {
            let closing = DecisionModel { shutdown: true, ..m };
            let next = rebinding::AfterStop::RemainStopped;
            let a = model::shutdown_one(closing, mic);
            let b = model::shutdown_one(a.state, ep);
            let c = model::shutdown_one(b.state, process);
            lemma_stop_is_gentle(closing, mic, next);
            lemma_stop_is_gentle(a.state, ep, next);
            lemma_stop_is_gentle(b.state, process, next);
            lemma_three_go_on(Step { state: closing, ..sofar }, a, b, c);
        },
        InputModel::Start { binding } => {
            lemma_start_is_gentle(m, binding);
            lemma_one_each_goes_on(sofar, model::decide_step(m, input), binding);
        },
        InputModel::Stop { binding } => {
            lemma_stop_is_gentle(m, binding, rebinding::AfterStop::RemainStopped);
            lemma_one_each_goes_on(sofar, model::decide_step(m, input), binding);
        },
        InputModel::RetryTimerFired { binding, .. } => {
            lemma_start_is_gentle(m, binding);
            lemma_one_each_goes_on(sofar, model::decide_step(m, input), binding);
        },
        InputModel::Observation(obs) => {
            lemma_observation_goes_on(sofar, obs);
        },
    }
}

proof fn lemma_observation_goes_on(sofar: Step, obs: ObservationModel)
    requires
        one_each(sofar),
        ordinary(InputModel::Observation(obs)),
    ensures
        ({
            let step = model::observe_step(sofar.state, obs);
            one_each(Step { state: step.state, effects: sofar.effects + step.effects })
        }),
{
    let m = sofar.state;
    let mic = BindingKind::Microphone;
    let ep = BindingKind::EndpointLoopback;
    let process = BindingKind::ProcessLoopback;
    match obs {
        ObservationModel::DefaultEndpointChanged { flow, role, endpoint_id } => {
            let routed = DecisionModel { routes: m.routes.insert((flow, role), endpoint_id), ..m };
            let next = rebinding::AfterStop::ResolveAndStart;
            let a = model::reroute_one(routed, mic, flow, role);
            let b = model::reroute_one(a.state, ep, flow, role);
            let c = model::reroute_one(b.state, process, flow, role);
            lemma_stop_is_gentle(routed, mic, next);
            lemma_stop_is_gentle(a.state, ep, next);
            lemma_stop_is_gentle(b.state, process, next);
            lemma_three_go_on(Step { state: routed, ..sofar }, a, b, c);
        },
        ObservationModel::EndpointRemoved { endpoint_id } => {
            let next = rebinding::AfterStop::WaitForRecovery {
                reason: rebinding::WaitReason::DeviceUnavailable,
            };
            let a = model::remove_one(m, mic, endpoint_id);
            let b = model::remove_one(a.state, ep, endpoint_id);
            let c = model::remove_one(b.state, process, endpoint_id);
            lemma_stop_is_gentle(m, mic, next);
            lemma_stop_is_gentle(a.state, ep, next);
            lemma_three_go_on(sofar, a, b, c);
        },
        ObservationModel::EndpointAdded { endpoint_id } => {
            let a = model::add_one(m, mic, endpoint_id);
            let b = model::add_one(a.state, ep, endpoint_id);
            let c = model::add_one(b.state, process, endpoint_id);
            lemma_start_is_gentle(m, mic);
            lemma_start_is_gentle(a.state, ep);
            lemma_start_is_gentle(b.state, process);
            lemma_three_go_on(sofar, a, b, c);
        },
        ObservationModel::ProcessExited { pid } => {
            let next = rebinding::AfterStop::WaitForRecovery {
                reason: rebinding::WaitReason::ProcessNotFound,
            };
            lemma_stop_is_gentle(m, process, next);
            lemma_one_each_goes_on(sofar, model::observe_step(m, obs), process);
        },
        _ => {},
    }
}

proof fn lemma_batch_in_step(
    m: DecisionModel,
    workers: Map<BindingKind, WorkerModel>,
    inputs: Seq<InputModel>,
)
    requires
        workers::in_step(m, workers),
        forall|i: int| 0 <= i < inputs.len() ==> ordinary(#[trigger] inputs[i]),
    ensures
        one_each(decide_all(m, inputs)),
        workers::in_step(
            decide_all(m, inputs).state,
            workers::workers_after(workers, decide_all(m, inputs).effects),
        ),
    decreases inputs.len(),
{
    if inputs.len() > 0 {
        let earlier = inputs.drop_last();
        assert forall|i: int| 0 <= i < earlier.len() implies ordinary(#[trigger] earlier[i]) by {
            assert(earlier[i] == inputs[i]);
        }
        assert(inputs.last() == inputs[inputs.len() - 1]);
        lemma_batch_in_step(m, workers, earlier);
        let before = decide_all(m, earlier);
        let listed = workers::workers_after(workers, before.effects);
        lemma_decision_goes_on(before, inputs.last());
        workers::lemma_decision_in_step(before.state, listed, inputs.last());
        workers::lemma_workers_after_both(
            workers,
            before.effects,
            model::decide_step(before.state, inputs.last()).effects,
        );
    } else {
        assert(workers::workers_after(workers, Seq::<EffectModel>::empty()) == workers);
    }
}

/// A start of a binding that a list of effects is not about can as well come after them.
proof fn lemma_start_commutes(
    workers: Map<BindingKind, WorkerModel>,
    kind: BindingKind,
    worker: WorkerModel,
    effects: Seq<EffectModel>,
)
    requires
        forall|i: int| 0 <= i < effects.len() ==> binding_of(#[trigger] effects[i]) != kind,
    ensures
        workers::workers_after(workers.insert(kind, worker), effects) == workers::workers_after(
            workers,
            effects,
        ).insert(kind, worker),
    decreases effects.len(),
{
    if effects.len() > 0 {
        let earlier = effects.drop_last();
        assert forall|i: int| 0 <= i < earlier.len() implies binding_of(#[trigger] earlier[i])
            != kind by {
            assert(earlier[i] == effects[i]);
        }
        lemma_start_commutes(workers, kind, worker, earlier);
        assert(effects.last() == effects[effects.len() - 1]);
        assert(workers::workers_after(workers.insert(kind, worker), effects)
            =~= workers::workers_after(workers, effects).insert(kind, worker));
    }
}

/// Carrying out effects one by one, of which `k` have been carried out.
proof fn lemma_each_in_step(m: MacosModel, effects: Seq<EffectModel>, k: nat)
    requires
        workers::in_step(m.state, workers::workers_after(m.workers, effects)),
        forall|i: int, j: int|
            0 <= i < j < effects.len() ==> binding_of(#[trigger] effects[i]) != binding_of(
                #[trigger] effects[j],
            ),
        k <= effects.len(),
    ensures
        ({
            let done = perform_each(m, effects.take(k as int)).supervisor;
            workers::in_step(
                done.state,
                workers::workers_after(done.workers, effects.skip(k as int)),
            )
        }),
    decreases k,
{
    if k == 0 {
        assert(effects.take(0) =~= Seq::empty());
        assert(effects.skip(0) =~= effects);
    } else {
        let i = k - 1;
        lemma_each_in_step(m, effects, i as nat);
        let effect = effects[i];
        let rest = effects.skip(k as int);
        assert(effects.take(k as int).drop_last() =~= effects.take(i));
        assert(effects.take(k as int).last() == effect);
        assert(effects.skip(i) =~= seq![effect] + rest);
        let p = perform_each(m, effects.take(i)).supervisor;
        let left = workers::workers_after_one(p.workers, effect);
        workers::lemma_workers_after_both(p.workers, seq![effect], rest);
        workers::lemma_one_effect(p.workers, effect);
        assert(workers::in_step(p.state, workers::workers_after(left, rest)));
        match effect {
            EffectModel::StopCapture { binding, operation_id, epoch, .. } => {
                let input = InputModel::Observation(
                    ObservationModel::WorkerStopped { binding, operation_id, epoch },
                );
                let step = model::decide_step(p.state, input);
                let listed = workers::workers_after(left, rest);
                lemma_stop_resumes_with_a_start(p.state, binding, operation_id, epoch);
                workers::lemma_decision_in_step(p.state, listed, input);
                if step.effects.len() == 1 {
                    assert(step.effects =~= seq![step.effects[0]]);
                    workers::lemma_one_effect(listed, step.effects[0]);
                    assert forall|j: int| 0 <= j < rest.len() implies binding_of(
                        #[trigger] rest[j],
                    ) != binding by {
                        assert(rest[j] == effects[k + j]);
                    }
                    let started = step.effects[0];
                    assert(started->StartCapture_binding == binding);
                    lemma_start_commutes(
                        left,
                        binding,
                        WorkerModel {
                            operation_id: started->StartCapture_operation_id,
                            epoch: started->StartCapture_proposed_epoch,
                            target: started->StartCapture_target,
                        },
                        rest,
                    );
                } else {
                    assert(workers::workers_after(listed, Seq::<EffectModel>::empty()) == listed);
                    assert(step.effects =~= Seq::empty());
                }
            },
            _ => {},
        }
    }
}

/// Whether the shared stream serves exactly the bindings that have a worker.
pub open spec fn aligned(m: MacosModel) -> bool {
    m.workers.dom() == m.served()
}

proof fn lemma_reconciled(m: MacosModel)
    ensures
        aligned(reconcile(m).supervisor),
        reconcile(m).supervisor.state == m.state,
        reconcile(m).supervisor.workers == m.workers,
{
    assert(operations(m.workers).dom() =~= m.workers.dom());
}

/// Where nothing is started or stopped, nothing but the decision state has changed.
proof fn lemma_unchanged_bindings(m: MacosModel, effects: Seq<EffectModel>)
    requires
        !changes_bindings(effects),
    ensures
        perform_each(m, effects).supervisor == m,
        forall|i: int|
            0 <= i < perform_each(m, effects).commands.len() ==> #[trigger] perform_each(
                m,
                effects,
            ).commands[i] is ScheduleRetry,
    decreases effects.len(),
{
    if effects.len() > 0 {
        lemma_change_so_far(effects);
        lemma_unchanged_bindings(m, effects.drop_last());
    }
}

proof fn lemma_batch_keeps_step(m: MacosModel, step: Step)
    requires
        one_each(step),
        workers::in_step(step.state, workers::workers_after(m.workers, step.effects)),
    ensures
        ({
            let after = perform(MacosModel { state: step.state, ..m }, step.effects).supervisor;
            &&& workers::in_step(after.state, after.workers)
            &&& aligned(m) ==> aligned(after)
        }),
{
    let decided = MacosModel { state: step.state, ..m };
    let n = step.effects.len();
    lemma_each_in_step(decided, step.effects, n);
    assert(step.effects.take(n as int) =~= step.effects);
    assert(step.effects.skip(n as int) =~= Seq::empty());
    let each = perform_each(decided, step.effects).supervisor;
    assert(workers::workers_after(each.workers, Seq::<EffectModel>::empty()) == each.workers);
    lemma_reconciled(each);
    if !changes_bindings(step.effects) {
        lemma_unchanged_bindings(decided, step.effects);
    }
}

/// The supervisor lists exactly the workers of the bindings that are starting or
/// running, and the shared stream serves exactly those, after every batch of starts, of
/// lost and new devices, after every device change, every retry and a shutdown.
pub proof fn law_stream_follows_bindings(
    m: MacosModel,
    event: DeviceWatchEvent,
    delta: DeviceDelta,
    binding: BindingKind,
    retry_id: u64,
)
    requires
        workers::in_step(m.state, m.workers),
        aligned(m),
    ensures
        ({
            let after = react_all(m, start_inputs()).supervisor;
            workers::in_step(after.state, after.workers) && aligned(after)
        }),
        ({
            let after = react_all(m, delta_inputs(delta)).supervisor;
            workers::in_step(after.state, after.workers) && aligned(after)
        }),
        ({
            let after = noticed(m, event).supervisor;
            workers::in_step(after.state, after.workers) && aligned(after)
        }),
        ({
            let after = announce(m, binding).supervisor;
            workers::in_step(after.state, after.workers) && aligned(after)
        }),
        ({
            let after = react(m, InputModel::RetryTimerFired { binding, retry_id }).supervisor;
            workers::in_step(after.state, after.workers) && aligned(after)
        }),
        ({
            let after = react(m, InputModel::ShutdownRequested).supervisor;
            workers::in_step(after.state, after.workers) && aligned(after)
        }),
{
    lemma_batch_in_step(m.state, m.workers, start_inputs());
    lemma_batch_keeps_step(m, decide_all(m.state, start_inputs()));
    lemma_batch_in_step(m.state, m.workers, delta_inputs(delta));
    lemma_batch_keeps_step(m, decide_all(m.state, delta_inputs(delta)));
    if meaning(event) is Some {
        lemma_reaction(m, InputModel::Observation(meaning(event)->0));
    }
    if m.workers.contains_key(binding) {
        let worker = m.workers[binding];
        let input = InputModel::Observation(
            ObservationModel::WorkerStarted {
                binding,
                operation_id: worker.operation_id,
                epoch: worker.epoch,
                target: worker.target,
            },
        );
        workers::lemma_decision_in_step(m.state, m.workers, input);
        lemma_batch_keeps_step(m, model::decide_step(m.state, input));
    }
    lemma_reaction(m, InputModel::RetryTimerFired { binding, retry_id });
    lemma_reaction(m, InputModel::ShutdownRequested);
}

proof fn lemma_reaction(m: MacosModel, input: InputModel)
    requires
        workers::in_step(m.state, m.workers),
        ordinary(input),
    ensures
        ({
            let after = react(m, input).supervisor;
            &&& workers::in_step(after.state, after.workers)
            &&& aligned(m) ==> aligned(after)
        }),
{
    let step = model::decide_step(m.state, input);
    lemma_decision_goes_on(m.state.quiet(), input);
    assert(m.state.quiet().effects + step.effects =~= step.effects);
    workers::lemma_decision_in_step(m.state, m.workers, input);
    lemma_batch_keeps_step(m, step);
}

/// A recording starts with one stream for both tracks: it is built once, with the pinned
/// microphone and an epoch of its own for each track, and nothing is torn down.
pub proof fn law_both_tracks_start_on_one_stream(
    m: MacosModel,
    microphone: Seq<char>,
    render: Seq<char>,
)
    requires
        !m.state.shutdown,
        m.workers == Map::<BindingKind, WorkerModel>::empty(),
        m.active is None,
    ensures
        ({
            let pinned = MacosModel {
                state: windows::pinned(m.state, microphone, render),
                ..m
            };
            let started = react_all(pinned, start_inputs());
            &&& started.commands == seq![
                CommandModel::Build(
                    PlanModel {
                        outputs: StreamOutputs { microphone: true, system_audio: true },
                        system_audio_binding: BindingKind::EndpointLoopback,
                        microphone_epoch: Some(m.state.next_stream_epoch as u64),
                        system_audio_epoch: Some((m.state.next_stream_epoch + 1) as u64),
                        microphone_device_id: Some(microphone),
                    },
                ),
            ]
            &&& started.supervisor.served() == set![
                BindingKind::Microphone,
                BindingKind::EndpointLoopback,
            ]
            &&& started.supervisor.pending_joins == m.pending_joins
        }),
{
    let pinned = MacosModel { state: windows::pinned(m.state, microphone, render), ..m };
    let inputs = start_inputs();
    let mic = BindingKind::Microphone;
    let system = BindingKind::EndpointLoopback;
    let first = model::decide_step(pinned.state, inputs[0]);
    let second = model::decide_step(first.state, inputs[1]);
    assert(first.state.bindings[system] == windows::pinned_binding(render));
    assert(inputs.drop_last() =~= seq![inputs[0]]);
    assert(seq![inputs[0]].drop_last() =~= Seq::<InputModel>::empty());
    assert(decide_all(pinned.state, Seq::<InputModel>::empty()) == pinned.state.quiet());
    let one = decide_all(pinned.state, seq![inputs[0]]);
    assert(pinned.state.quiet().effects + first.effects =~= first.effects);
    assert(one.state == first.state && one.effects == first.effects);
    let step = decide_all(pinned.state, inputs);
    let effects = step.effects;
    assert(effects == first.effects + second.effects);
    assert(effects.len() == 2);
    let decided = MacosModel { state: step.state, ..pinned };
    assert(effects.drop_last() =~= seq![effects[0]]);
    assert(seq![effects[0]].drop_last() =~= Seq::<EffectModel>::empty());
    assert(perform_each(decided, Seq::<EffectModel>::empty()) == decided.quiet());
    let begun = perform_each(decided, seq![effects[0]]);
    let each = perform_each(decided, effects);
    assert(begun.commands =~= Seq::<CommandModel>::empty());
    assert(each.commands =~= Seq::<CommandModel>::empty());
    assert(!(effects[0] is ScheduleRetry));
    assert(changes_bindings(effects));
    let workers = each.supervisor.workers;
    assert(workers.dom() =~= set![mic, system]);
    assert(workers.dom().contains(mic));
    assert(operations(workers).dom() =~= workers.dom());
    let settled = reconcile(each.supervisor);
    assert(react_all(pinned, inputs).commands =~= each.commands + settled.commands);
}

/// The loss of one track's device interrupts the other track, since the stream is torn
/// down and built anew, but it does not rebind it: the other track goes on under the same
/// operation and epoch, and the new stream is stamped with that epoch.
pub proof fn law_the_other_track_is_not_rebound(
    m: MacosModel,
    lost: BindingKind,
    other: BindingKind,
    endpoint_id: Seq<char>,
)
    requires
        workers::in_step(m.state, m.workers),
        aligned(m),
        lost == BindingKind::Microphone && other == BindingKind::EndpointLoopback || lost
            == BindingKind::EndpointLoopback && other == BindingKind::Microphone,
        m.state.bindings.contains_key(lost),
        m.state.lifecycle(lost) matches model::LifecycleModel::Running { target, .. } && target
            == TargetModel::Endpoint(endpoint_id),
        m.workers.contains_key(other),
        m.workers[other].target != TargetModel::Endpoint(endpoint_id),
    ensures
        ({
            let after = react(
                m,
                InputModel::Observation(ObservationModel::EndpointRemoved { endpoint_id }),
            );
            &&& after.supervisor.workers == m.workers.remove(lost)
            &&& after.supervisor.state.bindings[other] == m.state.bindings[other]
            &&& after.commands == seq![
                CommandModel::TearDown,
                CommandModel::Build(plan_for(m.workers.remove(lost))),
            ]
        }),
{
    let input = InputModel::Observation(ObservationModel::EndpointRemoved { endpoint_id });
    assert(workers::listed_worker(m.workers, lost) == workers::live_worker(m.state, lost));
    assert(workers::listed_worker(m.workers, other) == workers::live_worker(m.state, other));
    let step = model::decide_step(m.state, input);
    let stop = model::stop_step(
        m.state,
        lost,
        rebinding::AfterStop::WaitForRecovery { reason: rebinding::WaitReason::DeviceUnavailable },
    );
    assert(step.effects =~= stop.effects);
    assert(step.state == stop.state);
    let effects = step.effects;
    assert(effects.len() == 1);
    let decided = MacosModel { state: step.state, ..m };
    assert(effects.drop_last() =~= Seq::<EffectModel>::empty());
    assert(perform_each(decided, Seq::<EffectModel>::empty()) == decided.quiet());
    let each = perform_each(decided, effects);
    assert(each.commands =~= Seq::<CommandModel>::empty());
    assert(each.supervisor.workers == m.workers.remove(lost));
    assert(!(effects[0] is ScheduleRetry));
    assert(changes_bindings(effects));
    assert(m.served().contains(lost));
    assert(!m.workers.remove(lost).dom().contains(lost));
    assert(m.workers.remove(lost).dom().contains(other));
    assert(react(m, input).commands =~= seq![
        CommandModel::TearDown,
        CommandModel::Build(plan_for(m.workers.remove(lost))),
    ]);
}

/// The death of the shared stream is reported once for each binding that it served.
/// Every report takes its binding's worker off the list, and until the last of them the
/// stream is neither torn down nor built: a dead stream is replaced once. After the last
/// report, the stream again serves exactly the bindings that have a worker.
pub proof fn law_dead_stream_is_replaced_once(
    m: MacosModel,
    binding: BindingKind,
    error: Seq<char>,
)
    requires
        workers::in_step(m.state, m.workers),
        m.workers.contains_key(binding),
    ensures
        ({
            let after = fail(m, binding, error);
            &&& workers::in_step(after.supervisor.state, after.supervisor.workers)
            &&& after.supervisor.workers == m.workers.remove(binding)
            &&& awaits_siblings(MacosModel { workers: m.workers.remove(binding), ..m }) ==> {
                &&& after.supervisor.active == m.active
                &&& forall|i: int|
                    0 <= i < after.commands.len() ==> #[trigger] after.commands[i] is ScheduleRetry
            }
            &&& !awaits_siblings(MacosModel { workers: m.workers.remove(binding), ..m })
                ==> aligned(after.supervisor)
        }),
{
    let step = model::decide_step(
        m.state,
        InputModel::Observation(
            ObservationModel::WorkerFailed {
                binding,
                operation_id: m.workers[binding].operation_id,
                error,
            },
        ),
    );
    let left = MacosModel { workers: m.workers.remove(binding), ..m };
    let decided = MacosModel { state: step.state, ..left };
    workers::lemma_failure_in_step(m.state, m.workers, binding, error);
    assert(!changes_bindings(step.effects));
    lemma_unchanged_bindings(decided, step.effects);
    lemma_awaits(left);
    lemma_awaits(decided);
    lemma_reconciled(decided);
}

/// A stream is built with each binding's own epoch, so that once a binding runs, the
/// frames of its output are accepted.
pub proof fn law_frames_of_running_bindings_are_accepted(m: MacosModel)
    requires
        workers::in_step(m.state, m.workers),
    ensures
        ({
            let mic = BindingKind::Microphone;
            let plan = plan_for(m.workers);
            &&& m.state.bindings.contains_key(mic) && m.state.lifecycle(mic) is Running ==> {
                &&& plan.outputs.microphone
                &&& plan.microphone_epoch matches Some(epoch) && m.state.accepts_epoch(
                    mic,
                    StreamEpoch(epoch),
                )
            }
            &&& ({
                let system = plan.system_audio_binding;
                m.state.bindings.contains_key(system) && m.state.lifecycle(system) is Running ==> {
                    &&& plan.outputs.system_audio
                    &&& plan.system_audio_epoch matches Some(epoch) && m.state.accepts_epoch(
                        system,
                        StreamEpoch(epoch),
                    )
                }
            })
        }),
{
    let system = plan_for(m.workers).system_audio_binding;
    assert(workers::listed_worker(m.workers, BindingKind::Microphone) == workers::live_worker(
        m.state,
        BindingKind::Microphone,
    ));
    assert(workers::listed_worker(m.workers, system) == workers::live_worker(m.state, system));
}

/// A stream is planned with an output for every worker, under that worker's epoch, and
/// with the microphone that its worker is on. The system audio is for a process where one
/// is captured, and otherwise for the endpoint.
pub proof fn law_a_plan_serves_every_worker(workers: Map<BindingKind, WorkerModel>)
    ensures
        ({
            let mic = BindingKind::Microphone;
            let endpoint = BindingKind::EndpointLoopback;
            let process = BindingKind::ProcessLoopback;
            let plan = plan_for(workers);
            &&& plan.outputs.microphone <==> workers.contains_key(mic)
            &&& plan.outputs.system_audio <==> workers.contains_key(endpoint)
                || workers.contains_key(process)
            &&& plan.system_audio_binding == process <==> workers.contains_key(process)
            &&& plan.system_audio_binding == endpoint <==> !workers.contains_key(process)
            &&& plan.microphone_epoch is Some <==> plan.outputs.microphone
            &&& plan.system_audio_epoch is Some <==> plan.outputs.system_audio
            &&& plan.microphone_epoch matches Some(epoch) ==> epoch == workers[mic].epoch.0
            &&& plan.system_audio_epoch matches Some(epoch) ==> epoch
                == workers[plan.system_audio_binding].epoch.0
            &&& plan.microphone_device_id matches Some(id) ==> workers.contains_key(mic)
                && workers[mic].target == TargetModel::Endpoint(id)
            &&& workers.contains_key(mic) && workers[mic].target is Endpoint
                ==> plan.microphone_device_id is Some
        }),
{
}

/// A stream that serves what it should is left alone. Any other is torn down if there is
/// one, before another is built, and another is built if there is anything to serve.
pub proof fn law_a_stream_is_replaced_when_it_has_to_be(m: MacosModel)
    ensures
        ({
            let done = reconcile(m);
            let after = done.supervisor;
            let built = after.active is Some && !aligned(m);
            &&& aligned(m) ==> after == m && done.commands.len() == 0
            &&& !aligned(m) ==> {
                &&& aligned(after)
                &&& built <==> exists|kind: BindingKind| #[trigger] m.workers.contains_key(kind)
                &&& m.active is Some ==> done.commands.len() >= 1 && done.commands[0] is TearDown
                    && after.pending_joins == m.pending_joins + 1
                &&& m.active is None ==> after.pending_joins == m.pending_joins
                &&& built ==> done.commands.len() > 0 && done.commands.last()
                    == CommandModel::Build(plan_for(m.workers))
                &&& done.commands.len() == (if m.active is Some {
                    1int
                } else {
                    0
                }) + (if built {
                    1int
                } else {
                    0
                })
                &&& built ==> forall|kind: BindingKind| #[trigger]
                    m.workers.contains_key(kind) ==> after.active->0.contains_key(kind)
                        && after.active->0[kind] == m.workers[kind].operation_id
            }
        }),
{
    lemma_reconciled(m);
    if !aligned(m) {
        if m.workers.dom() == Set::<BindingKind>::empty() {
            assert forall|kind: BindingKind| !(#[trigger] m.workers.contains_key(kind)) by {
                assert(!m.workers.dom().contains(kind));
            }
        } else {
            assert(exists|kind: BindingKind| #[trigger] m.workers.contains_key(kind)) by {
                if forall|kind: BindingKind| !(#[trigger] m.workers.contains_key(kind)) {
                    assert(m.workers.dom() =~= Set::<BindingKind>::empty());
                }
            }
        }
    }
}

/// The end of a dead stream waits for the reports of the bindings that it served and for
/// no others: while another of them still has the worker it had when the stream was
/// built, nothing is torn down or built, and a worker that was started since is not waited
/// for.
pub proof fn law_a_worker_started_since_is_not_waited_for(
    m: MacosModel,
    binding: BindingKind,
    sibling: BindingKind,
    error: Seq<char>,
)
    requires
        workers::in_step(m.state, m.workers),
        m.workers.contains_key(binding),
        m.active is Some,
    ensures
        ({
            let done = fail(m, binding, error);
            let held = m.active->0;
            &&& sibling != binding && held.contains_key(sibling) && m.workers.contains_key(sibling)
                && m.workers[sibling].operation_id == held[sibling] ==> {
                &&& done.supervisor.active == m.active
                &&& done.supervisor.pending_joins == m.pending_joins
                &&& forall|i: int|
                    0 <= i < done.commands.len() ==> #[trigger] done.commands[i] is ScheduleRetry
            }
            &&& (forall|kind: BindingKind|
                kind != binding && held.contains_key(kind) && #[trigger] m.workers.contains_key(
                    kind,
                ) ==> m.workers[kind].operation_id != held[kind]) ==> aligned(done.supervisor)
        }),
{
    let left = MacosModel { workers: m.workers.remove(binding), ..m };
    let held = m.active->0;
    if sibling != binding && held.contains_key(sibling) && m.workers.contains_key(sibling)
        && m.workers[sibling].operation_id == held[sibling] {
        assert(is_live(left, sibling));
        let step = model::decide_step(
            m.state,
            InputModel::Observation(
                ObservationModel::WorkerFailed {
                    binding,
                    operation_id: m.workers[binding].operation_id,
                    error,
                },
            ),
        );
        let decided = MacosModel { state: step.state, ..left };
        workers::lemma_failure_in_step(m.state, m.workers, binding, error);
        assert(!changes_bindings(step.effects));
        lemma_unchanged_bindings(decided, step.effects);
        assert(is_live(decided, sibling));
    }
    if forall|kind: BindingKind|
        kind != binding && held.contains_key(kind) && #[trigger] m.workers.contains_key(kind)
            ==> m.workers[kind].operation_id != held[kind] {
        assert forall|kind: BindingKind| !(#[trigger] is_live(left, kind)) by {
            if is_live(left, kind) {
                assert(m.workers.contains_key(kind));
            }
        }
    }
    law_dead_stream_is_replaced_once(m, binding, error);
}

/// Every device that went is reported as lost and every device that came as new, the
/// losses first, so that a device that went and came back is started again.
pub proof fn law_losses_are_reported_before_gains(delta: DeviceDelta, i: int)
    requires
        0 <= i < delta.removed@.len() + delta.added@.len(),
    ensures
        delta_inputs(delta).len() == delta.removed@.len() + delta.added@.len(),
        i < delta.removed@.len() ==> delta_inputs(delta)[i] == InputModel::Observation(
            ObservationModel::EndpointRemoved { endpoint_id: delta.removed@[i]@ },
        ),
        i >= delta.removed@.len() ==> delta_inputs(delta)[i] == InputModel::Observation(
            ObservationModel::EndpointAdded {
                endpoint_id: delta.added@[i - delta.removed@.len()]@,
            },
        ),
{
}

/// An event is told as what it is: a new default of its direction, a device that came or
/// went, a program that ended. One that names no device says nothing, and neither does a
/// changed list by itself, nor a program that was launched.
pub proof fn law_events_mean_what_they_say(event: DeviceWatchEvent)
    ensures
        event matches DeviceWatchEvent::DefaultInputDeviceChanged { device_uid: Some(id) }
            ==> meaning(event) == Some(
            ObservationModel::DefaultEndpointChanged {
                flow: DataFlow::Capture,
                role: DeviceRole::Console,
                endpoint_id: Some(id@),
            },
        ),
        event matches DeviceWatchEvent::DefaultOutputDeviceChanged { device_uid: Some(id) }
            ==> meaning(event) == Some(
            ObservationModel::DefaultEndpointChanged {
                flow: DataFlow::Render,
                role: DeviceRole::Console,
                endpoint_id: Some(id@),
            },
        ),
        event matches DeviceWatchEvent::DeviceAdded { device_uid } ==> if device_uid@.len() == 0 {
            meaning(event) is None
        } else {
            meaning(event) == Some(
                ObservationModel::EndpointAdded { endpoint_id: device_uid@ },
            )
        },
        event matches DeviceWatchEvent::DeviceRemoved { device_uid } ==> if device_uid@.len()
            == 0 {
            meaning(event) is None
        } else {
            meaning(event) == Some(
                ObservationModel::EndpointRemoved { endpoint_id: device_uid@ },
            )
        },
        event matches DeviceWatchEvent::ApplicationTerminated { pid, .. } ==> meaning(event)
            == Some(ObservationModel::ProcessExited { pid }),
        event is DeviceListChanged || event is ApplicationLaunched ==> meaning(event) is None,
        event matches DeviceWatchEvent::DefaultInputDeviceChanged { device_uid: None }
            ==> meaning(event) is None,
        event matches DeviceWatchEvent::DefaultOutputDeviceChanged { device_uid: None }
            ==> meaning(event) is None,
{
}

/// A batch is decided in order, and one input in a batch of its own is decided as by
/// itself.
pub proof fn law_a_batch_is_decided_in_order(
    m: DecisionModel,
    first: Seq<InputModel>,
    second: Seq<InputModel>,
    input: InputModel,
)
    ensures
        ({
            let begun = decide_all(m, first);
            let done = decide_all(begun.state, second);
            let all = decide_all(m, first + second);
            &&& all.state == done.state
            &&& all.effects == begun.effects + done.effects
        }),
        decide_all(m, seq![input]).state == model::decide_step(m, input).state,
        decide_all(m, seq![input]).effects == model::decide_step(m, input).effects,
    decreases second.len(),
{
    let one = seq![input];
    assert(one.drop_last() =~= Seq::<InputModel>::empty());
    assert(decide_all(m, Seq::<InputModel>::empty()) == m.quiet());
    assert(m.quiet().effects + model::decide_step(m, input).effects =~= model::decide_step(
        m,
        input,
    ).effects);
    let begun = decide_all(m, first);
    if second.len() == 0 {
        assert(first + second =~= first);
        assert(begun.effects + Seq::<EffectModel>::empty() =~= begun.effects);
    } else {
        law_a_batch_is_decided_in_order(m, first, second.drop_last(), input);
        assert((first + second).drop_last() =~= first + second.drop_last());
        assert((first + second).last() == second.last());
        let between = decide_all(begun.state, second.drop_last());
        let last = model::decide_step(between.state, second.last());
        assert((begun.effects + between.effects) + last.effects =~= begun.effects + (
        between.effects + last.effects));
    }
}

/// A retry is scheduled after the delay for its attempt, and nothing else comes of it.
pub proof fn law_a_retry_is_scheduled_after_its_delay(m: MacosModel, effect: EffectModel)
    requires
        effect is ScheduleRetry,
    ensures
        ({
            let done = perform(m, seq![effect]);
            &&& done.supervisor == m
            &&& effect matches EffectModel::ScheduleRetry { binding, retry_id, attempt, .. }
                && done.commands == seq![
                CommandModel::ScheduleRetry {
                    binding,
                    retry_id,
                    delay_ms: super::backoff_ms(attempt) as u64,
                },
            ]
        }),
{
    let one = seq![effect];
    assert(one.drop_last() =~= Seq::<EffectModel>::empty());
    assert(perform_each(m, Seq::<EffectModel>::empty()) == m.quiet());
    let last = perform_one(m, effect);
    assert(m.quiet().commands + last.commands =~= last.commands);
    assert(!changes_bindings(one));
}

} // verus!
