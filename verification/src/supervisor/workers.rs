//! Which worker serves which binding.

use crate::rebinding::model::{
    self, DecisionModel, EffectModel, InputModel, LifecycleModel, ObservationModel, Step,
    TargetModel,
};
use crate::rebinding::{
    AfterStop, BindingKind, DataFlow, DeviceRole, OperationId, ResolvedTarget, StreamEpoch,
    WaitReason,
};
use vstd::prelude::*;

verus! {

/// At most one value for each kind of binding.
#[derive(Debug)]
pub struct KindTable<T> {
    microphone: Option<T>,
    endpoint_loopback: Option<T>,
    process_loopback: Option<T>,
}

impl<T> View for KindTable<T> {
    type V = Map<BindingKind, T>;

    closed spec fn view(&self) -> Map<BindingKind, T> {
        Map::new(|kind: BindingKind| self.slot(kind) is Some, |kind: BindingKind| self.slot(kind)->0)
    }
}

impl<T> KindTable<T> {
    spec fn slot(&self, kind: BindingKind) -> Option<T> {
        match kind {
            BindingKind::Microphone => self.microphone,
            BindingKind::EndpointLoopback => self.endpoint_loopback,
            BindingKind::ProcessLoopback => self.process_loopback,
        }
    }

    pub fn new() -> (table: Self)
        ensures
            table@ == Map::<BindingKind, T>::empty(),
    {
        let table = KindTable { microphone: None, endpoint_loopback: None, process_loopback: None };
        assert(table@ =~= Map::<BindingKind, T>::empty());
        table
    }

    pub fn get(&self, kind: BindingKind) -> (value: Option<&T>)
        ensures
            match value {
                Some(value) => self@.contains_key(kind) && self@[kind] == *value,
                None => !self@.contains_key(kind),
            },
    {
        match kind {
            BindingKind::Microphone => self.microphone.as_ref(),
            BindingKind::EndpointLoopback => self.endpoint_loopback.as_ref(),
            BindingKind::ProcessLoopback => self.process_loopback.as_ref(),
        }
    }

    pub fn insert(&mut self, kind: BindingKind, value: T)
        ensures
            final(self)@ == old(self)@.insert(kind, value),
    {
        match kind {
            BindingKind::Microphone => {
                self.microphone = Some(value);
            },
            BindingKind::EndpointLoopback => {
                self.endpoint_loopback = Some(value);
            },
            BindingKind::ProcessLoopback => {
                self.process_loopback = Some(value);
            },
        }
        assert(self@ =~= old(self)@.insert(kind, value));
    }

    pub fn remove(&mut self, kind: BindingKind) -> (value: Option<T>)
        ensures
            final(self)@ == old(self)@.remove(kind),
            match value {
                Some(value) => old(self)@.contains_key(kind) && old(self)@[kind] == value,
                None => !old(self)@.contains_key(kind),
            },
    {
        let mut value: Option<T> = None;
        match kind {
            BindingKind::Microphone => {
                std::mem::swap(&mut value, &mut self.microphone);
            },
            BindingKind::EndpointLoopback => {
                std::mem::swap(&mut value, &mut self.endpoint_loopback);
            },
            BindingKind::ProcessLoopback => {
                std::mem::swap(&mut value, &mut self.process_loopback);
            },
        }
        assert(self@ =~= old(self)@.remove(kind));
        value
    }
}

/// A worker that is starting or running, as the supervisor knows it. Reports from the
/// worker itself do not carry these.
#[derive(Debug)]
pub struct WorkerHandle {
    pub operation_id: OperationId,
    pub epoch: StreamEpoch,
    pub target: ResolvedTarget,
}

/// A worker, by its ids and its target.
pub struct WorkerModel {
    pub operation_id: OperationId,
    pub epoch: StreamEpoch,
    pub target: TargetModel,
}

impl View for WorkerHandle {
    type V = WorkerModel;

    open spec fn view(&self) -> WorkerModel {
        WorkerModel { operation_id: self.operation_id, epoch: self.epoch, target: self.target@ }
    }
}

/// The workers of a supervisor, one at most for each binding.
#[derive(Debug)]
pub struct WorkerTable {
    table: KindTable<WorkerHandle>,
}

impl View for WorkerTable {
    type V = Map<BindingKind, WorkerModel>;

    closed spec fn view(&self) -> Map<BindingKind, WorkerModel> {
        self.table@.map_values(|worker: WorkerHandle| worker@)
    }
}

impl WorkerTable {
    pub fn new() -> (table: Self)
        ensures
            table@ == Map::<BindingKind, WorkerModel>::empty(),
    {
        let table = WorkerTable { table: KindTable::new() };
        assert(table@ =~= Map::<BindingKind, WorkerModel>::empty());
        table
    }

    pub fn get(&self, kind: BindingKind) -> (worker: Option<&WorkerHandle>)
        ensures
            match worker {
                Some(worker) => self@.contains_key(kind) && self@[kind] == worker@,
                None => !self@.contains_key(kind),
            },
    {
        self.table.get(kind)
    }

    pub fn insert(&mut self, kind: BindingKind, worker: WorkerHandle)
        ensures
            final(self)@ == old(self)@.insert(kind, worker@),
    {
        self.table.insert(kind, worker);
        assert(self@ =~= old(self)@.insert(kind, worker@));
    }

    pub fn remove(&mut self, kind: BindingKind) -> (worker: Option<WorkerHandle>)
        ensures
            final(self)@ == old(self)@.remove(kind),
            match worker {
                Some(worker) => old(self)@.contains_key(kind) && old(self)@[kind] == worker@,
                None => !old(self)@.contains_key(kind),
            },
    {
        let worker: Option<WorkerHandle> = self.table.remove(kind);
        assert(self@ =~= old(self)@.remove(kind));
        worker
    }
}

/// The worker that a binding has, according to its lifecycle.
pub open spec fn live_worker(m: DecisionModel, kind: BindingKind) -> Option<WorkerModel> {
    if m.bindings.contains_key(kind) {
        match m.lifecycle(kind) {
            LifecycleModel::Starting { operation_id, proposed_epoch, target } => Some(
                WorkerModel { operation_id, epoch: proposed_epoch, target },
            ),
            LifecycleModel::Running { operation_id, epoch, target } => Some(
                WorkerModel { operation_id, epoch, target },
            ),
            _ => None,
        }
    } else {
        None
    }
}

/// The worker that a table lists for a binding.
pub open spec fn listed_worker(
    workers: Map<BindingKind, WorkerModel>,
    kind: BindingKind,
) -> Option<WorkerModel> {
    if workers.contains_key(kind) {
        Some(workers[kind])
    } else {
        None
    }
}

/// Whether the table lists exactly the workers of the bindings that are starting or
/// running, under the ids and on the targets that these have.
pub open spec fn in_step(m: DecisionModel, workers: Map<BindingKind, WorkerModel>) -> bool {
    forall|kind: BindingKind| #[trigger] listed_worker(workers, kind) == live_worker(m, kind)
}

/// The table after an effect was carried out.
pub open spec fn workers_after_one(
    workers: Map<BindingKind, WorkerModel>,
    effect: EffectModel,
) -> Map<BindingKind, WorkerModel> {
    match effect {
        EffectModel::StartCapture { binding, operation_id, proposed_epoch, target, .. } =>
            workers.insert(binding, WorkerModel { operation_id, epoch: proposed_epoch, target }),
        EffectModel::StopCapture { binding, .. } => workers.remove(binding),
        EffectModel::ScheduleRetry { .. } => workers,
    }
}

/// The table after a list of effects was carried out.
pub open spec fn workers_after(
    workers: Map<BindingKind, WorkerModel>,
    effects: Seq<EffectModel>,
) -> Map<BindingKind, WorkerModel>
    decreases effects.len(),
{
    if effects.len() == 0 {
        workers
    } else {
        workers_after_one(workers_after(workers, effects.drop_last()), effects.last())
    }
}

pub proof fn lemma_workers_after_both(
    workers: Map<BindingKind, WorkerModel>,
    first: Seq<EffectModel>,
    second: Seq<EffectModel>,
)
    ensures
        workers_after(workers, first + second) == workers_after(
            workers_after(workers, first),
            second,
        ),
    decreases second.len(),
{
    if second.len() == 0 {
        assert(first + second =~= first);
    } else {
        assert((first + second).drop_last() =~= first + second.drop_last());
        lemma_workers_after_both(workers, first, second.drop_last());
    }
}

pub proof fn lemma_one_effect(workers: Map<BindingKind, WorkerModel>, effect: EffectModel)
    ensures
        workers_after(workers, seq![effect]) == workers_after_one(workers, effect),
{
    assert(seq![effect].drop_last() =~= Seq::empty());
    assert(workers_after(workers, Seq::<EffectModel>::empty()) == workers);
    assert(workers_after(workers, seq![effect].drop_last()) == workers);
}

proof fn lemma_start_in_step(
    m: DecisionModel,
    workers: Map<BindingKind, WorkerModel>,
    kind: BindingKind,
)
    requires
        in_step(m, workers),
    ensures
        in_step(
            model::start_step(m, kind).state,
            workers_after(workers, model::start_step(m, kind).effects),
        ),
{
    let s = model::start_step(m, kind);
    let after = workers_after(workers, s.effects);
    if s.effects.len() == 1 {
        assert(s.effects =~= seq![s.effects[0]]);
        lemma_one_effect(workers, s.effects[0]);
    } else {
        assert(after == workers);
    }
    assert forall|other: BindingKind| #[trigger]
        listed_worker(after, other) == live_worker(s.state, other) by {
        assert(listed_worker(workers, other) == live_worker(m, other));
        if other != kind {
            assert(s.state.bindings.contains_key(other) == m.bindings.contains_key(other));
        }
    }
}

proof fn lemma_stop_in_step(
    m: DecisionModel,
    workers: Map<BindingKind, WorkerModel>,
    kind: BindingKind,
    next: AfterStop,
)
    requires
        in_step(m, workers),
    ensures
        in_step(
            model::stop_step(m, kind, next).state,
            workers_after(workers, model::stop_step(m, kind, next).effects),
        ),
{
    let s = model::stop_step(m, kind, next);
    let after = workers_after(workers, s.effects);
    if s.effects.len() == 1 {
        assert(s.effects =~= seq![s.effects[0]]);
        lemma_one_effect(workers, s.effects[0]);
    } else {
        assert(after == workers);
    }
    assert forall|other: BindingKind| #[trigger]
        listed_worker(after, other) == live_worker(s.state, other) by {
        assert(listed_worker(workers, other) == live_worker(m, other));
        if other != kind {
            assert(s.state.bindings.contains_key(other) == m.bindings.contains_key(other));
        }
    }
}

proof fn lemma_joined_in_step(
    workers: Map<BindingKind, WorkerModel>,
    a: Step,
    b: Step,
    c: Step,
)
    requires
        in_step(
            c.state,
            workers_after(workers_after(workers_after(workers, a.effects), b.effects), c.effects),
        ),
    ensures
        in_step(
            model::joined(a, b, c).state,
            workers_after(workers, model::joined(a, b, c).effects),
        ),
{
    lemma_workers_after_both(workers, a.effects + b.effects, c.effects);
    lemma_workers_after_both(workers, a.effects, b.effects);
}

proof fn lemma_reroute_in_step(
    m: DecisionModel,
    workers: Map<BindingKind, WorkerModel>,
    kind: BindingKind,
    flow: DataFlow,
    role: DeviceRole,
)
    requires
        in_step(m, workers),
    ensures
        in_step(
            model::reroute_one(m, kind, flow, role).state,
            workers_after(workers, model::reroute_one(m, kind, flow, role).effects),
        ),
{
    lemma_stop_in_step(m, workers, kind, AfterStop::ResolveAndStart);
    assert(workers_after(workers, Seq::<EffectModel>::empty()) == workers);
}

proof fn lemma_remove_in_step(
    m: DecisionModel,
    workers: Map<BindingKind, WorkerModel>,
    kind: BindingKind,
    endpoint_id: Seq<char>,
)
    requires
        in_step(m, workers),
    ensures
        in_step(
            model::remove_one(m, kind, endpoint_id).state,
            workers_after(workers, model::remove_one(m, kind, endpoint_id).effects),
        ),
{
    lemma_stop_in_step(
        m,
        workers,
        kind,
        AfterStop::WaitForRecovery { reason: WaitReason::DeviceUnavailable },
    );
    assert(workers_after(workers, Seq::<EffectModel>::empty()) == workers);
}

proof fn lemma_add_in_step(
    m: DecisionModel,
    workers: Map<BindingKind, WorkerModel>,
    kind: BindingKind,
    endpoint_id: Seq<char>,
)
    requires
        in_step(m, workers),
    ensures
        in_step(
            model::add_one(m, kind, endpoint_id).state,
            workers_after(workers, model::add_one(m, kind, endpoint_id).effects),
        ),
{
    lemma_start_in_step(m, workers, kind);
    assert(workers_after(workers, Seq::<EffectModel>::empty()) == workers);
}

/// Whether an input is a worker's own report of its failure, or of a start on a target
/// that it was not sent to. Neither can be followed by looking at effects alone.
pub open spec fn is_own_report(workers: Map<BindingKind, WorkerModel>, input: InputModel) -> bool {
    match input {
        InputModel::Observation(ObservationModel::WorkerFailed { .. }) => true,
        InputModel::Observation(ObservationModel::WorkerStarted { binding, target, .. }) =>
            !workers.contains_key(binding) || workers[binding].target != target,
        _ => false,
    }
}

/// Carrying out the effects of a decision keeps the table in step with the state.
pub proof fn lemma_decision_in_step(
    m: DecisionModel,
    workers: Map<BindingKind, WorkerModel>,
    input: InputModel,
)
    requires
        in_step(m, workers),
        !is_own_report(workers, input),
    ensures
        in_step(
            model::decide_step(m, input).state,
            workers_after(workers, model::decide_step(m, input).effects),
        ),
{
    let mic = BindingKind::Microphone;
    let ep = BindingKind::EndpointLoopback;
    let process = BindingKind::ProcessLoopback;
    assert(workers_after(workers, Seq::<EffectModel>::empty()) == workers);
    match input {
        InputModel::ShutdownRequested => {
            let closing = DecisionModel { shutdown: true, ..m };
            assert(in_step(closing, workers)) by {
                assert forall|kind: BindingKind| #[trigger]
                    listed_worker(workers, kind) == live_worker(closing, kind) by {
                    assert(listed_worker(workers, kind) == live_worker(m, kind));
                }
            }
            let next = AfterStop::RemainStopped;
            let a = model::shutdown_one(closing, mic);
            let b = model::shutdown_one(a.state, ep);
            let c = model::shutdown_one(b.state, process);
            let wa = workers_after(workers, a.effects);
            let wb = workers_after(wa, b.effects);
            lemma_stop_in_step(closing, workers, mic, next);
            lemma_stop_in_step(a.state, wa, ep, next);
            lemma_stop_in_step(b.state, wb, process, next);
            lemma_joined_in_step(workers, a, b, c);
        },
        InputModel::Start { binding } => {
            lemma_start_in_step(m, workers, binding);
        },
        InputModel::Stop { binding } => {
            lemma_stop_in_step(m, workers, binding, AfterStop::RemainStopped);
        },
        InputModel::RetryTimerFired { binding, .. } => {
            lemma_start_in_step(m, workers, binding);
        },
        InputModel::Observation(obs) => {
            lemma_observation_in_step(m, workers, obs);
        },
    }
}

proof fn lemma_observation_in_step(
    m: DecisionModel,
    workers: Map<BindingKind, WorkerModel>,
    obs: ObservationModel,
)
    requires
        in_step(m, workers),
        !is_own_report(workers, InputModel::Observation(obs)),
    ensures
        in_step(
            model::observe_step(m, obs).state,
            workers_after(workers, model::observe_step(m, obs).effects),
        ),
{
    let mic = BindingKind::Microphone;
    let ep = BindingKind::EndpointLoopback;
    let process = BindingKind::ProcessLoopback;
    assert(workers_after(workers, Seq::<EffectModel>::empty()) == workers);
    match obs {
        ObservationModel::DefaultEndpointChanged { flow, role, endpoint_id } => {
            let routed = DecisionModel { routes: m.routes.insert((flow, role), endpoint_id), ..m };
            assert(in_step(routed, workers)) by {
                assert forall|kind: BindingKind| #[trigger]
                    listed_worker(workers, kind) == live_worker(routed, kind) by {
                    assert(listed_worker(workers, kind) == live_worker(m, kind));
                }
            }
            let a = model::reroute_one(routed, mic, flow, role);
            let b = model::reroute_one(a.state, ep, flow, role);
            let c = model::reroute_one(b.state, process, flow, role);
            let wa = workers_after(workers, a.effects);
            let wb = workers_after(wa, b.effects);
            lemma_reroute_in_step(routed, workers, mic, flow, role);
            lemma_reroute_in_step(a.state, wa, ep, flow, role);
            lemma_reroute_in_step(b.state, wb, process, flow, role);
            lemma_joined_in_step(workers, a, b, c);
        },
        ObservationModel::EndpointRemoved { endpoint_id } => {
            let a = model::remove_one(m, mic, endpoint_id);
            let b = model::remove_one(a.state, ep, endpoint_id);
            let c = model::remove_one(b.state, process, endpoint_id);
            let wa = workers_after(workers, a.effects);
            let wb = workers_after(wa, b.effects);
            lemma_remove_in_step(m, workers, mic, endpoint_id);
            lemma_remove_in_step(a.state, wa, ep, endpoint_id);
            lemma_remove_in_step(b.state, wb, process, endpoint_id);
            lemma_joined_in_step(workers, a, b, c);
        },
        ObservationModel::EndpointAdded { endpoint_id } => {
            let a = model::add_one(m, mic, endpoint_id);
            let b = model::add_one(a.state, ep, endpoint_id);
            let c = model::add_one(b.state, process, endpoint_id);
            let wa = workers_after(workers, a.effects);
            let wb = workers_after(wa, b.effects);
            lemma_add_in_step(m, workers, mic, endpoint_id);
            lemma_add_in_step(a.state, wa, ep, endpoint_id);
            lemma_add_in_step(b.state, wb, process, endpoint_id);
            lemma_joined_in_step(workers, a, b, c);
        },
        ObservationModel::ProcessExited { pid } => {
            lemma_stop_in_step(
                m,
                workers,
                process,
                AfterStop::WaitForRecovery { reason: WaitReason::ProcessNotFound },
            );
        },
        ObservationModel::ProcessRestarted { old_pid, new_pid } => {
            if model::captures_process(m, old_pid) {
                let binding = model::BindingModel {
                    selection: model::with_pid(m.bindings[process].selection, new_pid),
                    ..m.bindings[process]
                };
                let moved = DecisionModel { bindings: m.bindings.insert(process, binding), ..m };
                assert forall|kind: BindingKind| #[trigger]
                    listed_worker(workers, kind) == live_worker(moved, kind) by {
                    assert(listed_worker(workers, kind) == live_worker(m, kind));
                }
                lemma_stop_in_step(moved, workers, process, AfterStop::ResolveAndStart);
            }
        },
        ObservationModel::WorkerStopped { binding, operation_id, epoch } => {
            let stopped = m.set_lifecycle(binding, LifecycleModel::Stopped);
            let s = model::observe_step(m, obs);
            if m.bindings.contains_key(binding) && m.lifecycle(binding) is Stopping {
                assert forall|kind: BindingKind| #[trigger]
                    listed_worker(workers, kind) == live_worker(stopped, kind) by {
                    assert(listed_worker(workers, kind) == live_worker(m, kind));
                }
                lemma_start_in_step(stopped, workers, binding);
                if s != model::start_step(stopped, binding) {
                    assert forall|kind: BindingKind| #[trigger]
                        listed_worker(workers, kind) == live_worker(s.state, kind) by {
                        assert(listed_worker(workers, kind) == live_worker(m, kind));
                    }
                }
            }
        },
        ObservationModel::WorkerStarted { binding, .. } => {
            let s = model::observe_step(m, obs);
            assert forall|kind: BindingKind| #[trigger]
                listed_worker(workers, kind) == live_worker(s.state, kind) by {
                assert(listed_worker(workers, kind) == live_worker(m, kind));
            }
        },
        ObservationModel::WorkerFailed { .. } => {},
    }
}

/// The failure of a live worker leaves its binding without one: with the worker taken
/// off the table, the two are in step again.
pub proof fn lemma_failure_in_step(
    m: DecisionModel,
    workers: Map<BindingKind, WorkerModel>,
    binding: BindingKind,
    error: Seq<char>,
)
    requires
        in_step(m, workers),
        workers.contains_key(binding),
    ensures
        ({
            let step = model::decide_step(
                m,
                InputModel::Observation(
                    ObservationModel::WorkerFailed {
                        binding,
                        operation_id: workers[binding].operation_id,
                        error,
                    },
                ),
            );
            &&& workers_after(workers, step.effects) == workers
            &&& in_step(step.state, workers.remove(binding))
            &&& forall|i: int|
                0 <= i < step.effects.len() ==> #[trigger] step.effects[i] is ScheduleRetry
        }),
{
    let step = model::worker_failed_step(m, binding, workers[binding].operation_id, error);
    assert(listed_worker(workers, binding) == live_worker(m, binding));
    if step.effects.len() == 1 {
        assert(step.effects =~= seq![step.effects[0]]);
        lemma_one_effect(workers, step.effects[0]);
    }
    let left = workers.remove(binding);
    assert forall|kind: BindingKind| #[trigger]
        listed_worker(left, kind) == live_worker(step.state, kind) by {
        assert(listed_worker(workers, kind) == live_worker(m, kind));
    }
}

} // verus!
