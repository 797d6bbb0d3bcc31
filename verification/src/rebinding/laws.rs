//! What holds of every decision, whatever the state and the input.

use super::model::{
    self, BindingModel, DecisionModel, EffectModel, InputModel, LifecycleModel, ObservationModel,
    SelectionModel, Step, TargetModel,
};
use super::{
    AfterStop, BindingKind, DataFlow, DeviceRole, EffectId, OperationId, StreamEpoch, WaitReason,
    MAX_RETRY_ATTEMPTS,
};
use vstd::prelude::*;

verus! {

/// The binding that an effect is for.
pub open spec fn binding_of(effect: EffectModel) -> BindingKind {
    match effect {
        EffectModel::StartCapture { binding, .. } => binding,
        EffectModel::StopCapture { binding, .. } => binding,
        EffectModel::ScheduleRetry { binding, .. } => binding,
    }
}

/// The id that an effect carries.
pub open spec fn id_of(effect: EffectModel) -> EffectId {
    match effect {
        EffectModel::StartCapture { effect_id, .. } => effect_id,
        EffectModel::StopCapture { effect_id, .. } => effect_id,
        EffectModel::ScheduleRetry { effect_id, .. } => effect_id,
    }
}

/// Whether the binding is held by a worker of this epoch, or about to be.
pub open spec fn holds_epoch(m: DecisionModel, kind: BindingKind, epoch: StreamEpoch) -> bool {
    m.bindings.contains_key(kind) && match m.lifecycle(kind) {
        LifecycleModel::Starting { proposed_epoch, .. } => proposed_epoch == epoch,
        LifecycleModel::Running { epoch: current, .. } => current == epoch,
        _ => false,
    }
}

/// Whether the ids of a lifecycle were handed out by this state's counters.
pub open spec fn issued_by(m: DecisionModel, lifecycle: LifecycleModel) -> bool {
    match lifecycle {
        LifecycleModel::Resolving { operation_id } => operation_id.0 < m.next_operation_id,
        LifecycleModel::Starting { operation_id, proposed_epoch, .. } => operation_id.0
            < m.next_operation_id && proposed_epoch.0 < m.next_stream_epoch,
        LifecycleModel::Running { operation_id, epoch, .. } => operation_id.0
            < m.next_operation_id && epoch.0 < m.next_stream_epoch,
        LifecycleModel::Stopping { operation_id, epoch, .. } => operation_id.0
            < m.next_operation_id && epoch.0 < m.next_stream_epoch,
        _ => true,
    }
}

/// Whether every id that the state holds was handed out by its own counters.
pub open spec fn issued(m: DecisionModel) -> bool {
    forall|kind: BindingKind| #[trigger]
        m.bindings.contains_key(kind) ==> issued_by(m, m.lifecycle(kind))
}

/// What a step that looks at one binding only may do.
spec fn local(m: DecisionModel, s: Step, kind: BindingKind) -> bool {
    &&& s.effects.len() <= 1
    &&& s.state.shutdown == m.shutdown
    &&& s.state.routes == m.routes
    &&& m.next_operation_id <= s.state.next_operation_id
    &&& m.next_stream_epoch <= s.state.next_stream_epoch
    &&& s.state.next_effect_id == m.next_effect_id + s.effects.len()
    &&& s.effects.len() == 1 ==> binding_of(s.effects[0]) == kind && id_of(s.effects[0])
        == EffectId(m.next_effect_id as u64)
    &&& s.effects.len() == 1 && s.effects[0] is StartCapture ==> {
        &&& model::startable(m, kind)
        &&& s.effects[0]->proposed_epoch == StreamEpoch(m.next_stream_epoch as u64)
        &&& s.effects[0]->StartCapture_operation_id == OperationId(m.next_operation_id as u64)
        &&& s.state.next_operation_id == m.next_operation_id + 1
        &&& s.state.next_stream_epoch == m.next_stream_epoch + 1
        &&& model::resolve(m.bindings[kind].selection, m.routes) == Some(
            s.effects[0]->StartCapture_target,
        )
    }
    &&& !(s.effects.len() == 1 && s.effects[0] is StartCapture) ==> s.state.next_stream_epoch
        == m.next_stream_epoch
    &&& s.effects.len() == 1 ==> s.effects[0] !is ScheduleRetry && m.bindings.contains_key(kind)
    &&& m.bindings.contains_key(kind) == s.state.bindings.contains_key(kind)
    &&& m.bindings.contains_key(kind) ==> s.state.bindings[kind].selection
        == m.bindings[kind].selection
    &&& m.bindings.contains_key(kind) && !(m.lifecycle(kind) is Stopped || m.lifecycle(
        kind,
    ) is Waiting || m.lifecycle(kind) is Running) ==> s.state.bindings[kind]
        == m.bindings[kind] && s.effects.len() == 0
    &&& m.shutdown && s.state.bindings.contains_key(kind) && s.state.lifecycle(
        kind,
    ) is Starting ==> s.state.lifecycle(kind) == m.lifecycle(kind)
    &&& forall|other: BindingKind|
        #![trigger s.state.bindings.contains_key(other)]
        #![trigger s.state.bindings[other]]
        other != kind ==> {
            &&& m.bindings.contains_key(other) == s.state.bindings.contains_key(other)
            &&& m.bindings[other] == s.state.bindings[other]
        }
}

proof fn lemma_start_local(m: DecisionModel, kind: BindingKind)
    ensures
        local(m, model::start_step(m, kind), kind),
{
}

proof fn lemma_stop_local(m: DecisionModel, kind: BindingKind, next: AfterStop)
    ensures
        local(m, model::stop_step(m, kind, next), kind),
{
}

proof fn lemma_reroute_local(m: DecisionModel, kind: BindingKind, flow: DataFlow, role: DeviceRole)
    ensures
        local(m, model::reroute_one(m, kind, flow, role), kind),
{
    lemma_stop_local(m, kind, AfterStop::ResolveAndStart);
}

proof fn lemma_remove_local(m: DecisionModel, kind: BindingKind, endpoint_id: Seq<char>)
    ensures
        local(m, model::remove_one(m, kind, endpoint_id), kind),
{
    lemma_stop_local(
        m,
        kind,
        AfterStop::WaitForRecovery { reason: WaitReason::DeviceUnavailable },
    );
}

proof fn lemma_add_local(m: DecisionModel, kind: BindingKind, endpoint_id: Seq<char>)
    ensures
        local(m, model::add_one(m, kind, endpoint_id), kind),
{
    lemma_start_local(m, kind);
}

/// What a whole decision may do, put together from its local steps. `m` is the state
/// that the first of them started from.
spec fn orderly(m: DecisionModel, s: Step) -> bool {
    &&& s.state.shutdown == m.shutdown
    &&& m.next_operation_id <= s.state.next_operation_id
    &&& m.next_stream_epoch <= s.state.next_stream_epoch
    &&& s.state.next_effect_id == m.next_effect_id + s.effects.len()
    &&& forall|i: int|
        #![trigger s.effects[i]]
        0 <= i < s.effects.len() ==> id_of(s.effects[i]) == EffectId(
            (m.next_effect_id + i) as u64,
        )
    &&& forall|i: int|
        #![trigger s.effects[i]]
        0 <= i < s.effects.len() && s.effects[i] is StartCapture ==> starts_properly(
            m,
            s,
            s.effects[i],
        )
    &&& forall|i: int, j: int|
        #![trigger s.effects[i], s.effects[j]]
        0 <= i < j < s.effects.len() && s.effects[i] is StartCapture && s.effects[j] is StartCapture
            && s.state.fits() ==> {
            &&& s.effects[i]->proposed_epoch.0 < s.effects[j]->proposed_epoch.0
            &&& s.effects[i]->StartCapture_operation_id.0
                < s.effects[j]->StartCapture_operation_id.0
        }
    &&& s.effects.len() <= 3
    &&& one_effect_each(s)
    &&& m.shutdown ==> none_starting(m, s.state)
    &&& forall|i: int|
        #![trigger s.effects[i]]
        0 <= i < s.effects.len() ==> settled_start(m, binding_of(s.effects[i]))
}

/// Whether no two effects of a step are for the same binding.
pub open spec fn one_effect_each(s: Step) -> bool {
    forall|i: int, j: int|
        #![trigger s.effects[i], s.effects[j]]
        0 <= i < j < s.effects.len() ==> binding_of(s.effects[i]) != binding_of(s.effects[j])
}

/// Whether no binding has moved into `Starting`: what is starting was already, under the
/// same ids.
pub open spec fn none_starting(m: DecisionModel, after: DecisionModel) -> bool {
    forall|kind: BindingKind|
        #![trigger after.bindings.contains_key(kind)]
        after.bindings.contains_key(kind) && after.lifecycle(kind) is Starting ==> {
            &&& m.bindings.contains_key(kind)
            &&& after.lifecycle(kind) == m.lifecycle(kind)
        }
}

/// Whether a binding is in a state in which a decision may have an effect on it.
spec fn settled_start(m: DecisionModel, kind: BindingKind) -> bool {
    &&& m.bindings.contains_key(kind)
    &&& m.lifecycle(kind) !is Failed
}

spec fn starts_properly(m: DecisionModel, s: Step, effect: EffectModel) -> bool {
    let kind = binding_of(effect);
    &&& !m.shutdown
    &&& m.bindings.contains_key(kind)
    &&& s.state.fits() ==> m.next_stream_epoch <= effect->proposed_epoch.0
        < s.state.next_stream_epoch
    &&& s.state.fits() ==> m.next_operation_id <= effect->StartCapture_operation_id.0
        < s.state.next_operation_id
    &&& model::resolve(m.bindings[kind].selection, m.routes) == Some(effect->StartCapture_target)
}

proof fn lemma_joined(m: DecisionModel, a: Step, b: Step, c: Step)
    requires
        local(m, a, BindingKind::Microphone),
        local(a.state, b, BindingKind::EndpointLoopback),
        local(b.state, c, BindingKind::ProcessLoopback),
    ensures
        orderly(m, model::joined(a, b, c)),
        forall|i: int|
            #![trigger model::joined(a, b, c).effects[i]]
            0 <= i < model::joined(a, b, c).effects.len() ==> {
                let e = model::joined(a, b, c).effects[i];
                ||| a.effects.len() == 1 && e == a.effects[0]
                ||| b.effects.len() == 1 && e == b.effects[0]
                ||| c.effects.len() == 1 && e == c.effects[0]
            },
        forall|i: int|
            #![trigger model::joined(a, b, c).effects[i]]
            0 <= i < model::joined(a, b, c).effects.len()
                && model::joined(a, b, c).effects[i] is StartCapture ==> {
                let kind = binding_of(model::joined(a, b, c).effects[i]);
                m.lifecycle(kind) is Stopped || m.lifecycle(kind) is Waiting
            },
        model::joined(a, b, c).state.bindings[BindingKind::Microphone]
            == a.state.bindings[BindingKind::Microphone],
        model::joined(a, b, c).state.bindings[BindingKind::EndpointLoopback]
            == b.state.bindings[BindingKind::EndpointLoopback],
        a.state.bindings[BindingKind::EndpointLoopback]
            == m.bindings[BindingKind::EndpointLoopback],
        a.state.bindings.contains_key(BindingKind::EndpointLoopback) == m.bindings.contains_key(
            BindingKind::EndpointLoopback,
        ),
        b.state.bindings[BindingKind::ProcessLoopback] == m.bindings[BindingKind::ProcessLoopback],
        b.state.bindings.contains_key(BindingKind::ProcessLoopback) == m.bindings.contains_key(
            BindingKind::ProcessLoopback,
        ),
        forall|kind: BindingKind|
            m.bindings.contains_key(kind) == #[trigger] c.state.bindings.contains_key(kind),
{
    let all = model::joined(a, b, c);
    assert(all.effects.len() == a.effects.len() + b.effects.len() + c.effects.len());
    assert forall|i: int| 0 <= i < all.effects.len() implies {
        let e = #[trigger] all.effects[i];
        ||| a.effects.len() == 1 && e == a.effects[0] && i == 0
        ||| b.effects.len() == 1 && e == b.effects[0] && i == a.effects.len()
        ||| c.effects.len() == 1 && e == c.effects[0] && i == a.effects.len() + b.effects.len()
    } by {
        if i < a.effects.len() {
            assert(all.effects[i] == a.effects[i]);
        } else if i < a.effects.len() + b.effects.len() {
            assert(all.effects[i] == b.effects[i - a.effects.len()]);
        } else {
            assert(all.effects[i] == c.effects[i - a.effects.len() - b.effects.len()]);
        }
    }
    let ep = BindingKind::EndpointLoopback;
    let process = BindingKind::ProcessLoopback;
    assert(a.state.bindings.contains_key(ep) == m.bindings.contains_key(ep));
    assert(a.state.bindings.contains_key(process) == m.bindings.contains_key(process));
    assert(b.state.bindings.contains_key(process) == a.state.bindings.contains_key(process));
    assert(a.state.bindings[ep] == m.bindings[ep]);
    assert(a.state.bindings[process] == m.bindings[process]);
    assert(b.state.bindings[process] == a.state.bindings[process]);
}

/// The three local steps of a decision that looks at every binding.
proof fn lemma_reroute_joined(
    m: DecisionModel,
    flow: DataFlow,
    role: DeviceRole,
    endpoint_id: Option<Seq<char>>,
)
    ensures
        ({
            let routed = DecisionModel { routes: m.routes.insert((flow, role), endpoint_id), ..m };
            orderly(routed, model::reroute_step(m, flow, role, endpoint_id))
        }),
        forall|i: int|
            #![trigger model::reroute_step(m, flow, role, endpoint_id).effects[i]]
            0 <= i < model::reroute_step(m, flow, role, endpoint_id).effects.len()
                ==> model::reroute_step(m, flow, role, endpoint_id).effects[i] is StopCapture,
{
    let routed = DecisionModel { routes: m.routes.insert((flow, role), endpoint_id), ..m };
    let a = model::reroute_one(routed, BindingKind::Microphone, flow, role);
    let b = model::reroute_one(a.state, BindingKind::EndpointLoopback, flow, role);
    let c = model::reroute_one(b.state, BindingKind::ProcessLoopback, flow, role);
    lemma_reroute_local(routed, BindingKind::Microphone, flow, role);
    lemma_reroute_local(a.state, BindingKind::EndpointLoopback, flow, role);
    lemma_reroute_local(b.state, BindingKind::ProcessLoopback, flow, role);
    lemma_joined(routed, a, b, c);
}

proof fn lemma_remove_joined(m: DecisionModel, endpoint_id: Seq<char>)
    ensures
        orderly(m, model::remove_step(m, endpoint_id)),
        forall|i: int|
            #![trigger model::remove_step(m, endpoint_id).effects[i]]
            0 <= i < model::remove_step(m, endpoint_id).effects.len() ==> model::remove_step(
                m,
                endpoint_id,
            ).effects[i] is StopCapture,
{
    let a = model::remove_one(m, BindingKind::Microphone, endpoint_id);
    let b = model::remove_one(a.state, BindingKind::EndpointLoopback, endpoint_id);
    let c = model::remove_one(b.state, BindingKind::ProcessLoopback, endpoint_id);
    lemma_remove_local(m, BindingKind::Microphone, endpoint_id);
    lemma_remove_local(a.state, BindingKind::EndpointLoopback, endpoint_id);
    lemma_remove_local(b.state, BindingKind::ProcessLoopback, endpoint_id);
    lemma_joined(m, a, b, c);
}

proof fn lemma_add_joined(m: DecisionModel, endpoint_id: Seq<char>)
    ensures
        orderly(m, model::add_step(m, endpoint_id)),
        forall|i: int|
            #![trigger model::add_step(m, endpoint_id).effects[i]]
            0 <= i < model::add_step(m, endpoint_id).effects.len() ==> {
                let e = model::add_step(m, endpoint_id).effects[i];
                &&& e is StartCapture
                &&& m.lifecycle(binding_of(e)) is Waiting
            },
{
    let a = model::add_one(m, BindingKind::Microphone, endpoint_id);
    let b = model::add_one(a.state, BindingKind::EndpointLoopback, endpoint_id);
    let c = model::add_one(b.state, BindingKind::ProcessLoopback, endpoint_id);
    lemma_add_local(m, BindingKind::Microphone, endpoint_id);
    lemma_add_local(a.state, BindingKind::EndpointLoopback, endpoint_id);
    lemma_add_local(b.state, BindingKind::ProcessLoopback, endpoint_id);
    lemma_joined(m, a, b, c);
}

proof fn lemma_shutdown_joined(m: DecisionModel)
    ensures
        orderly(DecisionModel { shutdown: true, ..m }, model::shutdown_step(m)),
        forall|i: int|
            #![trigger model::shutdown_step(m).effects[i]]
            0 <= i < model::shutdown_step(m).effects.len() ==> model::shutdown_step(
                m,
            ).effects[i] is StopCapture,
{
    let closing = DecisionModel { shutdown: true, ..m };
    let a = model::shutdown_one(closing, BindingKind::Microphone);
    let b = model::shutdown_one(a.state, BindingKind::EndpointLoopback);
    let c = model::shutdown_one(b.state, BindingKind::ProcessLoopback);
    lemma_stop_local(closing, BindingKind::Microphone, AfterStop::RemainStopped);
    lemma_stop_local(a.state, BindingKind::EndpointLoopback, AfterStop::RemainStopped);
    lemma_stop_local(b.state, BindingKind::ProcessLoopback, AfterStop::RemainStopped);
    lemma_joined(closing, a, b, c);
}

/// Whether the effects of a step carry the ids that follow the last one used.
pub open spec fn ids_follow(m: DecisionModel, s: Step) -> bool {
    &&& s.state.next_effect_id == m.next_effect_id + s.effects.len()
    &&& forall|i: int|
        #![trigger s.effects[i]]
        0 <= i < s.effects.len() ==> id_of(s.effects[i]) == EffectId((m.next_effect_id + i) as u64)
}

proof fn lemma_observed_ids_follow(m: DecisionModel, obs: ObservationModel)
    ensures
        ids_follow(m, model::observe_step(m, obs)),
{
    match obs {
        ObservationModel::DefaultEndpointChanged { flow, role, endpoint_id } => {
            lemma_reroute_joined(m, flow, role, endpoint_id);
        },
        ObservationModel::EndpointRemoved { endpoint_id } => {
            lemma_remove_joined(m, endpoint_id);
        },
        ObservationModel::EndpointAdded { endpoint_id } => {
            lemma_add_joined(m, endpoint_id);
        },
        _ => {},
    }
}

/// Effect ids are handed out one by one: the effects of a decision carry the ids that
/// follow the last one used, in order, and the counter moves on by as many.
pub proof fn law_effect_ids_are_consecutive(m: DecisionModel, input: InputModel)
    ensures
        ids_follow(m, model::decide_step(m, input)),
{
    match input {
        InputModel::ShutdownRequested => {
            lemma_shutdown_joined(m);
        },
        InputModel::Observation(obs) => {
            lemma_observed_ids_follow(m, obs);
        },
        InputModel::Start { binding } => {
            lemma_start_local(m, binding);
        },
        InputModel::Stop { binding } => {
            lemma_stop_local(m, binding, AfterStop::RemainStopped);
        },
        InputModel::RetryTimerFired { binding, .. } => {
            lemma_start_local(m, binding);
        },
    }
}

/// No worker is started while another one of the same binding is starting, running or
/// still stopping. The one decision that starts a binding out of `Stopping` is the one
/// that learns that the old worker is gone.
pub proof fn law_no_start_while_a_worker_is_alive(m: DecisionModel, input: InputModel, i: int)
    requires
        0 <= i < model::decide_step(m, input).effects.len(),
        model::decide_step(m, input).effects[i] is StartCapture,
    ensures
        ({
            let kind = binding_of(model::decide_step(m, input).effects[i]);
            &&& m.bindings.contains_key(kind)
            &&& {
                ||| m.lifecycle(kind) is Stopped
                ||| m.lifecycle(kind) is Waiting
                ||| {
                    &&& m.lifecycle(kind) matches LifecycleModel::Stopping {
                        operation_id,
                        epoch,
                        next,
                    }
                    &&& next == AfterStop::ResolveAndStart
                    &&& input == InputModel::Observation(
                        ObservationModel::WorkerStopped { binding: kind, operation_id, epoch },
                    )
                }
            }
        }),
{
    match input {
        InputModel::ShutdownRequested => lemma_shutdown_joined(m),
        InputModel::Observation(
            ObservationModel::DefaultEndpointChanged { flow, role, endpoint_id },
        ) => lemma_reroute_joined(m, flow, role, endpoint_id),
        InputModel::Observation(ObservationModel::EndpointRemoved { endpoint_id }) =>
            lemma_remove_joined(m, endpoint_id),
        InputModel::Observation(ObservationModel::EndpointAdded { endpoint_id }) =>
            lemma_add_joined(m, endpoint_id),
        _ => {},
    }
}

/// Once shutdown was requested it stays requested, and nothing is started any more: no
/// decision asks for a start, and no binding moves into `Starting`.
pub proof fn law_no_start_after_shutdown(m: DecisionModel, input: InputModel)
    requires
        m.shutdown,
    ensures
        ({
            let s = model::decide_step(m, input);
            &&& s.state.shutdown
            &&& forall|i: int|
                #![trigger s.effects[i]]
                0 <= i < s.effects.len() ==> s.effects[i] !is StartCapture
            &&& none_starting(m, s.state)
        }),
{
    match input {
        InputModel::ShutdownRequested => lemma_shutdown_joined(m),
        InputModel::Observation(
            ObservationModel::DefaultEndpointChanged { flow, role, endpoint_id },
        ) => lemma_reroute_joined(m, flow, role, endpoint_id),
        InputModel::Observation(ObservationModel::EndpointRemoved { endpoint_id }) =>
            lemma_remove_joined(m, endpoint_id),
        InputModel::Observation(ObservationModel::EndpointAdded { endpoint_id }) =>
            lemma_add_joined(m, endpoint_id),
        _ => {},
    }
}

/// A shutdown request stops every running binding for good, and touches no other.
pub proof fn law_shutdown_stops_what_runs(m: DecisionModel, kind: BindingKind)
    requires
        m.bindings.contains_key(kind),
    ensures
        ({
            let s = model::decide_step(m, InputModel::ShutdownRequested);
            &&& s.state.shutdown
            &&& match m.lifecycle(kind) {
                LifecycleModel::Running { operation_id, epoch, .. } => {
                    &&& s.state.lifecycle(kind) == (LifecycleModel::Stopping {
                        operation_id,
                        epoch,
                        next: AfterStop::RemainStopped,
                    })
                    &&& exists|i: int|
                        0 <= i < s.effects.len() && (#[trigger] s.effects[i] matches EffectModel::StopCapture {
                            binding,
                            operation_id: op,
                            epoch: e,
                            ..
                        } && binding == kind && op == operation_id && e == epoch)
                },
                _ => s.state.bindings[kind] == m.bindings[kind],
            }
        }),
{
    let closing = DecisionModel { shutdown: true, ..m };
    let a = model::shutdown_one(closing, BindingKind::Microphone);
    let b = model::shutdown_one(a.state, BindingKind::EndpointLoopback);
    let c = model::shutdown_one(b.state, BindingKind::ProcessLoopback);
    lemma_stop_local(closing, BindingKind::Microphone, AfterStop::RemainStopped);
    lemma_stop_local(a.state, BindingKind::EndpointLoopback, AfterStop::RemainStopped);
    lemma_stop_local(b.state, BindingKind::ProcessLoopback, AfterStop::RemainStopped);
    lemma_joined(closing, a, b, c);
    let s = model::decide_step(m, InputModel::ShutdownRequested);
    if m.lifecycle(kind) is Running {
        match kind {
            BindingKind::Microphone => {
                assert(s.effects[0] == a.effects[0]);
            },
            BindingKind::EndpointLoopback => {
                assert(s.effects[a.effects.len() as int] == b.effects[0]);
            },
            BindingKind::ProcessLoopback => {
                assert(s.effects[(a.effects.len() + b.effects.len()) as int] == c.effects[0]);
            },
        }
    }
}

/// Whether a step leaves a binding as it was and has no effect for it.
pub open spec fn untouched(m: DecisionModel, s: Step, kind: BindingKind) -> bool {
    &&& s.state.bindings.contains_key(kind)
    &&& s.state.bindings[kind] == m.bindings[kind]
    &&& forall|i: int|
        #![trigger s.effects[i]]
        0 <= i < s.effects.len() ==> binding_of(s.effects[i]) != kind
}

proof fn lemma_failed_ignores_start(m: DecisionModel, started: BindingKind, kind: BindingKind)
    requires
        m.bindings.contains_key(kind),
        m.lifecycle(kind) is Failed,
    ensures
        untouched(m, model::start_step(m, started), kind),
{
    lemma_start_local(m, started);
    let s = model::start_step(m, started);
    assert(s.state.bindings.contains_key(kind) && s.state.bindings[kind] == m.bindings[kind]);
}

proof fn lemma_failed_ignores_stop(
    m: DecisionModel,
    stopped: BindingKind,
    next: AfterStop,
    kind: BindingKind,
)
    requires
        m.bindings.contains_key(kind),
        m.lifecycle(kind) is Failed,
    ensures
        untouched(m, model::stop_step(m, stopped, next), kind),
{
    lemma_stop_local(m, stopped, next);
    let s = model::stop_step(m, stopped, next);
    assert(s.state.bindings.contains_key(kind) && s.state.bindings[kind] == m.bindings[kind]);
}

proof fn lemma_failed_ignores_reports(m: DecisionModel, obs: ObservationModel, kind: BindingKind)
    requires
        m.bindings.contains_key(kind),
        m.lifecycle(kind) is Failed,
        obs is WorkerStarted || obs is WorkerStopped || obs is WorkerFailed || obs is ProcessExited
            || obs is ProcessRestarted,
    ensures
        untouched(m, model::observe_step(m, obs), kind),
{
    let s = model::observe_step(m, obs);
    match obs {
        ObservationModel::ProcessExited { pid } => {
            lemma_failed_ignores_stop(
                m,
                BindingKind::ProcessLoopback,
                AfterStop::WaitForRecovery { reason: WaitReason::ProcessNotFound },
                kind,
            );
        },
        ObservationModel::ProcessRestarted { old_pid, new_pid } => {
            let process = BindingKind::ProcessLoopback;
            if model::captures_process(m, old_pid) {
                let binding = BindingModel {
                    selection: model::with_pid(m.bindings[process].selection, new_pid),
                    ..m.bindings[process]
                };
                let moved = DecisionModel { bindings: m.bindings.insert(process, binding), ..m };
                assert(kind != process);
                lemma_failed_ignores_stop(moved, process, AfterStop::ResolveAndStart, kind);
            }
        },
        ObservationModel::WorkerStopped { binding, operation_id, epoch } => {
            if binding != kind {
                let stopped = m.set_lifecycle(binding, LifecycleModel::Stopped);
                lemma_failed_ignores_start(stopped, binding, kind);
            }
        },
        _ => {
            assert(s.state.bindings[kind] == m.bindings[kind]);
        },
    }
}

/// A binding that gave up stays as it is, and no decision has an effect for it.
pub proof fn law_failed_is_final(m: DecisionModel, input: InputModel, kind: BindingKind)
    requires
        m.bindings.contains_key(kind),
        m.lifecycle(kind) is Failed,
    ensures
        untouched(m, model::decide_step(m, input), kind),
{
    match input {
        InputModel::ShutdownRequested => {
            lemma_failed_ignores_shutdown(m, kind);
        },
        InputModel::Start { binding } => {
            lemma_failed_ignores_start(m, binding, kind);
        },
        InputModel::Stop { binding } => {
            lemma_failed_ignores_stop(m, binding, AfterStop::RemainStopped, kind);
        },
        InputModel::RetryTimerFired { binding, retry_id } => {
            lemma_failed_ignores_start(m, binding, kind);
        },
        InputModel::Observation(obs) => {
            match obs {
                ObservationModel::DefaultEndpointChanged { flow, role, endpoint_id } => {
                    lemma_idle_on_reroute(m, flow, role, endpoint_id, kind);
                },
                ObservationModel::EndpointRemoved { endpoint_id } => {
                    lemma_idle_on_remove(m, endpoint_id, kind);
                },
                ObservationModel::EndpointAdded { endpoint_id } => {
                    lemma_idle_on_add(m, endpoint_id, kind);
                },
                _ => {
                    lemma_failed_ignores_reports(m, obs, kind);
                },
            }
        },
    }
}

proof fn lemma_failed_ignores_shutdown(m: DecisionModel, kind: BindingKind)
    requires
        m.bindings.contains_key(kind),
        m.lifecycle(kind) is Failed,
    ensures
        untouched(m, model::shutdown_step(m), kind),
{
    let closing = DecisionModel { shutdown: true, ..m };
    let a = model::shutdown_one(closing, BindingKind::Microphone);
    let b = model::shutdown_one(a.state, BindingKind::EndpointLoopback);
    let c = model::shutdown_one(b.state, BindingKind::ProcessLoopback);
    lemma_stop_local(closing, BindingKind::Microphone, AfterStop::RemainStopped);
    lemma_stop_local(a.state, BindingKind::EndpointLoopback, AfterStop::RemainStopped);
    lemma_stop_local(b.state, BindingKind::ProcessLoopback, AfterStop::RemainStopped);
    lemma_joined(closing, a, b, c);
    assert(c.state.bindings.contains_key(kind) == closing.bindings.contains_key(kind));
    law_shutdown_stops_what_runs(m, kind);
}

proof fn lemma_idle_on_reroute(
    m: DecisionModel,
    flow: DataFlow,
    role: DeviceRole,
    endpoint_id: Option<Seq<char>>,
    kind: BindingKind,
)
    requires
        m.bindings.contains_key(kind),
    ensures
        ({
            let s = model::reroute_step(m, flow, role, endpoint_id);
            let routed = DecisionModel { routes: m.routes.insert((flow, role), endpoint_id), ..m };
            &&& s.state.bindings.contains_key(kind)
            &&& s.state.bindings[kind] == model::reroute_one(
                routed,
                kind,
                flow,
                role,
            ).state.bindings[kind]
            &&& model::reroute_one(routed, kind, flow, role).effects.len() == 0 ==> forall|i: int|
                #![trigger s.effects[i]]
                0 <= i < s.effects.len() ==> binding_of(s.effects[i]) != kind
        }),
{
    let routed = DecisionModel { routes: m.routes.insert((flow, role), endpoint_id), ..m };
    let a = model::reroute_one(routed, BindingKind::Microphone, flow, role);
    let b = model::reroute_one(a.state, BindingKind::EndpointLoopback, flow, role);
    let c = model::reroute_one(b.state, BindingKind::ProcessLoopback, flow, role);
    lemma_reroute_local(routed, BindingKind::Microphone, flow, role);
    lemma_reroute_local(a.state, BindingKind::EndpointLoopback, flow, role);
    lemma_reroute_local(b.state, BindingKind::ProcessLoopback, flow, role);
    lemma_joined(routed, a, b, c);
    assert(c.state.bindings.contains_key(kind) == routed.bindings.contains_key(kind));
}

proof fn lemma_idle_on_remove(m: DecisionModel, endpoint_id: Seq<char>, kind: BindingKind)
    requires
        m.bindings.contains_key(kind),
    ensures
        ({
            let s = model::remove_step(m, endpoint_id);
            &&& s.state.bindings.contains_key(kind)
            &&& s.state.bindings[kind] == model::remove_one(
                m,
                kind,
                endpoint_id,
            ).state.bindings[kind]
            &&& model::remove_one(m, kind, endpoint_id).effects.len() == 0 ==> forall|i: int|
                #![trigger s.effects[i]]
                0 <= i < s.effects.len() ==> binding_of(s.effects[i]) != kind
        }),
{
    let a = model::remove_one(m, BindingKind::Microphone, endpoint_id);
    let b = model::remove_one(a.state, BindingKind::EndpointLoopback, endpoint_id);
    let c = model::remove_one(b.state, BindingKind::ProcessLoopback, endpoint_id);
    lemma_remove_local(m, BindingKind::Microphone, endpoint_id);
    lemma_remove_local(a.state, BindingKind::EndpointLoopback, endpoint_id);
    lemma_remove_local(b.state, BindingKind::ProcessLoopback, endpoint_id);
    lemma_joined(m, a, b, c);
    assert(c.state.bindings.contains_key(kind) == m.bindings.contains_key(kind));
}

proof fn lemma_idle_on_add(m: DecisionModel, endpoint_id: Seq<char>, kind: BindingKind)
    requires
        m.bindings.contains_key(kind),
    ensures
        ({
            let s = model::add_step(m, endpoint_id);
            &&& s.state.bindings.contains_key(kind)
            &&& model::add_one(m, kind, endpoint_id).effects.len() == 0 ==> {
                &&& s.state.bindings[kind] == model::add_one(
                    m,
                    kind,
                    endpoint_id,
                ).state.bindings[kind]
                &&& forall|i: int|
                    #![trigger s.effects[i]]
                    0 <= i < s.effects.len() ==> binding_of(s.effects[i]) != kind
            }
        }),
{
    let a = model::add_one(m, BindingKind::Microphone, endpoint_id);
    let b = model::add_one(a.state, BindingKind::EndpointLoopback, endpoint_id);
    let c = model::add_one(b.state, BindingKind::ProcessLoopback, endpoint_id);
    lemma_add_local(m, BindingKind::Microphone, endpoint_id);
    lemma_add_local(a.state, BindingKind::EndpointLoopback, endpoint_id);
    lemma_add_local(b.state, BindingKind::ProcessLoopback, endpoint_id);
    lemma_joined(m, a, b, c);
    assert(c.state.bindings.contains_key(kind) == m.bindings.contains_key(kind));
}

/// At most [`MAX_RETRY_ATTEMPTS`] retries are scheduled in a row: every scheduled retry
/// carries a count between one and that bound, under an id equal to the count.
pub proof fn law_retries_are_capped(m: DecisionModel, input: InputModel, i: int)
    requires
        0 <= i < model::decide_step(m, input).effects.len(),
    ensures
        model::decide_step(m, input).effects[i] matches EffectModel::ScheduleRetry {
            retry_id,
            attempt,
            ..
        } ==> 1 <= attempt <= MAX_RETRY_ATTEMPTS && retry_id == attempt,
{
    match input {
        InputModel::ShutdownRequested => lemma_shutdown_joined(m),
        InputModel::Observation(
            ObservationModel::DefaultEndpointChanged { flow, role, endpoint_id },
        ) => lemma_reroute_joined(m, flow, role, endpoint_id),
        InputModel::Observation(ObservationModel::EndpointRemoved { endpoint_id }) =>
            lemma_remove_joined(m, endpoint_id),
        InputModel::Observation(ObservationModel::EndpointAdded { endpoint_id }) =>
            lemma_add_joined(m, endpoint_id),
        _ => {},
    }
}

/// The failure that exceeds the cap is the last: the binding gives up, and says after
/// how many attempts and why.
pub proof fn law_gives_up_past_the_cap(
    m: DecisionModel,
    kind: BindingKind,
    operation_id: OperationId,
    error: Seq<char>,
)
    requires
        m.bindings.contains_key(kind),
        model::live_operation(m.lifecycle(kind)) == Some(operation_id),
        m.bindings[kind].retry_attempt >= MAX_RETRY_ATTEMPTS,
    ensures
        ({
            let s = model::decide_step(
                m,
                InputModel::Observation(
                    ObservationModel::WorkerFailed { binding: kind, operation_id, error },
                ),
            );
            &&& s.effects.len() == 0
            &&& s.state.lifecycle(kind) == (LifecycleModel::Failed {
                cause: model::giving_up(m.bindings[kind].retry_attempt + 1, error),
            })
        }),
{
}

/// A success clears the failure count, so that later failures have all their retries.
pub proof fn law_success_clears_the_failure_count(
    m: DecisionModel,
    kind: BindingKind,
    operation_id: OperationId,
    epoch: StreamEpoch,
    target: TargetModel,
)
    requires
        m.bindings.contains_key(kind),
        m.lifecycle(kind) matches LifecycleModel::Starting { operation_id: op, proposed_epoch, .. }
            && op == operation_id && proposed_epoch == epoch,
    ensures
        ({
            let s = model::decide_step(
                m,
                InputModel::Observation(
                    ObservationModel::WorkerStarted { binding: kind, operation_id, epoch, target },
                ),
            );
            &&& s.state.bindings[kind].retry_attempt == 0
            &&& s.state.accepts_epoch(kind, epoch)
        }),
{
}

/// A report that names another operation or epoch than the current one is stale: it
/// changes nothing and has no effect.
pub proof fn law_stale_reports_are_ignored(
    m: DecisionModel,
    kind: BindingKind,
    operation_id: OperationId,
    epoch: StreamEpoch,
    target: TargetModel,
    error: Seq<char>,
)
    ensures
        !(m.bindings.contains_key(kind) && (m.lifecycle(kind) matches LifecycleModel::Starting {
            operation_id: op,
            proposed_epoch,
            ..
        } && op == operation_id && proposed_epoch == epoch)) ==> model::decide_step(
            m,
            InputModel::Observation(
                ObservationModel::WorkerStarted { binding: kind, operation_id, epoch, target },
            ),
        ) == m.quiet(),
        !(m.bindings.contains_key(kind) && (m.lifecycle(kind) matches LifecycleModel::Stopping {
            operation_id: op,
            epoch: e,
            ..
        } && op == operation_id && e == epoch)) ==> model::decide_step(
            m,
            InputModel::Observation(
                ObservationModel::WorkerStopped { binding: kind, operation_id, epoch },
            ),
        ) == m.quiet(),
        !(m.bindings.contains_key(kind) && model::live_operation(m.lifecycle(kind)) == Some(
            operation_id,
        )) ==> model::decide_step(
            m,
            InputModel::Observation(
                ObservationModel::WorkerFailed { binding: kind, operation_id, error },
            ),
        ) == m.quiet(),
{
}

/// A retry timer that fires for another wait than the current one is ignored.
pub proof fn law_stale_timers_are_ignored(m: DecisionModel, kind: BindingKind, retry_id: u64)
    requires
        !(m.bindings.contains_key(kind) && (m.lifecycle(kind) matches LifecycleModel::Waiting {
            reason,
        } && reason is RetryableFailure) && m.bindings[kind].retry_attempt == retry_id),
    ensures
        model::decide_step(m, InputModel::RetryTimerFired { binding: kind, retry_id })
            == m.quiet(),
{
}

/// A pinned binding never falls back to another device: whatever is started for it is
/// started on the endpoint that it is pinned to.
pub proof fn law_pinned_never_falls_back(
    m: DecisionModel,
    input: InputModel,
    i: int,
    endpoint_id: Seq<char>,
)
    requires
        0 <= i < model::decide_step(m, input).effects.len(),
        model::decide_step(m, input).effects[i] is StartCapture,
        m.bindings[binding_of(model::decide_step(m, input).effects[i])].selection == (
        SelectionModel::Pinned { endpoint_id }),
    ensures
        model::decide_step(m, input).effects[i]->StartCapture_target == TargetModel::Endpoint(
            endpoint_id,
        ),
{
    match input {
        InputModel::ShutdownRequested => lemma_shutdown_joined(m),
        InputModel::Observation(
            ObservationModel::DefaultEndpointChanged { flow, role, endpoint_id },
        ) => lemma_reroute_joined(m, flow, role, endpoint_id),
        InputModel::Observation(ObservationModel::EndpointRemoved { endpoint_id }) =>
            lemma_remove_joined(m, endpoint_id),
        InputModel::Observation(ObservationModel::EndpointAdded { endpoint_id }) =>
            lemma_add_joined(m, endpoint_id),
        _ => {},
    }
}

/// What happens to endpoints never reaches a process loopback: neither the loss of one,
/// nor the arrival of one, nor a new default touches it.
pub proof fn law_process_loopback_ignores_endpoints(
    m: DecisionModel,
    lost: Seq<char>,
    found: Seq<char>,
    flow: DataFlow,
    role: DeviceRole,
    endpoint_id: Option<Seq<char>>,
)
    requires
        m.bindings.contains_key(BindingKind::ProcessLoopback),
    ensures
        untouched(
            m,
            model::decide_step(
                m,
                InputModel::Observation(ObservationModel::EndpointRemoved { endpoint_id: lost }),
            ),
            BindingKind::ProcessLoopback,
        ),
        untouched(
            m,
            model::decide_step(
                m,
                InputModel::Observation(ObservationModel::EndpointAdded { endpoint_id: found }),
            ),
            BindingKind::ProcessLoopback,
        ),
        untouched(
            m,
            model::decide_step(
                m,
                InputModel::Observation(
                    ObservationModel::DefaultEndpointChanged { flow, role, endpoint_id },
                ),
            ),
            BindingKind::ProcessLoopback,
        ),
{
    lemma_idle_on_remove(m, lost, BindingKind::ProcessLoopback);
    lemma_idle_on_add(m, found, BindingKind::ProcessLoopback);
    lemma_idle_on_reroute(m, flow, role, endpoint_id, BindingKind::ProcessLoopback);
}

/// A default change to the endpoint that a follower already has is no change for it.
pub proof fn law_redundant_default_change_is_ignored(
    m: DecisionModel,
    kind: BindingKind,
    flow: DataFlow,
    role: DeviceRole,
    endpoint_id: Seq<char>,
)
    requires
        m.bindings.contains_key(kind),
        m.lifecycle(kind) matches LifecycleModel::Running { target, .. } && target
            == TargetModel::Endpoint(endpoint_id),
    ensures
        untouched(
            m,
            model::decide_step(
                m,
                InputModel::Observation(
                    ObservationModel::DefaultEndpointChanged {
                        flow,
                        role,
                        endpoint_id: Some(endpoint_id),
                    },
                ),
            ),
            kind,
        ),
{
    lemma_idle_on_reroute(m, flow, role, Some(endpoint_id), kind);
}

/// Operation ids and epochs are handed out only once: what a decision starts carries
/// ids at or above the counters before it and below the counters after it, the counters
/// never go back, and of two starts of one decision the second carries the larger
/// operation id and the larger epoch.
pub proof fn law_started_ids_are_fresh(m: DecisionModel, input: InputModel)
    requires
        model::decide_step(m, input).state.fits(),
    ensures
        ({
            let s = model::decide_step(m, input);
            &&& m.next_operation_id <= s.state.next_operation_id
            &&& m.next_stream_epoch <= s.state.next_stream_epoch
            &&& forall|i: int|
                #![trigger s.effects[i]]
                0 <= i < s.effects.len() && s.effects[i] is StartCapture ==> {
                    &&& m.next_operation_id <= s.effects[i]->StartCapture_operation_id.0
                        < s.state.next_operation_id
                    &&& m.next_stream_epoch <= s.effects[i]->proposed_epoch.0
                        < s.state.next_stream_epoch
                }
            &&& forall|i: int, j: int|
                #![trigger s.effects[i], s.effects[j]]
                0 <= i < j < s.effects.len() && s.effects[i] is StartCapture
                    && s.effects[j] is StartCapture ==> {
                    &&& s.effects[i]->proposed_epoch.0 < s.effects[j]->proposed_epoch.0
                    &&& s.effects[i]->StartCapture_operation_id.0
                        < s.effects[j]->StartCapture_operation_id.0
                }
        }),
{
    match input {
        InputModel::ShutdownRequested => lemma_shutdown_joined(m),
        InputModel::Observation(
            ObservationModel::DefaultEndpointChanged { flow, role, endpoint_id },
        ) => lemma_reroute_joined(m, flow, role, endpoint_id),
        InputModel::Observation(ObservationModel::EndpointRemoved { endpoint_id }) =>
            lemma_remove_joined(m, endpoint_id),
        InputModel::Observation(ObservationModel::EndpointAdded { endpoint_id }) =>
            lemma_add_joined(m, endpoint_id),
        _ => {},
    }
}

proof fn lemma_start_keeps_issued(m: DecisionModel, kind: BindingKind)
    requires
        issued(m),
        model::start_step(m, kind).state.fits(),
    ensures
        issued(model::start_step(m, kind).state),
        m.fits(),
{
    let after = model::start_step(m, kind).state;
    lemma_start_local(m, kind);
    model::lemma_start_advances(m, kind);
    assert forall|other: BindingKind| #[trigger]
        after.bindings.contains_key(other) implies issued_by(after, after.lifecycle(other)) by {
        assert(m.bindings.contains_key(other));
        assert(other != kind ==> after.bindings[other] == m.bindings[other]);
    }
}

proof fn lemma_stop_keeps_issued(m: DecisionModel, kind: BindingKind, next: AfterStop)
    requires
        issued(m),
    ensures
        issued(model::stop_step(m, kind, next).state),
{
    let after = model::stop_step(m, kind, next).state;
    assert forall|other: BindingKind| #[trigger]
        after.bindings.contains_key(other) implies issued_by(after, after.lifecycle(other)) by {
        assert(m.bindings.contains_key(other));
    }
}

proof fn lemma_observation_keeps_issued(m: DecisionModel, obs: ObservationModel)
    requires
        issued(m),
        model::observe_step(m, obs).state.fits(),
    ensures
        issued(model::observe_step(m, obs).state),
{
    let after = model::observe_step(m, obs).state;
    let mic = BindingKind::Microphone;
    let ep = BindingKind::EndpointLoopback;
    let process = BindingKind::ProcessLoopback;
    match obs {
        ObservationModel::DefaultEndpointChanged { flow, role, endpoint_id } => {
            let routed = DecisionModel { routes: m.routes.insert((flow, role), endpoint_id), ..m };
            let a = model::reroute_one(routed, mic, flow, role).state;
            let b = model::reroute_one(a, ep, flow, role).state;
            assert(issued(routed)) by {
                assert forall|kind: BindingKind| #[trigger]
                    routed.bindings.contains_key(kind) implies issued_by(
                    routed,
                    routed.lifecycle(kind),
                ) by {
                    assert(m.bindings.contains_key(kind));
                }
            }
            lemma_stop_keeps_issued(routed, mic, AfterStop::ResolveAndStart);
            lemma_stop_keeps_issued(a, ep, AfterStop::ResolveAndStart);
            lemma_stop_keeps_issued(b, process, AfterStop::ResolveAndStart);
        },
        ObservationModel::EndpointRemoved { endpoint_id } => {
            let next = AfterStop::WaitForRecovery { reason: WaitReason::DeviceUnavailable };
            let a = model::remove_one(m, mic, endpoint_id).state;
            let b = model::remove_one(a, ep, endpoint_id).state;
            lemma_stop_keeps_issued(m, mic, next);
            lemma_stop_keeps_issued(a, ep, next);
            lemma_stop_keeps_issued(b, process, next);
        },
        ObservationModel::EndpointAdded { endpoint_id } => {
            let a = model::add_one(m, mic, endpoint_id).state;
            let b = model::add_one(a, ep, endpoint_id).state;
            model::lemma_add_advances(a, ep, endpoint_id);
            model::lemma_add_advances(b, process, endpoint_id);
            model::lemma_fitted_before(b, after, 1);
            model::lemma_fitted_before(a, b, 1);
            model::lemma_add_advances(m, mic, endpoint_id);
            model::lemma_fitted_before(m, a, 1);
            if model::add_one(m, mic, endpoint_id) == model::start_step(m, mic) {
                lemma_start_keeps_issued(m, mic);
            }
            if model::add_one(a, ep, endpoint_id) == model::start_step(a, ep) {
                lemma_start_keeps_issued(a, ep);
            }
            if model::add_one(b, process, endpoint_id) == model::start_step(b, process) {
                lemma_start_keeps_issued(b, process);
            }
        },
        ObservationModel::ProcessExited { pid } => {
            lemma_stop_keeps_issued(
                m,
                process,
                AfterStop::WaitForRecovery { reason: WaitReason::ProcessNotFound },
            );
        },
        ObservationModel::ProcessRestarted { old_pid, new_pid } => {
            let binding = BindingModel {
                selection: model::with_pid(m.bindings[process].selection, new_pid),
                ..m.bindings[process]
            };
            let moved = DecisionModel { bindings: m.bindings.insert(process, binding), ..m };
            if model::captures_process(m, old_pid) {
                assert forall|kind: BindingKind| #[trigger]
                    moved.bindings.contains_key(kind) implies issued_by(
                    moved,
                    moved.lifecycle(kind),
                ) by {
                    assert(m.bindings.contains_key(kind));
                }
                lemma_stop_keeps_issued(moved, process, AfterStop::ResolveAndStart);
            }
        },
        ObservationModel::WorkerStopped { binding, operation_id, epoch } => {
            let stopped = m.set_lifecycle(binding, LifecycleModel::Stopped);
            if m.bindings.contains_key(binding) {
                assert forall|kind: BindingKind| #[trigger]
                    stopped.bindings.contains_key(kind) implies issued_by(
                    stopped,
                    stopped.lifecycle(kind),
                ) by {
                    assert(m.bindings.contains_key(kind));
                }
            }
            if after == model::start_step(stopped, binding).state && m.bindings.contains_key(
                binding,
            ) {
                lemma_start_keeps_issued(stopped, binding);
            } else {
                assert forall|kind: BindingKind| #[trigger]
                    after.bindings.contains_key(kind) implies issued_by(
                    after,
                    after.lifecycle(kind),
                ) by {
                    assert(m.bindings.contains_key(kind));
                }
            }
        },
        _ => {
            assert forall|kind: BindingKind| #[trigger]
                after.bindings.contains_key(kind) implies issued_by(after, after.lifecycle(kind)) by {
                assert(m.bindings.contains_key(kind));
            }
        },
    }
}

/// Every id that the state holds was handed out by its own counters: this is so of the
/// empty state, and every decision keeps it.
pub proof fn law_held_ids_were_issued(m: DecisionModel, input: InputModel)
    ensures
        issued(DecisionModel::empty()),
        issued(m) && model::decide_step(m, input).state.fits() ==> issued(
            model::decide_step(m, input).state,
        ),
{
    if issued(m) && model::decide_step(m, input).state.fits() {
        let after = model::decide_step(m, input).state;
        match input {
            InputModel::ShutdownRequested => {
                let closing = DecisionModel { shutdown: true, ..m };
                let next = AfterStop::RemainStopped;
                let a = model::shutdown_one(closing, BindingKind::Microphone).state;
                let b = model::shutdown_one(a, BindingKind::EndpointLoopback).state;
                assert forall|kind: BindingKind| #[trigger]
                    closing.bindings.contains_key(kind) implies issued_by(
                    closing,
                    closing.lifecycle(kind),
                ) by {
                    assert(m.bindings.contains_key(kind));
                }
                lemma_stop_keeps_issued(closing, BindingKind::Microphone, next);
                lemma_stop_keeps_issued(a, BindingKind::EndpointLoopback, next);
                lemma_stop_keeps_issued(b, BindingKind::ProcessLoopback, next);
            },
            InputModel::Start { binding } => {
                lemma_start_keeps_issued(m, binding);
            },
            InputModel::Stop { binding } => {
                lemma_stop_keeps_issued(m, binding, AfterStop::RemainStopped);
            },
            InputModel::RetryTimerFired { binding, .. } => {
                if after == model::start_step(m, binding).state {
                    lemma_start_keeps_issued(m, binding);
                }
            },
            InputModel::Observation(obs) => {
                lemma_observation_keeps_issued(m, obs);
            },
        }
    }
}

proof fn lemma_start_revives_nothing(
    m: DecisionModel,
    started: BindingKind,
    kind: BindingKind,
    epoch: StreamEpoch,
)
    requires
        !holds_epoch(m, kind, epoch),
        epoch.0 < m.next_stream_epoch,
        model::start_step(m, started).state.fits(),
    ensures
        !holds_epoch(model::start_step(m, started).state, kind, epoch),
        m.next_stream_epoch <= model::start_step(m, started).state.next_stream_epoch,
{
    model::lemma_start_advances(m, started);
    model::lemma_fitted_before(m, model::start_step(m, started).state, 1);
}

proof fn lemma_stop_revives_nothing(
    m: DecisionModel,
    stopped: BindingKind,
    next: AfterStop,
    kind: BindingKind,
    epoch: StreamEpoch,
)
    requires
        !holds_epoch(m, kind, epoch),
    ensures
        !holds_epoch(model::stop_step(m, stopped, next).state, kind, epoch),
        m.next_stream_epoch == model::stop_step(m, stopped, next).state.next_stream_epoch,
{
}

proof fn lemma_observation_revives_nothing(
    m: DecisionModel,
    obs: ObservationModel,
    kind: BindingKind,
    epoch: StreamEpoch,
)
    requires
        !holds_epoch(m, kind, epoch),
        epoch.0 < m.next_stream_epoch,
        model::observe_step(m, obs).state.fits(),
    ensures
        !holds_epoch(model::observe_step(m, obs).state, kind, epoch),
{
    let after = model::observe_step(m, obs).state;
    let mic = BindingKind::Microphone;
    let ep = BindingKind::EndpointLoopback;
    let process = BindingKind::ProcessLoopback;
    match obs {
        ObservationModel::DefaultEndpointChanged { flow, role, endpoint_id } => {
            let routed = DecisionModel { routes: m.routes.insert((flow, role), endpoint_id), ..m };
            let a = model::reroute_one(routed, mic, flow, role).state;
            let b = model::reroute_one(a, ep, flow, role).state;
            lemma_stop_revives_nothing(routed, mic, AfterStop::ResolveAndStart, kind, epoch);
            lemma_stop_revives_nothing(a, ep, AfterStop::ResolveAndStart, kind, epoch);
            lemma_stop_revives_nothing(b, process, AfterStop::ResolveAndStart, kind, epoch);
        },
        ObservationModel::EndpointRemoved { endpoint_id } => {
            let next = AfterStop::WaitForRecovery { reason: WaitReason::DeviceUnavailable };
            let a = model::remove_one(m, mic, endpoint_id).state;
            let b = model::remove_one(a, ep, endpoint_id).state;
            lemma_stop_revives_nothing(m, mic, next, kind, epoch);
            lemma_stop_revives_nothing(a, ep, next, kind, epoch);
            lemma_stop_revives_nothing(b, process, next, kind, epoch);
        },
        ObservationModel::EndpointAdded { endpoint_id } => {
            let a = model::add_one(m, mic, endpoint_id).state;
            let b = model::add_one(a, ep, endpoint_id).state;
            model::lemma_add_advances(m, mic, endpoint_id);
            model::lemma_add_advances(a, ep, endpoint_id);
            model::lemma_add_advances(b, process, endpoint_id);
            model::lemma_fitted_before(b, after, 1);
            model::lemma_fitted_before(a, b, 1);
            if model::add_one(m, mic, endpoint_id) == model::start_step(m, mic) {
                lemma_start_revives_nothing(m, mic, kind, epoch);
            }
            if model::add_one(a, ep, endpoint_id) == model::start_step(a, ep) {
                lemma_start_revives_nothing(a, ep, kind, epoch);
            }
            if model::add_one(b, process, endpoint_id) == model::start_step(b, process) {
                lemma_start_revives_nothing(b, process, kind, epoch);
            }
        },
        ObservationModel::WorkerStopped { binding, operation_id, epoch: e } => {
            let stopped = m.set_lifecycle(binding, LifecycleModel::Stopped);
            if after == model::start_step(stopped, binding).state && m.bindings.contains_key(
                binding,
            ) {
                lemma_start_revives_nothing(stopped, binding, kind, epoch);
            }
        },
        _ => {},
    }
}

/// A frame of an epoch that a binding has left is never accepted again: once an epoch
/// was handed out and no worker of the binding holds it, no later decision brings it
/// back.
pub proof fn law_left_epochs_stay_left(
    m: DecisionModel,
    input: InputModel,
    kind: BindingKind,
    epoch: StreamEpoch,
)
    requires
        !holds_epoch(m, kind, epoch),
        epoch.0 < m.next_stream_epoch,
        model::decide_step(m, input).state.fits(),
    ensures
        !m.accepts_epoch(kind, epoch),
        !holds_epoch(model::decide_step(m, input).state, kind, epoch),
        !model::decide_step(m, input).state.accepts_epoch(kind, epoch),
        epoch.0 < model::decide_step(m, input).state.next_stream_epoch,
{
    law_started_ids_are_fresh(m, input);
    match input {
        InputModel::ShutdownRequested => {
            let closing = DecisionModel { shutdown: true, ..m };
            let next = AfterStop::RemainStopped;
            let a = model::shutdown_one(closing, BindingKind::Microphone).state;
            let b = model::shutdown_one(a, BindingKind::EndpointLoopback).state;
            lemma_stop_revives_nothing(closing, BindingKind::Microphone, next, kind, epoch);
            lemma_stop_revives_nothing(a, BindingKind::EndpointLoopback, next, kind, epoch);
            lemma_stop_revives_nothing(b, BindingKind::ProcessLoopback, next, kind, epoch);
        },
        InputModel::Start { binding } => {
            lemma_start_revives_nothing(m, binding, kind, epoch);
        },
        InputModel::Stop { binding } => {
            lemma_stop_revives_nothing(m, binding, AfterStop::RemainStopped, kind, epoch);
        },
        InputModel::RetryTimerFired { binding, .. } => {
            if model::decide_step(m, input) == model::start_step(m, binding) {
                lemma_start_revives_nothing(m, binding, kind, epoch);
            }
        },
        InputModel::Observation(obs) => {
            lemma_observation_revives_nothing(m, obs, kind, epoch);
        },
    }
}

/// A pinned device that is unplugged and plugged in again is captured again: the loss
/// stops the worker, its end leaves the binding waiting, and the return of the endpoint
/// starts a new worker on that same endpoint.
pub proof fn law_pinned_device_recovers(
    m: DecisionModel,
    kind: BindingKind,
    endpoint_id: Seq<char>,
    operation_id: OperationId,
    epoch: StreamEpoch,
)
    requires
        !m.shutdown,
        kind != BindingKind::ProcessLoopback,
        m.bindings.contains_key(kind),
        m.bindings[kind].selection == (SelectionModel::Pinned { endpoint_id }),
        m.lifecycle(kind) == (LifecycleModel::Running {
            operation_id,
            epoch,
            target: TargetModel::Endpoint(endpoint_id),
        }),
    ensures
        ({
            let lost = model::decide_step(
                m,
                InputModel::Observation(ObservationModel::EndpointRemoved { endpoint_id }),
            ).state;
            let waiting = model::decide_step(
                lost,
                InputModel::Observation(
                    ObservationModel::WorkerStopped { binding: kind, operation_id, epoch },
                ),
            ).state;
            let back = model::decide_step(
                waiting,
                InputModel::Observation(ObservationModel::EndpointAdded { endpoint_id }),
            ).state;
            &&& lost.lifecycle(kind) is Stopping
            &&& waiting.lifecycle(kind) is Waiting
            &&& back.lifecycle(kind) matches LifecycleModel::Starting { target, .. }
            &&& target == TargetModel::Endpoint(endpoint_id)
        }),
{
    lemma_idle_on_remove(m, endpoint_id, kind);
    lemma_remove_joined(m, endpoint_id);
    let lost = model::remove_step(m, endpoint_id).state;
    let waiting = model::worker_stopped_step(lost, kind, operation_id, epoch).state;
    assert(lost.bindings[kind].selection == m.bindings[kind].selection);
    assert(waiting.bindings[kind].selection == m.bindings[kind].selection);
    let a = model::add_one(waiting, BindingKind::Microphone, endpoint_id);
    let b = model::add_one(a.state, BindingKind::EndpointLoopback, endpoint_id);
    let c = model::add_one(b.state, BindingKind::ProcessLoopback, endpoint_id);
    lemma_add_local(waiting, BindingKind::Microphone, endpoint_id);
    lemma_add_local(a.state, BindingKind::EndpointLoopback, endpoint_id);
    lemma_add_local(b.state, BindingKind::ProcessLoopback, endpoint_id);
    lemma_joined(waiting, a, b, c);
}

/// A binding that follows a default device moves with it: a new default stops the worker
/// that runs on another device, and its end starts a new worker on the new default.
pub proof fn law_follower_moves_to_the_new_default(
    m: DecisionModel,
    kind: BindingKind,
    flow: DataFlow,
    role: DeviceRole,
    endpoint_id: Seq<char>,
    operation_id: OperationId,
    epoch: StreamEpoch,
    target: TargetModel,
)
    requires
        !m.shutdown,
        kind != BindingKind::ProcessLoopback,
        m.bindings.contains_key(kind),
        m.bindings[kind].selection == (SelectionModel::FollowDefault { flow, role }),
        m.lifecycle(kind) == (LifecycleModel::Running { operation_id, epoch, target }),
        target != TargetModel::Endpoint(endpoint_id),
    ensures
        ({
            let moving = model::decide_step(
                m,
                InputModel::Observation(
                    ObservationModel::DefaultEndpointChanged {
                        flow,
                        role,
                        endpoint_id: Some(endpoint_id),
                    },
                ),
            ).state;
            let moved = model::decide_step(
                moving,
                InputModel::Observation(
                    ObservationModel::WorkerStopped { binding: kind, operation_id, epoch },
                ),
            ).state;
            &&& moving.lifecycle(kind) is Stopping
            &&& moved.lifecycle(kind) matches LifecycleModel::Starting { target, .. }
            &&& target == TargetModel::Endpoint(endpoint_id)
        }),
{
    lemma_idle_on_reroute(m, flow, role, Some(endpoint_id), kind);
    lemma_reroute_joined(m, flow, role, Some(endpoint_id));
    let routed = DecisionModel { routes: m.routes.insert((flow, role), Some(endpoint_id)), ..m };
    let a = model::reroute_one(routed, BindingKind::Microphone, flow, role);
    let b = model::reroute_one(a.state, BindingKind::EndpointLoopback, flow, role);
    let c = model::reroute_one(b.state, BindingKind::ProcessLoopback, flow, role);
    lemma_reroute_local(routed, BindingKind::Microphone, flow, role);
    lemma_reroute_local(a.state, BindingKind::EndpointLoopback, flow, role);
    lemma_reroute_local(b.state, BindingKind::ProcessLoopback, flow, role);
    lemma_joined(routed, a, b, c);
    assert(c.state.routes == routed.routes);
    assert(c.state.bindings[kind].selection == m.bindings[kind].selection);
}

/// A process that restarts is captured again: the restart stops the worker of the old
/// process, and its end starts a new worker on the new process.
pub proof fn law_restarted_process_is_captured_again(
    m: DecisionModel,
    exe_name: Seq<char>,
    pid: Option<u32>,
    old_pid: u32,
    new_pid: u32,
    operation_id: OperationId,
    epoch: StreamEpoch,
)
    requires
        !m.shutdown,
        m.bindings.contains_key(BindingKind::ProcessLoopback),
        m.bindings[BindingKind::ProcessLoopback].selection == (SelectionModel::Process {
            exe_name,
            pid,
        }),
        m.lifecycle(BindingKind::ProcessLoopback) == (LifecycleModel::Running {
            operation_id,
            epoch,
            target: TargetModel::Process { pid: old_pid },
        }),
    ensures
        ({
            let kind = BindingKind::ProcessLoopback;
            let moving = model::decide_step(
                m,
                InputModel::Observation(ObservationModel::ProcessRestarted { old_pid, new_pid }),
            ).state;
            let moved = model::decide_step(
                moving,
                InputModel::Observation(
                    ObservationModel::WorkerStopped { binding: kind, operation_id, epoch },
                ),
            ).state;
            &&& moving.lifecycle(kind) is Stopping
            &&& moved.lifecycle(kind) matches LifecycleModel::Starting { target, .. }
            &&& target == (TargetModel::Process { pid: new_pid })
        }),
{
}

/// A decision has at most one effect for each binding.
pub proof fn law_one_effect_per_binding(m: DecisionModel, input: InputModel)
    ensures
        model::decide_step(m, input).effects.len() <= 3,
        one_effect_each(model::decide_step(m, input)),
{
    match input {
        InputModel::ShutdownRequested => lemma_shutdown_joined(m),
        InputModel::Observation(
            ObservationModel::DefaultEndpointChanged { flow, role, endpoint_id },
        ) => lemma_reroute_joined(m, flow, role, endpoint_id),
        InputModel::Observation(ObservationModel::EndpointRemoved { endpoint_id }) =>
            lemma_remove_joined(m, endpoint_id),
        InputModel::Observation(ObservationModel::EndpointAdded { endpoint_id }) =>
            lemma_add_joined(m, endpoint_id),
        _ => {},
    }
}

/// Whether a step starts one worker, for a binding and on a target, and moves the binding
/// along with it.
pub open spec fn starts(s: Step, kind: BindingKind, target: TargetModel) -> bool {
    &&& s.effects.len() == 1
    &&& s.effects[0] matches EffectModel::StartCapture {
        binding,
        operation_id,
        proposed_epoch,
        target: on,
        ..
    } && binding == kind && on == target && s.state.lifecycle(kind) == (LifecycleModel::Starting {
        operation_id,
        proposed_epoch,
        target,
    })
}

/// Whether a step has no effects and leaves a binding waiting for a reason.
pub open spec fn only_waits(s: Step, kind: BindingKind, reason: WaitReason) -> bool {
    &&& s.effects.len() == 0
    &&& s.state.lifecycle(kind) == (LifecycleModel::Waiting { reason })
}

/// A binding that is stopped or waits starts, when it is asked to, on what its selection
/// says: on the endpoint that it is pinned to, on the default that it follows, on the
/// process that it selects. Where there is no such default or process, it waits for one.
/// In any other state it takes no notice.
pub proof fn law_a_start_goes_by_the_selection(m: DecisionModel, kind: BindingKind)
    requires
        m.bindings.contains_key(kind),
    ensures
        ({
            let s = model::decide_step(m, InputModel::Start { binding: kind });
            let listens = !m.shutdown && (m.lifecycle(kind) is Stopped || m.lifecycle(
                kind,
            ) is Waiting);
            &&& !listens ==> s.state == m && s.effects.len() == 0
            &&& listens ==> match m.bindings[kind].selection {
                SelectionModel::Pinned { endpoint_id } => starts(
                    s,
                    kind,
                    TargetModel::Endpoint(endpoint_id),
                ),
                SelectionModel::FollowDefault { flow, role } => match m.default_endpoint(
                    flow,
                    role,
                ) {
                    Some(endpoint_id) => starts(s, kind, TargetModel::Endpoint(endpoint_id)),
                    None => only_waits(s, kind, WaitReason::DeviceUnavailable),
                },
                SelectionModel::Process { pid: Some(pid), .. } => starts(
                    s,
                    kind,
                    TargetModel::Process { pid },
                ),
                SelectionModel::Process { pid: None, .. } => only_waits(
                    s,
                    kind,
                    WaitReason::DeviceUnavailable,
                ),
            }
        }),
{
}

/// A binding that is told to stop stops, and stays so: its worker is told to, the end of
/// the worker leaves it stopped, and neither a new endpoint nor a new default nor a timer
/// starts it again. What does not run takes no notice.
pub proof fn law_what_is_stopped_stays_stopped(
    m: DecisionModel,
    kind: BindingKind,
    endpoint_id: Seq<char>,
    flow: DataFlow,
    role: DeviceRole,
    new_default: Option<Seq<char>>,
    retry_id: u64,
)
    requires
        m.bindings.contains_key(kind),
    ensures
        ({
            let s = model::decide_step(m, InputModel::Stop { binding: kind });
            &&& !(m.lifecycle(kind) is Running) ==> s.state == m && s.effects.len() == 0
            &&& m.lifecycle(kind) matches LifecycleModel::Running { operation_id, epoch, .. } ==> {
                let end = model::decide_step(
                    s.state,
                    InputModel::Observation(
                        ObservationModel::WorkerStopped { binding: kind, operation_id, epoch },
                    ),
                );
                &&& s.effects.len() == 1
                &&& s.effects[0] matches EffectModel::StopCapture {
                    binding,
                    operation_id: op,
                    epoch: of,
                    ..
                } && binding == kind && op == operation_id && of == epoch
                &&& s.state.lifecycle(kind) is Stopping
                &&& end.effects.len() == 0
                &&& end.state.lifecycle(kind) is Stopped
            }
        }),
        m.lifecycle(kind) is Stopped ==> {
            &&& untouched(
                m,
                model::decide_step(
                    m,
                    InputModel::Observation(ObservationModel::EndpointAdded { endpoint_id }),
                ),
                kind,
            )
            &&& untouched(
                m,
                model::decide_step(
                    m,
                    InputModel::Observation(
                        ObservationModel::DefaultEndpointChanged {
                            flow,
                            role,
                            endpoint_id: new_default,
                        },
                    ),
                ),
                kind,
            )
            &&& untouched(
                m,
                model::decide_step(m, InputModel::RetryTimerFired { binding: kind, retry_id }),
                kind,
            )
        },
{
    lemma_idle_on_add(m, endpoint_id, kind);
    lemma_idle_on_reroute(m, flow, role, new_default, kind);
}

/// Whatever runs on an endpoint that is lost stops, follower and pinned binding alike, and
/// waits for a device once its worker has ended. What runs on another endpoint, or does
/// not run, is not touched.
pub proof fn law_a_lost_endpoint_stops_what_runs_on_it(
    m: DecisionModel,
    kind: BindingKind,
    endpoint_id: Seq<char>,
)
    requires
        kind != BindingKind::ProcessLoopback,
        m.bindings.contains_key(kind),
    ensures
        ({
            let s = model::decide_step(
                m,
                InputModel::Observation(ObservationModel::EndpointRemoved { endpoint_id }),
            );
            match m.lifecycle(kind) {
                LifecycleModel::Running { operation_id, epoch, target } => {
                    let end = model::decide_step(
                        s.state,
                        InputModel::Observation(
                            ObservationModel::WorkerStopped { binding: kind, operation_id, epoch },
                        ),
                    );
                    &&& target == TargetModel::Endpoint(endpoint_id) ==> {
                        &&& s.state.lifecycle(kind) is Stopping
                        &&& only_waits(end, kind, WaitReason::DeviceUnavailable)
                    }
                    &&& target != TargetModel::Endpoint(endpoint_id) ==> untouched(m, s, kind)
                },
                _ => untouched(m, s, kind),
            }
        }),
{
    lemma_idle_on_remove(m, endpoint_id, kind);
}

/// A new endpoint starts what waits and is pinned to it, and touches nothing else.
pub proof fn law_an_endpoint_starts_what_waits_for_it(
    m: DecisionModel,
    kind: BindingKind,
    endpoint_id: Seq<char>,
)
    requires
        m.bindings.contains_key(kind),
        !(m.lifecycle(kind) is Waiting) || m.bindings[kind].selection != (SelectionModel::Pinned {
            endpoint_id,
        }),
    ensures
        untouched(
            m,
            model::decide_step(
                m,
                InputModel::Observation(ObservationModel::EndpointAdded { endpoint_id }),
            ),
            kind,
        ),
{
    lemma_idle_on_add(m, endpoint_id, kind);
}

/// A new default is put down for its route and no other. It moves what follows that route
/// and runs, and touches nothing else; where the default is gone, a follower that ran
/// waits for one once its worker has ended.
pub proof fn law_a_new_default_moves_its_followers_only(
    m: DecisionModel,
    kind: BindingKind,
    flow: DataFlow,
    role: DeviceRole,
    endpoint_id: Option<Seq<char>>,
    other_flow: DataFlow,
    other_role: DeviceRole,
)
    requires
        m.bindings.contains_key(kind),
    ensures
        ({
            let s = model::decide_step(
                m,
                InputModel::Observation(
                    ObservationModel::DefaultEndpointChanged { flow, role, endpoint_id },
                ),
            );
            let follows = m.bindings[kind].selection == (SelectionModel::FollowDefault {
                flow,
                role,
            });
            &&& s.state.default_endpoint(flow, role) == endpoint_id
            &&& (other_flow, other_role) != (flow, role) ==> s.state.default_endpoint(
                other_flow,
                other_role,
            ) == m.default_endpoint(other_flow, other_role)
            &&& !follows || !(m.lifecycle(kind) is Running) ==> untouched(m, s, kind)
            &&& m.lifecycle(kind) matches LifecycleModel::Running { operation_id, epoch, .. } ==> {
                let end = model::decide_step(
                    s.state,
                    InputModel::Observation(
                        ObservationModel::WorkerStopped { binding: kind, operation_id, epoch },
                    ),
                );
                follows && kind != BindingKind::ProcessLoopback && endpoint_id is None
                    && !m.shutdown ==> s.state.lifecycle(kind) is Stopping && only_waits(
                    end,
                    kind,
                    WaitReason::DeviceUnavailable,
                )
            }
        }),
{
    lemma_idle_on_reroute(m, flow, role, endpoint_id, kind);
    lemma_reroute_joined(m, flow, role, endpoint_id);
    let routed = DecisionModel { routes: m.routes.insert((flow, role), endpoint_id), ..m };
    let s = model::reroute_step(m, flow, role, endpoint_id);
    assert(s.state.routes == routed.routes);
}

/// A process that exits is waited for where it was captured, and otherwise it is nothing
/// to anyone.
pub proof fn law_an_exited_process_is_waited_for(
    m: DecisionModel,
    pid: u32,
    operation_id: OperationId,
    epoch: StreamEpoch,
)
    ensures
        ({
            let kind = BindingKind::ProcessLoopback;
            let s = model::decide_step(
                m,
                InputModel::Observation(ObservationModel::ProcessExited { pid }),
            );
            let end = model::decide_step(
                s.state,
                InputModel::Observation(
                    ObservationModel::WorkerStopped { binding: kind, operation_id, epoch },
                ),
            );
            let captured = m.bindings.contains_key(kind) && m.lifecycle(kind) == (
            LifecycleModel::Running { operation_id, epoch, target: TargetModel::Process { pid } });
            &&& captured ==> s.state.lifecycle(kind) is Stopping && only_waits(
                end,
                kind,
                WaitReason::ProcessNotFound,
            )
            &&& m.bindings.contains_key(kind) && (m.lifecycle(kind) matches LifecycleModel::Running {
                target,
                ..
            } && target == (TargetModel::Process { pid })) || s.state == m && s.effects.len() == 0
        }),
{
}

/// A worker that has started as it was asked to is running: audio of its epoch is accepted
/// from then on, and of no other. Before that, and once it is told to stop, none is.
pub proof fn law_audio_is_accepted_while_its_worker_runs(
    m: DecisionModel,
    kind: BindingKind,
    operation_id: OperationId,
    proposed_epoch: StreamEpoch,
    planned: TargetModel,
    target: TargetModel,
    epoch: StreamEpoch,
)
    requires
        m.bindings.contains_key(kind),
        m.lifecycle(kind) == (LifecycleModel::Starting {
            operation_id,
            proposed_epoch,
            target: planned,
        }),
    ensures
        ({
            let s = model::decide_step(
                m,
                InputModel::Observation(
                    ObservationModel::WorkerStarted {
                        binding: kind,
                        operation_id,
                        epoch: proposed_epoch,
                        target,
                    },
                ),
            );
            let stopping = model::decide_step(s.state, InputModel::Stop { binding: kind }).state;
            &&& !m.accepts_epoch(kind, epoch)
            &&& s.effects.len() == 0
            &&& s.state.lifecycle(kind) == (LifecycleModel::Running {
                operation_id,
                epoch: proposed_epoch,
                target,
            })
            &&& s.state.bindings[kind].selection == m.bindings[kind].selection
            &&& s.state.accepts_epoch(kind, epoch) <==> epoch == proposed_epoch
            &&& !stopping.accepts_epoch(kind, epoch)
        }),
{
}

/// A worker that fails is tried again, while there are retries left: the binding waits, a
/// timer is asked for under the number of the failure, and when that timer fires, the
/// binding starts as its selection says.
pub proof fn law_a_failed_worker_is_tried_again(
    m: DecisionModel,
    kind: BindingKind,
    operation_id: OperationId,
    error: Seq<char>,
)
    requires
        m.bindings.contains_key(kind),
        m.bindings[kind].retry_attempt < 5,
        (m.lifecycle(kind) matches LifecycleModel::Starting { operation_id: of, .. } && of
            == operation_id) || (m.lifecycle(kind) matches LifecycleModel::Running {
            operation_id: of,
            ..
        } && of == operation_id),
    ensures
        ({
            let s = model::decide_step(
                m,
                InputModel::Observation(
                    ObservationModel::WorkerFailed { binding: kind, operation_id, error },
                ),
            );
            let failures = m.bindings[kind].retry_attempt + 1;
            let fired = model::decide_step(
                s.state,
                InputModel::RetryTimerFired { binding: kind, retry_id: failures as u64 },
            );
            &&& s.effects.len() == 1
            &&& s.effects[0] matches EffectModel::ScheduleRetry { binding, retry_id, attempt, .. }
                && binding == kind && retry_id == failures && attempt == failures
            &&& s.state.lifecycle(kind) == (LifecycleModel::Waiting {
                reason: WaitReason::RetryableFailure { attempt: failures as u32 },
            })
            &&& s.state.bindings[kind].retry_attempt == failures
            &&& s.state.bindings[kind].selection == m.bindings[kind].selection
            &&& fired == model::decide_step(s.state, InputModel::Start { binding: kind })
        }),
{
}

/// Whether a binding has its selection, and every route its default, as before.
pub open spec fn keeps(m: DecisionModel, later: DecisionModel, kind: BindingKind) -> bool {
    &&& later.bindings.contains_key(kind) == m.bindings.contains_key(kind)
    &&& m.bindings.contains_key(kind) ==> later.bindings[kind].selection
        == m.bindings[kind].selection
    &&& later.routes == m.routes
}

proof fn lemma_local_keeps(m: DecisionModel, s: Step, at: BindingKind, kind: BindingKind)
    requires
        local(m, s, at),
    ensures
        keeps(m, s.state, kind),
{
    assert(s.state.bindings.contains_key(kind) || !s.state.bindings.contains_key(kind));
}

proof fn lemma_shutdown_keeps(m: DecisionModel, kind: BindingKind)
    ensures
        keeps(m, model::shutdown_step(m).state, kind),
{
    let closing = DecisionModel { shutdown: true, ..m };
    let a = model::shutdown_one(closing, BindingKind::Microphone);
    let b = model::shutdown_one(a.state, BindingKind::EndpointLoopback);
    let c = model::shutdown_one(b.state, BindingKind::ProcessLoopback);
    lemma_stop_local(closing, BindingKind::Microphone, AfterStop::RemainStopped);
    lemma_stop_local(a.state, BindingKind::EndpointLoopback, AfterStop::RemainStopped);
    lemma_stop_local(b.state, BindingKind::ProcessLoopback, AfterStop::RemainStopped);
    lemma_local_keeps(closing, a, BindingKind::Microphone, kind);
    lemma_local_keeps(a.state, b, BindingKind::EndpointLoopback, kind);
    lemma_local_keeps(b.state, c, BindingKind::ProcessLoopback, kind);
}

proof fn lemma_reroute_keeps(
    m: DecisionModel,
    flow: DataFlow,
    role: DeviceRole,
    endpoint_id: Option<Seq<char>>,
    kind: BindingKind,
)
    ensures
        keeps(
            DecisionModel { routes: m.routes.insert((flow, role), endpoint_id), ..m },
            model::reroute_step(m, flow, role, endpoint_id).state,
            kind,
        ),
{
    let routed = DecisionModel { routes: m.routes.insert((flow, role), endpoint_id), ..m };
    let a = model::reroute_one(routed, BindingKind::Microphone, flow, role);
    let b = model::reroute_one(a.state, BindingKind::EndpointLoopback, flow, role);
    let c = model::reroute_one(b.state, BindingKind::ProcessLoopback, flow, role);
    lemma_reroute_local(routed, BindingKind::Microphone, flow, role);
    lemma_reroute_local(a.state, BindingKind::EndpointLoopback, flow, role);
    lemma_reroute_local(b.state, BindingKind::ProcessLoopback, flow, role);
    lemma_local_keeps(routed, a, BindingKind::Microphone, kind);
    lemma_local_keeps(a.state, b, BindingKind::EndpointLoopback, kind);
    lemma_local_keeps(b.state, c, BindingKind::ProcessLoopback, kind);
}

proof fn lemma_remove_keeps(m: DecisionModel, endpoint_id: Seq<char>, kind: BindingKind)
    ensures
        keeps(m, model::remove_step(m, endpoint_id).state, kind),
{
    let a = model::remove_one(m, BindingKind::Microphone, endpoint_id);
    let b = model::remove_one(a.state, BindingKind::EndpointLoopback, endpoint_id);
    let c = model::remove_one(b.state, BindingKind::ProcessLoopback, endpoint_id);
    lemma_remove_local(m, BindingKind::Microphone, endpoint_id);
    lemma_remove_local(a.state, BindingKind::EndpointLoopback, endpoint_id);
    lemma_remove_local(b.state, BindingKind::ProcessLoopback, endpoint_id);
    lemma_local_keeps(m, a, BindingKind::Microphone, kind);
    lemma_local_keeps(a.state, b, BindingKind::EndpointLoopback, kind);
    lemma_local_keeps(b.state, c, BindingKind::ProcessLoopback, kind);
}

proof fn lemma_add_keeps(m: DecisionModel, endpoint_id: Seq<char>, kind: BindingKind)
    ensures
        keeps(m, model::add_step(m, endpoint_id).state, kind),
{
    let a = model::add_one(m, BindingKind::Microphone, endpoint_id);
    let b = model::add_one(a.state, BindingKind::EndpointLoopback, endpoint_id);
    let c = model::add_one(b.state, BindingKind::ProcessLoopback, endpoint_id);
    lemma_add_local(m, BindingKind::Microphone, endpoint_id);
    lemma_add_local(a.state, BindingKind::EndpointLoopback, endpoint_id);
    lemma_add_local(b.state, BindingKind::ProcessLoopback, endpoint_id);
    lemma_local_keeps(m, a, BindingKind::Microphone, kind);
    lemma_local_keeps(a.state, b, BindingKind::EndpointLoopback, kind);
    lemma_local_keeps(b.state, c, BindingKind::ProcessLoopback, kind);
}

/// What a binding selects, and which endpoint is the default, changes only where that is
/// what is observed: the process that is selected comes back under another id, or a
/// default itself changes.
pub proof fn law_selections_are_kept(m: DecisionModel, input: InputModel, kind: BindingKind)
    requires
        !(input matches InputModel::Observation(obs) && obs is ProcessRestarted),
        !(input matches InputModel::Observation(obs) && obs is DefaultEndpointChanged),
    ensures
        keeps(m, model::decide_step(m, input).state, kind),
{
    match input {
        InputModel::ShutdownRequested => lemma_shutdown_keeps(m, kind),
        InputModel::Observation(ObservationModel::EndpointRemoved { endpoint_id }) =>
            lemma_remove_keeps(m, endpoint_id, kind),
        InputModel::Observation(ObservationModel::EndpointAdded { endpoint_id }) =>
            lemma_add_keeps(m, endpoint_id, kind),
        InputModel::Observation(
            ObservationModel::WorkerStopped { binding, operation_id, epoch },
        ) => {
            let stopped = m.set_lifecycle(binding, LifecycleModel::Stopped);
            lemma_start_local(stopped, binding);
            lemma_local_keeps(stopped, model::start_step(stopped, binding), binding, kind);
        },
        InputModel::Start { binding } => {
            lemma_start_local(m, binding);
            lemma_local_keeps(m, model::start_step(m, binding), binding, kind);
        },
        InputModel::RetryTimerFired { binding, .. } => {
            lemma_start_local(m, binding);
            lemma_local_keeps(m, model::start_step(m, binding), binding, kind);
        },
        InputModel::Stop { binding } => {
            lemma_stop_local(m, binding, AfterStop::RemainStopped);
            lemma_local_keeps(
                m,
                model::stop_step(m, binding, AfterStop::RemainStopped),
                binding,
                kind,
            );
        },
        _ => {},
    }
}

/// A new default changes no selection, and a process that comes back changes only which
/// process the process loopback selects: its id, and not the program.
pub proof fn law_a_restart_changes_the_process_only(
    m: DecisionModel,
    flow: DataFlow,
    role: DeviceRole,
    endpoint_id: Option<Seq<char>>,
    old_pid: u32,
    new_pid: u32,
    kind: BindingKind,
)
    requires
        m.bindings.contains_key(kind),
    ensures
        ({
            let rerouted = model::decide_step(
                m,
                InputModel::Observation(
                    ObservationModel::DefaultEndpointChanged { flow, role, endpoint_id },
                ),
            ).state;
            let restarted = model::decide_step(
                m,
                InputModel::Observation(ObservationModel::ProcessRestarted { old_pid, new_pid }),
            ).state;
            &&& rerouted.bindings[kind].selection == m.bindings[kind].selection
            &&& restarted.routes == m.routes
            &&& kind != BindingKind::ProcessLoopback ==> restarted.bindings[kind]
                == m.bindings[kind]
            &&& restarted.bindings[kind].selection == m.bindings[kind].selection || (
            m.bindings[kind].selection matches SelectionModel::Process { exe_name, .. }
                && restarted.bindings[kind].selection == (SelectionModel::Process {
                exe_name,
                pid: Some(new_pid),
            }))
        }),
{
    lemma_reroute_keeps(m, flow, role, endpoint_id, kind);
}

/// A worker that fails for the sixth time in a row is not tried again: the binding gives
/// up, nothing is scheduled, and the other bindings go on.
pub proof fn law_the_sixth_failure_in_a_row_is_the_last(
    m: DecisionModel,
    kind: BindingKind,
    other: BindingKind,
    operation_id: OperationId,
    error: Seq<char>,
)
    requires
        m.bindings.contains_key(kind),
        m.bindings[kind].retry_attempt == 5,
        (m.lifecycle(kind) matches LifecycleModel::Starting { operation_id: of, .. } && of
            == operation_id) || (m.lifecycle(kind) matches LifecycleModel::Running {
            operation_id: of,
            ..
        } && of == operation_id),
        other != kind,
        m.bindings.contains_key(other),
    ensures
        ({
            let s = model::decide_step(
                m,
                InputModel::Observation(
                    ObservationModel::WorkerFailed { binding: kind, operation_id, error },
                ),
            );
            &&& s.effects.len() == 0
            &&& s.state.lifecycle(kind) is Failed
            &&& s.state.bindings[kind].retry_attempt == 6
            &&& untouched(m, s, other)
        }),
{
}

} // verus!
