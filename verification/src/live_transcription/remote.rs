//! The remote track's side of live transcription: the silence gate, the idle timer, the
//! correction of timestamps, and reconnecting.
//!
//! The provider counts time by the samples it was given. Silence that is not sent makes
//! its clock run late, audio that only keeps the connection alive makes it run early, and
//! a new session starts its clock at zero. Every step is recorded in a
//! [`TimestampMapper`], so that what the provider reports can be brought back to the
//! time of the recording.

use super::reconnect::{GapClosing, ReconnectState};
use super::SttFailure;
use crate::silence_gate::{self, GateAction, GateConfig, SilenceGate, WindowLevel};
use crate::timestamp_mapper::{self, TimestampMapper};
use vstd::prelude::*;

verus! {

/// How long the track may go without audio before the connection has to be kept alive,
/// in nanoseconds. Well below what any provider waits before it closes a connection.
pub const REMOTE_KEEPALIVE_IDLE_THRESHOLD_NS: u64 = 5_000_000_000;

pub const NS_PER_SECOND: u64 = 1_000_000_000;

/// What keeping a connection alive came to.
#[derive(Debug, Clone, Copy, PartialEq, Eq, Structural)]
pub enum KeepAliveEffect {
    /// A message that is no audio.
    ControlMessage,
    /// Silent audio was sent, which the provider counts as it counts any audio.
    InjectedAudio { samples: u64 },
    Noop,
}

/// What to do with a chunk.
#[derive(Debug, PartialEq)]
pub enum ChunkPlan<'a, S> {
    /// Send it as it is.
    Plain(&'a [S]),
    /// Carry out these actions, in order.
    Gated(Vec<GateAction<'a, S>>),
}

/// The state of the remote track, without what the silence gate holds back.
#[verifier::ext_equal]
pub struct RemoteModel {
    pub session: bool,
    /// The checkpoints of the mapper, where timestamps are corrected at all.
    pub checkpoints: Option<Seq<(u64, i64)>>,
    pub samples_sent: int,
    pub total_injected: int,
    pub net_offset: int,
    pub last_active_ns: u64,
    pub reconnect: ReconnectState,
}

impl RemoteModel {
    /// How far the provider's clock has come, in samples.
    pub open spec fn position(self) -> int {
        self.samples_sent + self.total_injected
    }

    /// How far the capture has come, in samples, since the first session began.
    pub open spec fn captured(self) -> int {
        self.position() + self.net_offset
    }

    /// Whether the counts are within the machine integers.
    pub open spec fn fits(self) -> bool {
        &&& 0 <= self.samples_sent
        &&& 0 <= self.total_injected
        &&& self.position() <= u64::MAX
        &&& i64::MIN <= self.net_offset <= i64::MAX
    }
}

/// Whether the counts allow a new session to go on from them.
pub open spec fn can_reconnect(m: RemoteModel, target_rate_hz: u32, now_ns: u64) -> bool {
    &&& m.position() <= i64::MAX
    &&& outage_samples(m.reconnect, target_rate_hz, now_ns) <= i64::MAX
    &&& i64::MIN <= m.captured() <= i64::MAX
    &&& carry_over(m, target_rate_hz, now_ns) <= i64::MAX
}

/// The mapper's checkpoints with one at the current position.
pub open spec fn checkpointed(m: RemoteModel) -> Option<Seq<(u64, i64)>> {
    match m.checkpoints {
        Some(checkpoints) => Some(
            timestamp_mapper::recorded(checkpoints, m.position() as u64, m.net_offset as i64),
        ),
        None => None,
    }
}

/// A send of `len` samples, where there is a session.
pub open spec fn sent(m: RemoteModel, len: int) -> RemoteModel {
    if m.session {
        RemoteModel { samples_sent: m.samples_sent + len, ..m }
    } else {
        m
    }
}

/// A send of a span that the silence gate let through.
pub open spec fn sent_gated(m: RemoteModel, len: int, now_ns: u64) -> RemoteModel {
    let after = sent(m, len);
    RemoteModel { checkpoints: checkpointed(after), last_active_ns: now_ns, ..after }
}

/// A drop of `sample_count` samples.
pub open spec fn dropped(m: RemoteModel, sample_count: int) -> RemoteModel {
    let after = RemoteModel { net_offset: m.net_offset + sample_count, ..m };
    RemoteModel { checkpoints: checkpointed(after), ..after }
}

/// The connection was kept alive.
pub open spec fn kept_alive(m: RemoteModel, effect: KeepAliveEffect, now_ns: u64) -> RemoteModel {
    let after = match effect {
        KeepAliveEffect::InjectedAudio { samples } => {
            let injected = RemoteModel {
                net_offset: m.net_offset - samples,
                total_injected: m.total_injected + samples,
                ..m
            };
            RemoteModel { checkpoints: checkpointed(injected), ..injected }
        },
        _ => m,
    };
    RemoteModel { last_active_ns: now_ns, ..after }
}

/// Whether the connection is due to be kept alive.
pub open spec fn is_idle(m: RemoteModel, gated: bool, now_ns: u64) -> bool {
    m.session && gated && now_ns - m.last_active_ns >= REMOTE_KEEPALIVE_IDLE_THRESHOLD_NS
}

/// The session died.
pub open spec fn disconnected(
    m: RemoteModel,
    failure: Option<SttFailure>,
    now_ns: u64,
) -> RemoteModel {
    RemoteModel {
        session: false,
        reconnect: super::reconnect::disconnected(
            m.reconnect,
            super::reconnect::retryable(failure),
            now_ns,
        ),
        ..m
    }
}

/// The samples that an outage up to now has cost: while there is no session, whatever is
/// captured is lost, and only the clock tells how much that was.
pub open spec fn outage_samples(
    reconnect: ReconnectState,
    target_rate_hz: u32,
    now_ns: u64,
) -> int {
    match reconnect.disconnected_at_ns {
        Some(at_ns) => if now_ns >= at_ns {
            timestamp_mapper::round_div((now_ns - at_ns) * target_rate_hz, NS_PER_SECOND as int)
        } else {
            0
        },
        None => 0,
    }
}

/// Where the capture stands when a new session begins.
pub open spec fn carry_over(m: RemoteModel, target_rate_hz: u32, now_ns: u64) -> int {
    m.captured() + outage_samples(m.reconnect, target_rate_hz, now_ns)
}

/// A new session is open. Its clock starts at zero, so the mapper starts anew too, with
/// the whole of what came before as the offset at its beginning.
pub open spec fn reconnected(m: RemoteModel, target_rate_hz: u32, now_ns: u64) -> RemoteModel {
    let offset = carry_over(m, target_rate_hz, now_ns);
    RemoteModel {
        session: true,
        checkpoints: match m.checkpoints {
            Some(_) => Some(seq![(0u64, offset as i64)]),
            None => None,
        },
        samples_sent: 0,
        total_injected: 0,
        net_offset: match m.checkpoints {
            Some(_) => offset,
            None => m.net_offset,
        },
        last_active_ns: now_ns,
        reconnect: super::reconnect::at_rest(
            ReconnectState { open_gap_id: None, open_gap_start_ms: None, ..m.reconnect },
        ),
    }
}

/// Everything that live transcription keeps of the remote track. The silence gate, the idle timer
/// and the correction of timestamps are there together or not at all.
pub struct RemoteGateState<S> {
    /// Whether there is a session.
    pub session: bool,
    pub gate: Option<SilenceGate<S>>,
    pub mapper: Option<TimestampMapper>,
    /// Samples that were sent as audio, in the current session. Does not count what kept
    /// the connection alive.
    pub samples_sent: u64,
    /// Samples that kept the connection alive, in the current session. The provider's
    /// clock counts these as well, so every checkpoint lies at the sum of both.
    pub total_injected: u64,
    /// What was captured and not sent, less what was sent and not captured.
    pub net_offset: i64,
    /// When audio, or something to keep the connection alive, last went out.
    pub last_active_ns: u64,
    pub reconnect: ReconnectState,
}

/// The checkpoints of an optional mapper.
pub open spec fn checkpoints_of(mapper: Option<TimestampMapper>) -> Option<Seq<(u64, i64)>> {
    match mapper {
        Some(mapper) => Some(mapper.checkpoints@),
        None => None,
    }
}

impl<S> View for RemoteGateState<S> {
    type V = RemoteModel;

    open spec fn view(&self) -> RemoteModel {
        RemoteModel {
            session: self.session,
            checkpoints: checkpoints_of(self.mapper),
            samples_sent: self.samples_sent as int,
            total_injected: self.total_injected as int,
            net_offset: self.net_offset as int,
            last_active_ns: self.last_active_ns,
            reconnect: self.reconnect,
        }
    }
}

impl<S> RemoteGateState<S> {
    /// The silence gate and the mapper are there together or not at all. Checkpoints lie in
    /// order and none lies ahead of the provider's clock.
    pub open spec fn well_formed(&self) -> bool {
        &&& self.gate is Some == self.mapper is Some
        &&& self.gate matches Some(gate) ==> gate.well_formed()
        &&& self.mapper matches Some(mapper) ==> {
            &&& mapper.well_formed()
            &&& mapper.checkpoints@.len() > 0 ==> mapper.checkpoints@.last().0
                <= self@.position()
        }
        &&& self.reconnect.well_formed()
    }

    /// Whether everything but the model is as before.
    pub open spec fn same_setup(&self, before: &Self) -> bool {
        &&& self.gate == before.gate
        &&& self.mapper is Some == before.mapper is Some
        &&& self.mapper matches Some(mapper) ==> mapper.sample_rate_hz
            == before.mapper->0.sample_rate_hz
    }

    pub fn new(
        session: bool,
        silence_gate_enabled: bool,
        target_rate_hz: u32,
        now_ns: u64,
    ) -> (state: Self)
        ensures
            state.well_formed(),
            state@ == (RemoteModel {
                session,
                checkpoints: if silence_gate_enabled {
                    Some(Seq::<(u64, i64)>::empty())
                } else {
                    None
                },
                samples_sent: 0,
                total_injected: 0,
                net_offset: 0,
                last_active_ns: now_ns,
                reconnect: state.reconnect,
            }),
            state.reconnect == super::reconnect::at_rest(state.reconnect),
            state.reconnect.open_gap_id is None,
            state.reconnect.open_gap_start_ms is None,
            state.gate is Some == silence_gate_enabled,
            state.gate matches Some(gate) ==> {
                &&& gate.limits() == silence_gate::limits(
                    (GateConfig {
                        sample_rate_hz: target_rate_hz,
                        vad_window_ms: 100,
                        hangover_ms: 1_000,
                        pre_roll_ms: 200,
                    }),
                )
                &&& gate.model() == silence_gate::fresh_gate::<S>()
            },
            state.mapper matches Some(mapper) ==> mapper.sample_rate_hz == target_rate_hz,
    {
        let gate: Option<SilenceGate<S>> = if silence_gate_enabled {
            let config = GateConfig { sample_rate_hz: target_rate_hz, ..GateConfig::default() };
            assert(config.sample_rate_hz * 1_000 / 1_000 <= u32::MAX);
            assert(config.sample_rate_hz * 100 / 1_000 <= u32::MAX);
            assert(config.sample_rate_hz * 200 / 1_000 <= u32::MAX);
            Some(SilenceGate::new(config))
        } else {
            None
        };
        let mapper: Option<TimestampMapper> = if silence_gate_enabled {
            Some(TimestampMapper::new(target_rate_hz))
        } else {
            None
        };
        RemoteGateState {
            session,
            gate,
            mapper,
            samples_sent: 0,
            total_injected: 0,
            net_offset: 0,
            last_active_ns: now_ns,
            reconnect: ReconnectState::new(),
        }
    }

    pub fn is_active(&self) -> (active: bool)
        ensures
            active == self.session,
    {
        self.session
    }

    /// Whether silence is held back on this track, and with it whether the connection has
    /// to be kept alive and timestamps have to be corrected.
    pub fn gate_enabled(&self) -> (enabled: bool)
        ensures
            enabled == self.gate is Some,
    {
        self.gate.is_some()
    }

    pub fn timestamp_mapper(&self) -> (mapper: Option<&TimestampMapper>)
        ensures
            mapper is Some == self.mapper is Some,
            mapper matches Some(mapper) ==> *mapper == self.mapper->0,
    {
        match &self.mapper {
            Some(mapper) => Some(mapper),
            None => None,
        }
    }

    fn record_checkpoint(&mut self)
        requires
            old(self).well_formed(),
            old(self)@.fits(),
        ensures
            final(self).well_formed(),
            final(self)@ == (RemoteModel { checkpoints: checkpointed(old(self)@), ..old(self)@ }),
            final(self).same_setup(old(self)),
    {
        let position: u64 = self.samples_sent + self.total_injected;
        match self.mapper.take() {
            Some(mapper) => {
                let mut mapper: TimestampMapper = mapper;
                mapper.record_checkpoint(position, self.net_offset);
                self.mapper = Some(mapper);
            },
            None => {},
        }
    }

    /// Routes a chunk through the silence gate, where there is one. `levels` is how loud each
    /// window of the chunk is.
    pub fn handle_chunk<'a>(&mut self, samples: &'a [S], levels: &[WindowLevel]) -> (plan:
        ChunkPlan<'a, S>) where S: Copy
        requires
            old(self).well_formed(),
            old(self).gate matches Some(gate) ==> levels@.len() == crate::segmenter::segment_count(
                samples@.len() as int,
                gate.limits().window,
            ),
        ensures
            final(self).well_formed(),
            final(self)@ == old(self)@,
            final(self).mapper == old(self).mapper,
            match old(self).gate {
                Some(gate) => {
                    let (after, outcomes) = silence_gate::run(
                        gate.limits(),
                        gate.model(),
                        samples@,
                        levels@,
                        levels@.len() as int,
                    );
                    &&& final(self).gate matches Some(next) && next.limits() == gate.limits()
                        && next.model() == after
                    &&& plan matches ChunkPlan::Gated(actions) && silence_gate::actions_of(
                        actions@,
                    ) == silence_gate::joined(outcomes)
                },
                None => {
                    &&& final(self).gate is None
                    &&& plan matches ChunkPlan::Plain(span) && span@ == samples@
                },
            },
    {
        match self.gate.take() {
            Some(gate) => {
                let mut gate: SilenceGate<S> = gate;
                let actions: Vec<GateAction<'a, S>> = gate.process(samples, levels);
                self.gate = Some(gate);
                ChunkPlan::Gated(actions)
            },
            None => ChunkPlan::Plain(samples),
        }
    }

    /// Counts a send of `len` samples and says where in the session they begin. Without a
    /// session there is nothing to send to.
    pub fn send_unconditional(&mut self, len: usize) -> (start_sample: Option<u64>)
        requires
            old(self).well_formed(),
            old(self).session ==> old(self).samples_sent + len <= u64::MAX,
        ensures
            final(self).well_formed(),
            final(self)@ == sent(old(self)@, len as int),
            final(self).same_setup(old(self)),
            start_sample == if old(self).session {
                Some(old(self).samples_sent)
            } else {
                None
            },
    {
        if !self.session {
            return None;
        }
        let start: u64 = self.samples_sent;
        self.samples_sent = start + len as u64;
        Some(start)
    }

    /// Counts a send of a span that the silence gate let through.
    pub fn send_gated(&mut self, len: usize, now_ns: u64) -> (start_sample: Option<u64>)
        requires
            old(self).well_formed(),
            sent(old(self)@, len as int).fits(),
        ensures
            final(self).well_formed(),
            final(self)@ == sent_gated(old(self)@, len as int, now_ns),
            final(self).same_setup(old(self)),
            start_sample == if old(self).session {
                Some(old(self).samples_sent)
            } else {
                None
            },
    {
        let start: Option<u64> = self.send_unconditional(len);
        self.record_checkpoint();
        self.last_active_ns = now_ns;
        start
    }

    /// Counts samples that were silence and are gone.
    pub fn record_drop(&mut self, sample_count: u64)
        requires
            old(self).well_formed(),
            sample_count <= i64::MAX,
            dropped(old(self)@, sample_count as int).fits(),
        ensures
            final(self).well_formed(),
            final(self)@ == dropped(old(self)@, sample_count as int),
            final(self).same_setup(old(self)),
    {
        self.net_offset = self.net_offset + sample_count as i64;
        self.record_checkpoint();
    }

    /// Whether the connection has to be kept alive now.
    pub fn keep_alive_if_idle(&self, now_ns: u64) -> (due: bool)
        ensures
            due == is_idle(self@, self.gate is Some, now_ns),
    {
        self.session && self.gate.is_some() && now_ns >= self.last_active_ns && now_ns
            - self.last_active_ns >= REMOTE_KEEPALIVE_IDLE_THRESHOLD_NS
    }

    /// Counts what keeping the connection alive came to.
    pub fn note_keep_alive(&mut self, effect: KeepAliveEffect, now_ns: u64)
        requires
            old(self).well_formed(),
            effect matches KeepAliveEffect::InjectedAudio { samples } ==> samples <= i64::MAX,
            kept_alive(old(self)@, effect, now_ns).fits(),
        ensures
            final(self).well_formed(),
            final(self)@ == kept_alive(old(self)@, effect, now_ns),
            final(self).same_setup(old(self)),
    {
        match effect {
            KeepAliveEffect::InjectedAudio { samples } => {
                self.net_offset = self.net_offset - samples as i64;
                self.total_injected = self.total_injected + samples;
                self.record_checkpoint();
            },
            _ => {},
        }
        self.last_active_ns = now_ns;
    }

    /// Takes the session away to end it, and says whether there was one.
    pub fn finalize(&mut self) -> (had_session: bool)
        requires
            old(self).well_formed(),
        ensures
            final(self).well_formed(),
            final(self)@ == (RemoteModel { session: false, ..old(self)@ }),
            final(self).same_setup(old(self)),
            had_session == old(self).session,
    {
        let had_session: bool = self.session;
        self.session = false;
        had_session
    }

    /// The session died: it is dropped at once, so that nothing is sent to it any more.
    /// Says when a gap begins that has to be put on record.
    pub fn note_disconnect(&mut self, failure: &Option<SttFailure>, now_ns: u64) -> (gap: Option<
        u64,
    >)
        requires
            old(self).well_formed(),
            super::reconnect::clock_has_room(now_ns),
        ensures
            final(self).well_formed(),
            final(self)@ == disconnected(old(self)@, *failure, now_ns),
            final(self).same_setup(old(self)),
            gap == super::reconnect::gap_start(old(self).reconnect, now_ns),
    {
        self.session = false;
        self.reconnect.note_disconnect_and_maybe_reconnect(failure, now_ns)
    }

    /// A new session is open. Says what becomes of the gap on record, if there is one.
    pub fn apply_reconnect_offset(&mut self, target_rate_hz: u32, now_ns: u64) -> (closing: Option<
        GapClosing,
    >)
        requires
            old(self).well_formed(),
            old(self).mapper is Some ==> can_reconnect(old(self)@, target_rate_hz, now_ns),
        ensures
            final(self).well_formed(),
            final(self)@ == reconnected(old(self)@, target_rate_hz, now_ns),
            final(self).gate == old(self).gate,
            final(self).mapper is Some == old(self).mapper is Some,
            final(self).mapper matches Some(mapper) ==> mapper.sample_rate_hz == target_rate_hz,
            closing == super::reconnect::gap_closing(old(self).reconnect, now_ns),
    {
        let closing: Option<GapClosing> = self.reconnect.close_open_gap(now_ns);
        if self.mapper.is_some() {
            let outage: u64 = self.outage(target_rate_hz, now_ns);
            let carried: i64 = (self.samples_sent + self.total_injected) as i64 + self.net_offset;
            let offset: i64 = carried + outage as i64;
            let mut fresh: TimestampMapper = TimestampMapper::new(target_rate_hz);
            fresh.record_checkpoint(0, offset);
            assert(fresh.checkpoints@ =~= seq![(0u64, offset)]);
            self.mapper = Some(fresh);
            self.net_offset = offset;
        }
        self.session = true;
        self.samples_sent = 0;
        self.total_injected = 0;
        self.last_active_ns = now_ns;
        self.reconnect.reset();
        closing
    }

    fn outage(&self, target_rate_hz: u32, now_ns: u64) -> (samples: u64)
        requires
            outage_samples(self.reconnect, target_rate_hz, now_ns) <= i64::MAX,
        ensures
            samples == outage_samples(self.reconnect, target_rate_hz, now_ns),
    {
        match self.reconnect.disconnected_at_ns {
            Some(at_ns) => {
                if now_ns >= at_ns {
                    let elapsed: u64 = now_ns - at_ns;
                    assert(0 <= elapsed * target_rate_hz <= u64::MAX * u32::MAX)
                        by (nonlinear_arith)
                        requires
                            0 <= elapsed <= u64::MAX,
                            0 <= target_rate_hz <= u32::MAX,
                    ;
                    let scaled: u128 = elapsed as u128 * target_rate_hz as u128;
                    ((scaled + NS_PER_SECOND as u128 / 2) / NS_PER_SECOND as u128) as u64
                } else {
                    0
                }
            },
            None => 0,
        }
    }
}

/// Every captured sample counts once: a send and a drop move the capture on by their
/// length, audio that only keeps the connection alive does not, and an outage moves it on
/// by its length.
pub proof fn law_capture_time_is_kept(
    m: RemoteModel,
    len: int,
    samples: u64,
    target_rate_hz: u32,
    now_ns: u64,
)
    requires
        m.session,
        m.checkpoints is Some,
    ensures
        sent_gated(m, len, now_ns).captured() == m.captured() + len,
        dropped(m, len).captured() == m.captured() + len,
        kept_alive(m, KeepAliveEffect::InjectedAudio { samples }, now_ns).captured()
            == m.captured(),
        reconnected(m, target_rate_hz, now_ns).captured() == m.captured() + outage_samples(
            m.reconnect,
            target_rate_hz,
            now_ns,
        ),
{
}

/// After every step, the offset in force at the provider's clock is the current one.
pub proof fn law_checkpoints_are_current(
    m: RemoteModel,
    len: int,
    samples: u64,
    target_rate_hz: u32,
    now_ns: u64,
)
    requires
        m.checkpoints is Some,
        sent_gated(m, len, now_ns).fits(),
        dropped(m, len).fits(),
        kept_alive(m, KeepAliveEffect::InjectedAudio { samples }, now_ns).fits(),
        can_reconnect(m, target_rate_hz, now_ns),
    ensures
        is_current(sent_gated(m, len, now_ns)),
        is_current(dropped(m, len)),
        is_current(kept_alive(m, KeepAliveEffect::InjectedAudio { samples }, now_ns)),
        is_current(reconnected(m, target_rate_hz, now_ns)),
{
    lemma_checkpoint_is_current(sent(m, len));
    lemma_checkpoint_is_current(RemoteModel { net_offset: m.net_offset + len, ..m });
    lemma_checkpoint_is_current(
        RemoteModel {
            net_offset: m.net_offset - samples,
            total_injected: m.total_injected + samples,
            ..m
        },
    );
    let after = reconnected(m, target_rate_hz, now_ns);
    assert(after.checkpoints->0.last() == (0u64, after.net_offset as i64));
    lemma_outage_is_not_negative(m.reconnect, target_rate_hz, now_ns);
}

/// Whether the offset in force at the provider's clock is the current one.
pub open spec fn is_current(m: RemoteModel) -> bool {
    timestamp_mapper::offset_at(m.checkpoints->0, m.position()) == m.net_offset
}

proof fn lemma_outage_is_not_negative(reconnect: ReconnectState, rate: u32, now_ns: u64)
    ensures
        outage_samples(reconnect, rate, now_ns) >= 0,
{
    if reconnect.disconnected_at_ns is Some && now_ns >= reconnect.disconnected_at_ns->0 {
        let elapsed = now_ns - reconnect.disconnected_at_ns->0;
        assert(elapsed * rate >= 0) by (nonlinear_arith)
            requires
                elapsed >= 0,
                rate >= 0,
        ;
    }
}

proof fn lemma_checkpoint_is_current(m: RemoteModel)
    requires
        m.checkpoints is Some,
        0 <= m.position() <= u64::MAX,
        i64::MIN <= m.net_offset <= i64::MAX,
    ensures
        is_current(RemoteModel { checkpoints: checkpointed(m), ..m }),
{
    let after = timestamp_mapper::recorded(
        m.checkpoints->0,
        m.position() as u64,
        m.net_offset as i64,
    );
    assert(after.last() == (m.position() as u64, m.net_offset as i64));
}

proof fn lemma_round_shift(n: int, t: int, d: int)
    requires
        d > 0,
        t >= 0,
    ensures
        timestamp_mapper::round_div(n, d) + t <= timestamp_mapper::round_div(n + t * d, d),
{
    let h = d / 2;
    if n >= 0 {
        assert(n + t * d >= 0) by (nonlinear_arith)
            requires
                n >= 0,
                t >= 0,
                d > 0,
        ;
        vstd::arithmetic::div_mod::lemma_hoist_over_denominator(n + h, t, d as nat);
    } else if n + t * d < 0 {
        vstd::arithmetic::div_mod::lemma_hoist_over_denominator(-n - t * d + h, t, d as nat);
    } else {
        vstd::arithmetic::div_mod::lemma_hoist_over_denominator(h + n, t, d as nat);
        let u = (-n + h) / d;
        let v = (h + n) / d;
        vstd::arithmetic::div_mod::lemma_fundamental_div_mod(-n + h, d);
        vstd::arithmetic::div_mod::lemma_fundamental_div_mod(h + n, d);
        assert(u + v >= 0) by (nonlinear_arith)
            requires
                d > 0,
                2 * h >= d - 1,
                -n + h <= d * u + d - 1,
                h + n <= d * v + d - 1,
        ;
    }
}

proof fn lemma_round_grows(n: int, m: int, d: int)
    requires
        d > 0,
        n <= m,
    ensures
        timestamp_mapper::round_div(n, d) <= timestamp_mapper::round_div(m, d),
{
    let h = d / 2;
    if n >= 0 {
        vstd::arithmetic::div_mod::lemma_div_is_ordered(n + h, m + h, d);
    } else if m < 0 {
        vstd::arithmetic::div_mod::lemma_div_is_ordered(-m + h, -n + h, d);
    } else {
        vstd::arithmetic::div_mod::lemma_div_pos_is_pos(-n + h, d);
        vstd::arithmetic::div_mod::lemma_div_pos_is_pos(m + h, d);
    }
}

/// Timestamps do not jump back when a session is replaced: whatever the old session
/// reported of audio that had been captured by then, comes out at or before anything that
/// the new session reports.
pub proof fn law_time_does_not_jump_back(
    m: RemoteModel,
    target_rate_hz: u32,
    now_ns: u64,
    old_ms: u64,
    new_ms: u64,
)
    requires
        m.checkpoints is Some,
        m.checkpoints->0.len() > 0,
        target_rate_hz > 0,
        old_ms * target_rate_hz + timestamp_mapper::offset_at(
            m.checkpoints->0,
            timestamp_mapper::samples_in(old_ms as int, target_rate_hz as int),
        ) * 1000 <= m.captured() * 1000,
        i64::MIN <= carry_over(m, target_rate_hz, now_ns) <= i64::MAX,
    ensures
        timestamp_mapper::wallclock(m.checkpoints->0, target_rate_hz as int, old_ms as int)
            <= timestamp_mapper::wallclock(
            reconnected(m, target_rate_hz, now_ns).checkpoints->0,
            target_rate_hz as int,
            new_ms as int,
        ),
{
    let rate = target_rate_hz as int;
    let offset = timestamp_mapper::offset_at(
        m.checkpoints->0,
        timestamp_mapper::samples_in(old_ms as int, rate),
    );
    let carried = carry_over(m, target_rate_hz, now_ns);
    lemma_outage_is_not_negative(m.reconnect, target_rate_hz, now_ns);
    lemma_round_shift(offset * 1000, old_ms as int, rate);
    lemma_round_grows(offset * 1000 + old_ms * rate, carried * 1000, rate);
    law_new_session_goes_on_from_the_capture(m, target_rate_hz, now_ns, new_ms);
}

/// What a new session reports is corrected by where the capture stood when it began: all
/// that was captured before, sent or not, and the whole of the outage.
pub proof fn law_new_session_goes_on_from_the_capture(
    m: RemoteModel,
    target_rate_hz: u32,
    now_ns: u64,
    new_ms: u64,
)
    requires
        m.checkpoints is Some,
        target_rate_hz > 0,
        i64::MIN <= carry_over(m, target_rate_hz, now_ns) <= i64::MAX,
    ensures
        timestamp_mapper::wallclock(
            reconnected(m, target_rate_hz, now_ns).checkpoints->0,
            target_rate_hz as int,
            new_ms as int,
        ) == timestamp_mapper::clamp_u64(
            new_ms + timestamp_mapper::round_div(
                (m.captured() + outage_samples(m.reconnect, target_rate_hz, now_ns)) * 1000,
                target_rate_hz as int,
            ),
        ),
{
    let rate = target_rate_hz as int;
    let fresh = reconnected(m, target_rate_hz, now_ns).checkpoints->0;
    assert(fresh.last() == (0u64, carry_over(m, target_rate_hz, now_ns) as i64));
    assert(new_ms * rate >= 0) by (nonlinear_arith)
        requires
            new_ms >= 0,
            rate > 0,
    ;
    vstd::arithmetic::div_mod::lemma_div_pos_is_pos(new_ms * rate, 1000);
}

/// A connection is kept alive once it has been quiet for five seconds and not before, and
/// only where there is one and silence is held back at all. Keeping it alive, and sending
/// a span that the silence gate let through, start the five seconds anew; dropping silence
/// does not.
pub proof fn law_a_quiet_connection_is_kept_alive(
    m: RemoteModel,
    len: int,
    effect: KeepAliveEffect,
    now_ns: u64,
    later_ns: u64,
)
    ensures
        is_idle(m, true, now_ns) <==> m.session && now_ns >= m.last_active_ns + 5_000_000_000,
        !is_idle(m, false, now_ns),
        is_idle(kept_alive(m, effect, now_ns), true, later_ns) <==> m.session && later_ns >= now_ns
            + 5_000_000_000,
        is_idle(sent_gated(m, len, now_ns), true, later_ns) <==> m.session && later_ns >= now_ns
            + 5_000_000_000,
        is_idle(dropped(m, len), true, later_ns) <==> is_idle(m, true, later_ns),
{
}

/// The provider's clock goes on by what it is sent, as audio or to keep the connection
/// alive, and by nothing else; without a session nothing is sent.
pub proof fn law_the_provider_counts_what_it_is_sent(
    m: RemoteModel,
    len: int,
    samples: u64,
    failure: Option<SttFailure>,
    now_ns: u64,
)
    ensures
        m.session ==> sent(m, len).position() == m.position() + len,
        m.session ==> sent_gated(m, len, now_ns).position() == m.position() + len,
        !m.session ==> sent(m, len) == m,
        !m.session ==> sent_gated(m, len, now_ns).position() == m.position(),
        dropped(m, len).position() == m.position(),
        kept_alive(m, KeepAliveEffect::InjectedAudio { samples }, now_ns).position()
            == m.position() + samples,
        kept_alive(m, KeepAliveEffect::InjectedAudio { samples }, now_ns).samples_sent
            == m.samples_sent,
        kept_alive(m, KeepAliveEffect::ControlMessage, now_ns) == (RemoteModel {
            last_active_ns: now_ns,
            ..m
        }),
        kept_alive(m, KeepAliveEffect::Noop, now_ns) == (RemoteModel {
            last_active_ns: now_ns,
            ..m
        }),
        disconnected(m, failure, now_ns).position() == m.position(),
        disconnected(m, failure, now_ns).captured() == m.captured(),
        disconnected(m, failure, now_ns).checkpoints == m.checkpoints,
        !disconnected(m, failure, now_ns).session,
{
}

/// An outage counts as the samples that fit into it, to the nearest, and where none is
/// known of, or the clock stands before its beginning, as nothing.
pub proof fn law_an_outage_counts_as_the_audio_it_cost(
    reconnect: ReconnectState,
    target_rate_hz: u32,
    now_ns: u64,
)
    ensures
        reconnect.disconnected_at_ns is None ==> outage_samples(reconnect, target_rate_hz, now_ns)
            == 0,
        reconnect.disconnected_at_ns matches Some(at_ns) ==> now_ns < at_ns ==> outage_samples(
            reconnect,
            target_rate_hz,
            now_ns,
        ) == 0,
        reconnect.disconnected_at_ns matches Some(at_ns) ==> now_ns >= at_ns ==> -1_000_000_000
            < 2 * (outage_samples(reconnect, target_rate_hz, now_ns) * 1_000_000_000 - (now_ns
            - at_ns) * target_rate_hz) <= 1_000_000_000,
{
    if reconnect.disconnected_at_ns is Some && now_ns >= reconnect.disconnected_at_ns->0 {
        let elapsed = now_ns - reconnect.disconnected_at_ns->0;
        assert(elapsed * target_rate_hz >= 0) by (nonlinear_arith)
            requires
                elapsed >= 0,
                target_rate_hz >= 0,
        ;
        timestamp_mapper::law_rounding_is_to_nearest(
            elapsed * target_rate_hz,
            NS_PER_SECOND as int,
        );
    }
}

/// A new session counts from nothing, has a gap no more, and is fresh: it is not due to be
/// kept alive for another five seconds.
pub proof fn law_a_new_session_counts_from_nothing(
    m: RemoteModel,
    target_rate_hz: u32,
    now_ns: u64,
    later_ns: u64,
)
    ensures
        ({
            let after = reconnected(m, target_rate_hz, now_ns);
            &&& after.session
            &&& after.samples_sent == 0
            &&& after.total_injected == 0
            &&& after.checkpoints is Some <==> m.checkpoints is Some
            &&& after.reconnect.open_gap_id is None
            &&& after.reconnect.open_gap_start_ms is None
            &&& after.reconnect.disconnected_at_ns is None
            &&& after.reconnect.retry_at_ns is None
            &&& after.reconnect.attempt == 0
            &&& !after.reconnect.in_flight
            &&& is_idle(after, true, later_ns) <==> later_ns >= now_ns + 5_000_000_000
        }),
{
}

} // verus!
