//! Cheap speech/silence gate that decides whether a chunk of audio is worth sending to
//! a metered streaming transcription session at all.
//!
//! [`SilenceGate::process`] walks the pushed samples in windows of a fixed size, runs
//! a `Speaking`/`Hangover`/`Silent` state machine per window, and returns the resulting
//! [`GateAction`]s; adjacent windows that come to the same kind of action are joined
//! into one. How loud a window is, is measured by the caller, who hands in one
//! [`WindowLevel`] per window; [`SilenceGate::windows`] says where the windows lie.

use crate::segmenter;
use std::collections::VecDeque;
use vstd::prelude::*;

verus! {

/// What the caller should do with a span of audio. Several of these can come from one
/// push, in order, since one push can span more than one state transition.
#[derive(Debug, PartialEq)]
pub enum GateAction<'a, S> {
    /// Send this span as it is: speech, or within the grace period after it.
    Send(&'a [S]),
    /// Send this buffer: the audio held from just before speech was detected, followed
    /// by the window in which it was.
    SendStitched(Vec<S>),
    /// This many samples were silence and are gone: never sent, and no longer held for
    /// a later stitch either.
    Drop { sample_count: u64 },
}

/// How loud a window is, held against the two thresholds of the silence gate. The thresholds
/// differ (hysteresis), so that borderline audio does not flap between states.
#[derive(Debug, Clone, Copy, PartialEq, Eq, Structural)]
pub struct WindowLevel {
    /// Below the threshold under which silence begins.
    pub below_silent: bool,
    /// At or above the threshold from which on a window counts as speech.
    pub at_speaking: bool,
}

/// Tunables of [`SilenceGate`]. All `_ms` fields are milliseconds; `sample_rate_hz` must
/// match the audio that is pushed.
#[derive(Debug, Clone, Copy, PartialEq, Eq, Structural)]
pub struct GateConfig {
    pub sample_rate_hz: u32,
    /// Granularity at which the level is measured: the state machine advances one
    /// window at a time.
    pub vad_window_ms: u32,
    /// How long a pause may last before it counts as silence. The window in which the
    /// level first drops is always sent in full, so the grace period is one window at
    /// least.
    pub hangover_ms: u32,
    /// How much audio from just before detected speech is stitched to the front of it,
    /// so that the first consonant is not clipped.
    pub pre_roll_ms: u32,
}

impl Default for GateConfig {
    fn default() -> (config: Self)
        ensures
            config == (GateConfig {
                sample_rate_hz: 16_000,
                vad_window_ms: 100,
                hangover_ms: 1_000,
                pre_roll_ms: 200,
            }),
    {
        GateConfig {
            sample_rate_hz: 16_000,
            vad_window_ms: 100,
            hangover_ms: 1_000,
            pre_roll_ms: 200,
        }
    }
}

#[derive(Debug, Clone, Copy, PartialEq, Eq, Structural)]
pub enum GateState {
    /// Sending.
    Speaking,
    /// The level dropped at `since_samples` on the silence gate's own clock; still sending, but
    /// silent once the grace period is over without speech. Measured in samples, so that
    /// the deadline is exact however many samples are pushed per call.
    Hangover { since_samples: u64 },
    /// Not sending; incoming audio is only held in case speech resumes.
    Silent,
}

/// The sizes that a configuration comes to, in samples.
pub struct GateLimits {
    pub window: int,
    pub hangover: int,
    pub pre_roll: int,
}

/// The state of a gate.
#[verifier::ext_equal]
pub struct GateModel<S> {
    pub state: GateState,
    pub pre_roll: Seq<S>,
    pub clock: int,
}

/// A silence gate as it is when it is made.
pub open spec fn fresh_gate<S>() -> GateModel<S> {
    GateModel { state: GateState::Silent, pre_roll: Seq::empty(), clock: 0 }
}

/// What becomes of one window.
pub enum Outcome<S> {
    Sent(Seq<S>),
    Stitched(Seq<S>),
    /// Held back; this many samples had to make room and are gone.
    Held(int),
}

/// An action, by what it holds.
pub enum ActionModel<S> {
    Send(Seq<S>),
    SendStitched(Seq<S>),
    Drop(int),
}

/// The samples that a number of milliseconds takes, rounded down.
pub open spec fn samples_in(sample_rate_hz: u32, ms: u32) -> int {
    sample_rate_hz * ms / 1000
}

pub open spec fn limits(config: GateConfig) -> GateLimits {
    let window = samples_in(config.sample_rate_hz, config.vad_window_ms);
    GateLimits {
        window: if window >= 1 {
            window
        } else {
            1
        },
        hangover: samples_in(config.sample_rate_hz, config.hangover_ms),
        pre_roll: samples_in(config.sample_rate_hz, config.pre_roll_ms),
    }
}

/// The samples between two points on the silence gate's clock.
pub open spec fn elapsed(since: int, clock: int) -> int {
    if clock >= since {
        clock - since
    } else {
        0
    }
}

/// The state after a window of this level that ends at `clock`.
pub open spec fn state_after(
    state: GateState,
    level: WindowLevel,
    clock: int,
    hangover: int,
) -> GateState {
    match state {
        GateState::Speaking => if level.below_silent {
            GateState::Hangover { since_samples: clock as u64 }
        } else {
            GateState::Speaking
        },
        GateState::Hangover { since_samples } => if level.at_speaking {
            GateState::Speaking
        } else if elapsed(since_samples as int, clock) >= hangover {
            GateState::Silent
        } else {
            state
        },
        GateState::Silent => if level.at_speaking {
            GateState::Speaking
        } else {
            GateState::Silent
        },
    }
}

/// The last `capacity` samples of a sequence, or all of it where it is shorter.
pub open spec fn newest<S>(samples: Seq<S>, capacity: int) -> Seq<S> {
    if samples.len() <= capacity {
        samples
    } else {
        samples.skip(samples.len() - capacity)
    }
}

/// The silence gate's clock after `len` more samples; it stops at the largest count it can hold.
pub open spec fn clock_after(clock: int, len: int) -> int {
    if clock + len > u64::MAX {
        u64::MAX as int
    } else {
        clock + len
    }
}

/// What one window does to the silence gate, and what becomes of it.
pub open spec fn window_step<S>(
    limits: GateLimits,
    gate: GateModel<S>,
    window: Seq<S>,
    level: WindowLevel,
) -> (GateModel<S>, Outcome<S>) {
    let clock = clock_after(gate.clock, window.len() as int);
    let state = state_after(gate.state, level, clock, limits.hangover);
    match (gate.state, state) {
        (GateState::Silent, GateState::Speaking) => (
            GateModel { state, pre_roll: Seq::empty(), clock },
            Outcome::Stitched(gate.pre_roll + window),
        ),
        (_, GateState::Silent) => {
            let held = newest(gate.pre_roll + window, limits.pre_roll);
            (
                GateModel { state, pre_roll: held, clock },
                Outcome::Held(gate.pre_roll.len() + window.len() - held.len()),
            )
        },
        _ => (GateModel { state, clock, ..gate }, Outcome::Sent(window)),
    }
}

/// The silence gate after the first `count` windows of a push, and what became of each.
pub open spec fn run<S>(
    limits: GateLimits,
    gate: GateModel<S>,
    samples: Seq<S>,
    levels: Seq<WindowLevel>,
    count: int,
) -> (GateModel<S>, Seq<Outcome<S>>)
    decreases count,
{
    if count <= 0 {
        (gate, Seq::empty())
    } else {
        let (before, outcomes) = run(limits, gate, samples, levels, count - 1);
        let window = segmenter::segment_samples(samples, limits.window, count - 1);
        let (after, outcome) = window_step(limits, before, window, levels[count - 1]);
        (after, outcomes.push(outcome))
    }
}

/// The actions that a list of outcomes comes to: neighbours that were sent are one
/// action, neighbours that were held are one action, and to hold without losing
/// anything is none.
pub open spec fn joined<S>(outcomes: Seq<Outcome<S>>) -> Seq<ActionModel<S>>
    decreases outcomes.len(),
{
    if outcomes.len() == 0 {
        Seq::empty()
    } else {
        let before = joined(outcomes.drop_last());
        match outcomes.last() {
            Outcome::Stitched(samples) => before.push(ActionModel::SendStitched(samples)),
            Outcome::Sent(samples) => if outcomes.len() >= 2 && outcomes[outcomes.len() - 2] is Sent {
                before.drop_last().push(ActionModel::Send(before.last()->Send_0 + samples))
            } else {
                before.push(ActionModel::Send(samples))
            },
            Outcome::Held(lost) => if before.len() > 0 && before.last() is Drop {
                before.drop_last().push(ActionModel::Drop(before.last()->Drop_0 + lost))
            } else if lost > 0 {
                before.push(ActionModel::Drop(lost))
            } else {
                before
            },
        }
    }
}

impl<'a, S> View for GateAction<'a, S> {
    type V = ActionModel<S>;

    open spec fn view(&self) -> ActionModel<S> {
        match self {
            GateAction::Send(samples) => ActionModel::Send(samples@),
            GateAction::SendStitched(samples) => ActionModel::SendStitched(samples@),
            GateAction::Drop { sample_count } => ActionModel::Drop(*sample_count as int),
        }
    }
}

/// The actions of a list, each by its model.
pub open spec fn actions_of<'a, S>(actions: Seq<GateAction<'a, S>>) -> Seq<ActionModel<S>> {
    Seq::new(actions.len(), |i: int| actions[i]@)
}

/// Speech/silence gate for one track. Starts silent: a fresh recording is far more
/// likely to open with silence than with speech.
pub struct SilenceGate<S> {
    pub state: GateState,
    /// The newest audio heard while silent, up to the pre-roll size.
    pub pre_roll: VecDeque<S>,
    pub pre_roll_capacity: usize,
    pub window_samples: usize,
    pub hangover_samples: u64,
    /// Samples processed so far: the clock that the grace period is measured on. Counted
    /// in samples, because converting each window to milliseconds would lose the
    /// remainder every time.
    pub clock_samples: u64,
}

impl<S> SilenceGate<S> {
    pub open spec fn well_formed(&self) -> bool {
        &&& self.window_samples >= 1
        &&& self.pre_roll@.len() <= self.pre_roll_capacity
    }

    pub open spec fn limits(&self) -> GateLimits {
        GateLimits {
            window: self.window_samples as int,
            hangover: self.hangover_samples as int,
            pre_roll: self.pre_roll_capacity as int,
        }
    }

    pub open spec fn model(&self) -> GateModel<S> {
        GateModel {
            state: self.state,
            pre_roll: self.pre_roll@,
            clock: self.clock_samples as int,
        }
    }

    pub fn new(config: GateConfig) -> (gate: Self)
        requires
            limits(config).window <= usize::MAX,
            limits(config).hangover <= usize::MAX,
            limits(config).pre_roll <= usize::MAX,
        ensures
            gate.well_formed(),
            gate.limits() == limits(config),
            gate.model() == fresh_gate::<S>(),
    {
        let pre_roll_capacity: usize = ms_to_samples(config.sample_rate_hz, config.pre_roll_ms);
        let window: usize = ms_to_samples(config.sample_rate_hz, config.vad_window_ms);
        let hangover: usize = ms_to_samples(config.sample_rate_hz, config.hangover_ms);
        SilenceGate {
            state: GateState::Silent,
            pre_roll: VecDeque::new(),
            pre_roll_capacity,
            window_samples: if window >= 1 {
                window
            } else {
                1
            },
            hangover_samples: hangover as u64,
            clock_samples: 0,
        }
    }

    /// Where the windows of a push of `len` samples lie: each as its start and its end.
    pub fn windows(&self, len: usize) -> (bounds: Vec<(usize, usize)>)
        requires
            self.well_formed(),
        ensures
            bounds@.len() == segmenter::segment_count(len as int, self.limits().window),
            forall|i: int|
                #![trigger bounds@[i]]
                0 <= i < bounds@.len() ==> {
                    let end = (i + 1) * self.limits().window;
                    &&& bounds@[i].0 == i * self.limits().window
                    &&& bounds@[i].1 == if end <= len {
                        end
                    } else {
                        len as int
                    }
                },
    {
        let ghost w = self.window_samples as int;
        let ghost count = segmenter::segment_count(len as int, w);
        proof {
            lemma_count_bounds(len as int, w);
        }
        let mut bounds: Vec<(usize, usize)> = Vec::new();
        let mut offset: usize = 0;
        assert(bounds@.len() * w == 0) by (nonlinear_arith)
            requires
                bounds@.len() == 0,
        ;
        while offset < len
            invariant
                w == self.window_samples,
                w >= 1,
                count == segmenter::segment_count(len as int, w),
                len > 0 ==> (count - 1) * w < len <= count * w,
                len == 0 ==> count == 0,
                offset == if bounds@.len() * w <= len {
                    bounds@.len() * w
                } else {
                    len as int
                },
                bounds@.len() <= count,
                forall|i: int|
                    #![trigger bounds@[i]]
                    0 <= i < bounds@.len() ==> {
                        let end = (i + 1) * w;
                        &&& bounds@[i].0 == i * w
                        &&& bounds@[i].1 == if end <= len {
                            end
                        } else {
                            len as int
                        }
                    },
            decreases len - offset,
        {
            let ghost k = bounds@.len() as int;
            proof {
                assert((k + 1) * w == k * w + w) by (nonlinear_arith);
                assert(k < count) by (nonlinear_arith)
                    requires
                        k * w < len,
                        len <= count * w,
                        w >= 1,
                ;
            }
            let end: usize = if self.window_samples <= len - offset {
                offset + self.window_samples
            } else {
                len
            };
            bounds.push((offset, end));
            offset = end;
        }
        proof {
            if len > 0 {
                assert(bounds@.len() == count) by (nonlinear_arith)
                    requires
                        bounds@.len() <= count,
                        bounds@.len() * w >= len,
                        (count - 1) * w < len,
                        w >= 1,
                ;
            }
        }
        bounds
    }
}

proof fn lemma_count_bounds(len: int, w: int)
    requires
        len >= 0,
        w >= 1,
    ensures
        len > 0 ==> (segmenter::segment_count(len, w) - 1) * w < len
            <= segmenter::segment_count(len, w) * w,
        len > 0 ==> segmenter::segment_count(len, w) >= 1,
        len == 0 ==> segmenter::segment_count(len, w) == 0,
{
    if len > 0 {
        let count = segmenter::segment_count(len, w);
        vstd::arithmetic::div_mod::lemma_fundamental_div_mod(len + w - 1, w);
        let r = (len + w - 1) % w;
        assert((count - 1) * w < len <= count * w && count >= 1) by (nonlinear_arith)
            requires
                len + w - 1 == w * count + r,
                0 <= r < w,
                len > 0,
                w >= 1,
        ;
    }
}

fn ms_to_samples(sample_rate_hz: u32, ms: u32) -> (samples: usize)
    requires
        samples_in(sample_rate_hz, ms) <= usize::MAX,
    ensures
        samples == samples_in(sample_rate_hz, ms),
{
    proof {
        assert(sample_rate_hz * ms <= u64::MAX) by (nonlinear_arith)
            requires
                sample_rate_hz <= u32::MAX,
                ms <= u32::MAX,
        ;
    }
    let product: u64 = sample_rate_hz as u64 * ms as u64;
    (product / 1000) as usize
}

fn next_state(
    state: GateState,
    level: WindowLevel,
    clock_samples: u64,
    hangover_samples: u64,
) -> (next: GateState)
    ensures
        next == state_after(state, level, clock_samples as int, hangover_samples as int),
{
    match state {
        GateState::Speaking => {
            if level.below_silent {
                GateState::Hangover { since_samples: clock_samples }
            } else {
                GateState::Speaking
            }
        },
        GateState::Hangover { since_samples } => {
            if level.at_speaking {
                GateState::Speaking
            } else if clock_samples.saturating_sub(since_samples) >= hangover_samples {
                GateState::Silent
            } else {
                state
            }
        },
        GateState::Silent => {
            if level.at_speaking {
                GateState::Speaking
            } else {
                GateState::Silent
            }
        },
    }
}

impl<S: Copy> SilenceGate<S> {
    /// Pushes newly captured samples, with the level of each of their windows, and
    /// returns the actions to take, in order.
    pub fn process<'a>(&mut self, samples: &'a [S], levels: &[WindowLevel]) -> (actions: Vec<
        GateAction<'a, S>,
    >)
        requires
            old(self).well_formed(),
            levels@.len() == segmenter::segment_count(
                samples@.len() as int,
                old(self).limits().window,
            ),
        ensures
            final(self).well_formed(),
            final(self).limits() == old(self).limits(),
            final(self).model() == run(
                old(self).limits(),
                old(self).model(),
                samples@,
                levels@,
                levels@.len() as int,
            ).0,
            actions_of(actions@) == joined(
                run(
                    old(self).limits(),
                    old(self).model(),
                    samples@,
                    levels@,
                    levels@.len() as int,
                ).1,
            ),
    {
        let ghost lim = self.limits();
        let ghost gate = self.model();
        let ghost w = lim.window;
        let ghost len = samples@.len() as int;
        let ghost count = levels@.len() as int;
        proof {
            lemma_count_bounds(len, w);
        }
        let mut actions: Vec<GateAction<'a, S>> = Vec::new();
        // The runs that are still open: where the current run of windows to send began,
        // and how many samples the current run of silence has pushed out.
        let mut send_run_start: Option<usize> = None;
        let mut drop_run: u64 = 0;
        let mut offset: usize = 0;
        let mut index: usize = 0;
        assert(actions_of(actions@) =~= Seq::empty());
        while offset < samples.len()
            invariant
                self.well_formed(),
                self.limits() == lim,
                lim.window == w,
                w == self.window_samples,
                w >= 1,
                len == samples@.len(),
                count == levels@.len(),
                count == segmenter::segment_count(len, w),
                len > 0 ==> (count - 1) * w < len <= count * w,
                len == 0 ==> count == 0,
                0 <= index <= count,
                offset == if index * w <= len {
                    index * w
                } else {
                    len
                },
                self.model() == run(lim, gate, samples@, levels@, index as int).0,
                open_runs(
                    run(lim, gate, samples@, levels@, index as int).1,
                    actions_of(actions@),
                    samples@,
                    send_run_start,
                    drop_run as int,
                    offset as int,
                ),
                drop_run <= offset,
                index > 0 ==> {
                    let outcomes = run(lim, gate, samples@, levels@, index as int).1;
                    &&& outcomes.len() == index
                    &&& self.state is Silent <==> outcomes.last() is Held
                },
            decreases len - offset,
        {
            proof {
                assert((index + 1) * w == index * w + w) by (nonlinear_arith);
                assert(index < count) by (nonlinear_arith)
                    requires
                        index * w < len,
                        len <= count * w,
                        w >= 1,
                ;
            }
            let end: usize = if self.window_samples <= samples.len() - offset {
                offset + self.window_samples
            } else {
                samples.len()
            };
            let window: &[S] = vstd::slice::slice_subrange(samples, offset, end);
            assert(window@ == segmenter::segment_samples(samples@, w, index as int));
            self.clock_samples = self.clock_samples.saturating_add(window.len() as u64);
            let old_state: GateState = self.state;
            self.state = next_state(
                old_state,
                levels[index],
                self.clock_samples,
                self.hangover_samples,
            );
            let ghost outcomes = run(lim, gate, samples@, levels@, index as int).1;
            let ghost after = run(lim, gate, samples@, levels@, index + 1).1;
            let ghost earlier = actions_of(actions@);
            assert(after.drop_last() =~= outcomes);
            match (old_state, self.state) {
                (GateState::Silent, GateState::Speaking) => {
                    if drop_run > 0 {
                        actions.push(GateAction::Drop { sample_count: drop_run });
                        drop_run = 0;
                    }
                    let stitched: Vec<S> = self.stitch(window);
                    actions.push(GateAction::SendStitched(stitched));
                    assert(actions_of(actions@) =~= joined(after));
                },
                (_, GateState::Silent) => {
                    match send_run_start {
                        Some(start) => {
                            actions.push(
                                GateAction::Send(
                                    vstd::slice::slice_subrange(samples, start, offset),
                                ),
                            );
                            send_run_start = None;
                        },
                        None => {},
                    }
                    let lost: u64 = self.push_pre_roll(window);
                    drop_run = drop_run + lost;
                    proof {
                        let now = actions_of(actions@);
                        if drop_run == lost {
                            assert(now =~= joined(outcomes));
                        } else {
                            assert(now =~= earlier);
                            assert(joined(outcomes).drop_last() =~= earlier);
                        }
                    }
                },
                _ => {
                    if drop_run > 0 {
                        actions.push(GateAction::Drop { sample_count: drop_run });
                        drop_run = 0;
                    }
                    if send_run_start.is_none() {
                        send_run_start = Some(offset);
                    }
                    proof {
                        assert(actions_of(actions@) =~= earlier);
                        let start = send_run_start->0 as int;
                        if start < offset {
                            assert(joined(outcomes).drop_last() =~= earlier);
                            assert(samples@.subrange(start, offset as int) + window@
                                =~= samples@.subrange(start, end as int));
                        }
                    }
                },
            }
            offset = end;
            index = index + 1;
        }
        proof {
            if len > 0 {
                assert(index == count) by (nonlinear_arith)
                    requires
                        index <= count,
                        index * w >= len,
                        (count - 1) * w < len,
                        w >= 1,
                ;
            }
        }
        let ghost earlier = actions_of(actions@);
        match send_run_start {
            Some(start) => {
                actions.push(
                    GateAction::Send(vstd::slice::slice_subrange(samples, start, samples.len())),
                );
                assert(actions_of(actions@) =~= earlier.push(
                    ActionModel::Send(samples@.subrange(start as int, len)),
                ));
            },
            None => {},
        }
        if drop_run > 0 {
            actions.push(GateAction::Drop { sample_count: drop_run });
            assert(actions_of(actions@) =~= earlier.push(ActionModel::Drop(drop_run as int)));
        }
        assert(actions_of(actions@) =~= joined(run(lim, gate, samples@, levels@, count).1));
        actions
    }

    /// Empties the pre-roll into a buffer and puts the window behind it.
    fn stitch(&mut self, window: &[S]) -> (stitched: Vec<S>)
        ensures
            stitched@ == old(self).pre_roll@ + window@,
            final(self).pre_roll@ == Seq::<S>::empty(),
            final(self).state == old(self).state,
            final(self).pre_roll_capacity == old(self).pre_roll_capacity,
            final(self).window_samples == old(self).window_samples,
            final(self).hangover_samples == old(self).hangover_samples,
            final(self).clock_samples == old(self).clock_samples,
    {
        let mut stitched: Vec<S> = Vec::new();
        let ghost held = self.pre_roll@;
        let mut next: Option<S> = self.pre_roll.pop_front();
        while next.is_some()
            invariant
                next is Some ==> stitched@.push(next->0) + self.pre_roll@ == held,
                next is None ==> stitched@ == held && self.pre_roll@.len() == 0,
                self.state == old(self).state,
                self.pre_roll_capacity == old(self).pre_roll_capacity,
                self.window_samples == old(self).window_samples,
                self.hangover_samples == old(self).hangover_samples,
                self.clock_samples == old(self).clock_samples,
            decreases self.pre_roll@.len() + if next is Some {
                1int
            } else {
                0int
            },
        {
            stitched.push(next.unwrap());
            next = self.pre_roll.pop_front();
            assert(next is Some ==> stitched@.push(next->0) + self.pre_roll@ =~= held);
            assert(next is None ==> stitched@ =~= held);
        }
        let mut i: usize = 0;
        while i < window.len()
            invariant
                i <= window@.len(),
                stitched@ == held + window@.take(i as int),
            decreases window@.len() - i,
        {
            stitched.push(window[i]);
            assert(stitched@ =~= held + window@.take(i + 1));
            i = i + 1;
        }
        assert(window@.take(i as int) =~= window@);
        assert(self.pre_roll@ =~= Seq::empty());
        stitched
    }

    /// Adds a window to the held audio, the oldest making room, and returns how many
    /// samples are gone for good.
    fn push_pre_roll(&mut self, window: &[S]) -> (lost: u64)
        requires
            old(self).well_formed(),
        ensures
            final(self).pre_roll@ == newest(
                old(self).pre_roll@ + window@,
                old(self).pre_roll_capacity as int,
            ),
            lost == old(self).pre_roll@.len() + window@.len() - final(self).pre_roll@.len(),
            lost <= window@.len(),
            final(self).well_formed(),
            final(self).state == old(self).state,
            final(self).pre_roll_capacity == old(self).pre_roll_capacity,
            final(self).window_samples == old(self).window_samples,
            final(self).hangover_samples == old(self).hangover_samples,
            final(self).clock_samples == old(self).clock_samples,
    {
        let ghost held = self.pre_roll@;
        let ghost cap = self.pre_roll_capacity as int;
        if self.pre_roll_capacity == 0 {
            assert(newest(held + window@, 0) =~= Seq::empty());
            assert(self.pre_roll@ =~= Seq::empty());
            return window.len() as u64;
        }
        let mut lost: u64 = 0;
        let mut i: usize = 0;
        assert(newest(held + window@.take(0), cap) =~= held);
        while i < window.len()
            invariant
                i <= window@.len(),
                cap == self.pre_roll_capacity,
                cap > 0,
                held.len() <= cap,
                self.pre_roll@.len() <= cap,
                self.pre_roll@ == newest(held + window@.take(i as int), cap),
                lost == held.len() + i - self.pre_roll@.len(),
                lost <= i,
                self.state == old(self).state,
                self.pre_roll_capacity == old(self).pre_roll_capacity,
                self.window_samples == old(self).window_samples,
                self.hangover_samples == old(self).hangover_samples,
                self.clock_samples == old(self).clock_samples,
            decreases window@.len() - i,
        {
            let ghost before = held + window@.take(i as int);
            let ghost after = held + window@.take(i + 1);
            assert(after =~= before.push(window@[i as int]));
            if self.pre_roll.len() == self.pre_roll_capacity {
                self.pre_roll.pop_front();
                lost = lost + 1;
            }
            self.pre_roll.push_back(window[i]);
            assert(self.pre_roll@ =~= newest(after, cap));
            i = i + 1;
        }
        assert(window@.take(i as int) =~= window@);
        lost
    }
}

/// How the actions taken so far and the runs that are still open stand to the outcomes
/// so far.
spec fn open_runs<S>(
    outcomes: Seq<Outcome<S>>,
    actions: Seq<ActionModel<S>>,
    samples: Seq<S>,
    send_run_start: Option<usize>,
    drop_run: int,
    offset: int,
) -> bool {
    &&& send_run_start is Some <==> outcomes.len() > 0 && outcomes.last() is Sent
    &&& drop_run > 0 ==> outcomes.len() > 0 && outcomes.last() is Held
    &&& match send_run_start {
        Some(start) => {
            &&& start < offset <= samples.len()
            &&& joined(outcomes) == actions.push(
                ActionModel::Send(samples.subrange(start as int, offset)),
            )
        },
        None => if drop_run > 0 {
            joined(outcomes) == actions.push(ActionModel::Drop(drop_run))
        } else {
            &&& joined(outcomes) == actions
            &&& actions.len() > 0 ==> actions.last() !is Drop
        },
    }
}

/// How many samples an action sends or gives up.
pub open spec fn size_of_action<S>(action: ActionModel<S>) -> int {
    match action {
        ActionModel::Send(samples) => samples.len() as int,
        ActionModel::SendStitched(samples) => samples.len() as int,
        ActionModel::Drop(lost) => lost,
    }
}

/// Whether an action is about just this stretch of audio: it sends it sample by sample,
/// or gives up as many samples.
pub open spec fn deals_with<S>(action: ActionModel<S>, audio: Seq<S>) -> bool {
    match action {
        ActionModel::Send(samples) => samples == audio,
        ActionModel::SendStitched(samples) => samples == audio,
        ActionModel::Drop(lost) => lost == audio.len(),
    }
}

/// Whether a list of actions deals with a stretch of audio from its first sample to its
/// last, in order: the stretches of the actions follow on one another without a gap and
/// without overlap.
pub open spec fn laid_out<S>(actions: Seq<ActionModel<S>>, audio: Seq<S>) -> bool
    decreases actions.len(),
{
    if actions.len() == 0 {
        audio.len() == 0
    } else {
        let start = audio.len() - size_of_action(actions.last());
        &&& 0 <= start <= audio.len()
        &&& deals_with(actions.last(), audio.skip(start))
        &&& laid_out(actions.drop_last(), audio.take(start))
    }
}

/// Whether a gate holds no more than it may, and nothing while it is sending.
pub open spec fn is_sound<S>(limits: GateLimits, gate: GateModel<S>) -> bool {
    &&& gate.pre_roll.len() <= limits.pre_roll
    &&& gate.state !is Silent ==> gate.pre_roll.len() == 0
}

/// Whether a list of actions and what a gate holds afterwards make up some audio: the
/// actions deal with all of it but its tail, in order, and the tail is what is held.
pub open spec fn splits<S>(
    audio: Seq<S>,
    actions: Seq<ActionModel<S>>,
    held: Seq<S>,
) -> bool {
    let done = audio.len() - held.len();
    &&& 0 <= done
    &&& held == audio.skip(done)
    &&& laid_out(actions, audio.take(done))
}

/// Whether no two neighbours in a list of actions are of a kind that one action could
/// stand for: neither are both sent as they are, nor both dropped.
pub open spec fn well_separated<S>(actions: Seq<ActionModel<S>>) -> bool {
    forall|i: int, j: int|
        #![trigger actions[i], actions[j]]
        0 <= i && j == i + 1 && j < actions.len() ==> {
            &&& !(actions[i] is Send && actions[j] is Send)
            &&& !(actions[i] is Drop && actions[j] is Drop)
        }
}

/// How many samples a list of actions sends or gives up.
pub open spec fn accounted<S>(actions: Seq<ActionModel<S>>) -> int
    decreases actions.len(),
{
    if actions.len() == 0 {
        0
    } else {
        accounted(actions.drop_last()) + size_of_action(actions.last())
    }
}

proof fn lemma_laid_out_total<S>(actions: Seq<ActionModel<S>>, audio: Seq<S>)
    requires
        laid_out(actions, audio),
    ensures
        accounted(actions) == audio.len(),
    decreases actions.len(),
{
    if actions.len() > 0 {
        let start = audio.len() - size_of_action(actions.last());
        lemma_laid_out_total(actions.drop_last(), audio.take(start));
    }
}

proof fn lemma_one_more_action<S>(
    actions: Seq<ActionModel<S>>,
    audio: Seq<S>,
    action: ActionModel<S>,
    more: Seq<S>,
)
    requires
        laid_out(actions, audio),
        deals_with(action, more),
    ensures
        laid_out(actions.push(action), audio + more),
{
    let all = audio + more;
    assert(actions.push(action).drop_last() =~= actions);
    assert(all.skip(audio.len() as int) =~= more);
    assert(all.take(audio.len() as int) =~= audio);
}

proof fn lemma_longer_last_action<S>(
    actions: Seq<ActionModel<S>>,
    audio: Seq<S>,
    longer: ActionModel<S>,
    more: Seq<S>,
)
    requires
        actions.len() > 0,
        laid_out(actions, audio),
        actions.last() matches ActionModel::Send(samples) ==> longer == ActionModel::Send(
            samples + more,
        ),
        actions.last() matches ActionModel::Drop(lost) ==> longer == ActionModel::<S>::Drop(
            lost + more.len(),
        ),
        actions.last() !is SendStitched,
    ensures
        laid_out(actions.drop_last().push(longer), audio + more),
{
    let start = audio.len() - size_of_action(actions.last());
    let tail = audio.skip(start);
    assert(deals_with(longer, tail + more));
    lemma_one_more_action(actions.drop_last(), audio.take(start), longer, tail + more);
    assert(audio.take(start) + (tail + more) =~= audio + more);
}

proof fn lemma_laid_end_to_end<S>(
    first: Seq<ActionModel<S>>,
    audio: Seq<S>,
    second: Seq<ActionModel<S>>,
    more: Seq<S>,
)
    requires
        laid_out(first, audio),
        laid_out(second, more),
    ensures
        laid_out(first + second, audio + more),
    decreases second.len(),
{
    if second.len() == 0 {
        assert(first + second =~= first);
        assert(audio + more =~= audio);
    } else {
        let start = more.len() - size_of_action(second.last());
        lemma_laid_end_to_end(first, audio, second.drop_last(), more.take(start));
        lemma_one_more_action(
            first + second.drop_last(),
            audio + more.take(start),
            second.last(),
            more.skip(start),
        );
        assert(first + second =~= (first + second.drop_last()).push(second.last()));
        assert(audio + more =~= (audio + more.take(start)) + more.skip(start));
    }
}

/// Whether the last of a list of outcomes is the one that the state after it goes with.
spec fn ends_in<S>(outcomes: Seq<Outcome<S>>, state: GateState) -> bool {
    outcomes.len() > 0 ==> (state is Silent <==> outcomes.last() is Held)
}

/// What one more window adds to the actions.
proof fn lemma_one_more_window<S>(
    limits: GateLimits,
    gate: GateModel<S>,
    outcomes: Seq<Outcome<S>>,
    audio: Seq<S>,
    window: Seq<S>,
    level: WindowLevel,
)
    requires
        limits.pre_roll >= 0,
        is_sound(limits, gate),
        ends_in(outcomes, gate.state),
        splits(audio, joined(outcomes), gate.pre_roll),
        outcomes.len() > 0 && outcomes.last() is Sent ==> joined(outcomes).len() > 0 && joined(
            outcomes,
        ).last() is Send,
        well_separated(joined(outcomes)),
    ensures
        ({
            let (after, outcome) = window_step(limits, gate, window, level);
            let all = outcomes.push(outcome);
            &&& is_sound(limits, after)
            &&& ends_in(all, after.state)
            &&& splits(audio + window, joined(all), after.pre_roll)
            &&& all.last() is Sent ==> joined(all).len() > 0 && joined(all).last() is Send
            &&& well_separated(joined(all))
        }),
{
    let (after, outcome) = window_step(limits, gate, window, level);
    let all = outcomes.push(outcome);
    let before = joined(outcomes);
    let heard = audio + window;
    let was_done = audio.len() - gate.pre_roll.len();
    let done = heard.len() - after.pre_roll.len();
    let more = (gate.pre_roll + window).take(done - was_done);
    assert(all.drop_last() =~= outcomes);
    assert(audio =~= audio.take(was_done) + gate.pre_roll);
    assert(heard =~= audio.take(was_done) + (gate.pre_roll + window));
    assert(heard.take(done) =~= audio.take(was_done) + more);
    assert(after.pre_roll =~= heard.skip(done));
    match outcome {
        Outcome::Stitched(samples) => {
            assert(more =~= samples);
            lemma_one_more_action(
                before,
                audio.take(was_done),
                ActionModel::SendStitched(samples),
                more,
            );
        },
        Outcome::Sent(samples) => {
            assert(more =~= samples);
            if all.len() >= 2 && all[all.len() - 2] is Sent {
                assert(outcomes.last() is Sent);
                lemma_longer_last_action(
                    before,
                    audio.take(was_done),
                    ActionModel::Send(before.last()->Send_0 + samples),
                    more,
                );
            } else {
                lemma_one_more_action(
                    before,
                    audio.take(was_done),
                    ActionModel::Send(samples),
                    more,
                );
            }
        },
        Outcome::Held(lost) => {
            assert(more.len() == lost);
            if before.len() > 0 && before.last() is Drop {
                lemma_longer_last_action(
                    before,
                    audio.take(was_done),
                    ActionModel::Drop(before.last()->Drop_0 + lost),
                    more,
                );
            } else if lost > 0 {
                lemma_one_more_action(before, audio.take(was_done), ActionModel::Drop(lost), more);
            } else {
                assert(heard.take(done) =~= audio.take(was_done));
            }
        },
    }
}

proof fn lemma_run_in_order<S>(
    limits: GateLimits,
    gate: GateModel<S>,
    samples: Seq<S>,
    levels: Seq<WindowLevel>,
    count: int,
)
    requires
        limits.window >= 1,
        limits.pre_roll >= 0,
        is_sound(limits, gate),
        0 <= count <= segmenter::segment_count(samples.len() as int, limits.window),
    ensures
        ({
            let (after, outcomes) = run(limits, gate, samples, levels, count);
            let end = if count * limits.window <= samples.len() {
                count * limits.window
            } else {
                samples.len() as int
            };
            &&& is_sound(limits, after)
            &&& ends_in(outcomes, after.state)
            &&& splits(gate.pre_roll + samples.take(end), joined(outcomes), after.pre_roll)
            &&& outcomes.len() > 0 && outcomes.last() is Sent ==> joined(outcomes).len() > 0
                && joined(outcomes).last() is Send
            &&& well_separated(joined(outcomes))
        }),
    decreases count,
{
    let w = limits.window;
    if count > 0 {
        lemma_run_in_order(limits, gate, samples, levels, count - 1);
        lemma_count_bounds(samples.len() as int, w);
        let n = segmenter::segment_count(samples.len() as int, w);
        let start = (count - 1) * w;
        assert(count * w == start + w) by (nonlinear_arith)
            requires
                start == (count - 1) * w,
        ;
        assert(0 <= start < samples.len()) by (nonlinear_arith)
            requires
                start == (count - 1) * w,
                1 <= count <= n,
                (n - 1) * w < samples.len(),
                w >= 1,
        ;
        let end = if count * w <= samples.len() {
            count * w
        } else {
            samples.len() as int
        };
        let (before, outcomes) = run(limits, gate, samples, levels, count - 1);
        let window = segmenter::segment_samples(samples, w, count - 1);
        lemma_one_more_window(
            limits,
            before,
            outcomes,
            gate.pre_roll + samples.take(start),
            window,
            levels[count - 1],
        );
        assert((gate.pre_roll + samples.take(start)) + window =~= gate.pre_roll + samples.take(
            end,
        ));
    } else {
        assert(count * w == 0) by (nonlinear_arith)
            requires
                count == 0,
        ;
        let audio = gate.pre_roll + samples.take(0);
        assert(audio =~= gate.pre_roll);
        assert(audio.skip(0) =~= gate.pre_roll);
    }
}

proof fn lemma_push_in_order<S>(
    limits: GateLimits,
    gate: GateModel<S>,
    samples: Seq<S>,
    levels: Seq<WindowLevel>,
)
    requires
        limits.window >= 1,
        limits.pre_roll >= 0,
        is_sound(limits, gate),
        levels.len() == segmenter::segment_count(samples.len() as int, limits.window),
    ensures
        ({
            let (after, outcomes) = run(limits, gate, samples, levels, levels.len() as int);
            &&& is_sound(limits, after)
            &&& splits(gate.pre_roll + samples, joined(outcomes), after.pre_roll)
            &&& well_separated(joined(outcomes))
        }),
{
    let count = levels.len() as int;
    lemma_count_bounds(samples.len() as int, limits.window);
    lemma_run_in_order(limits, gate, samples, levels, count);
    if count == 0 {
        assert(count * limits.window == 0) by (nonlinear_arith)
            requires
                count == 0,
        ;
    }
    assert(samples.take(samples.len() as int) =~= samples);
}

/// Every sample is accounted for exactly once: what a push sends and what it gives up,
/// with what is held afterwards, is what was held before and what was pushed, sample by
/// sample and in order.
pub proof fn law_every_sample_is_accounted_for<S>(
    limits: GateLimits,
    gate: GateModel<S>,
    samples: Seq<S>,
    levels: Seq<WindowLevel>,
)
    requires
        limits.window >= 1,
        limits.pre_roll >= 0,
        is_sound(limits, gate),
        levels.len() == segmenter::segment_count(samples.len() as int, limits.window),
    ensures
        ({
            let (after, outcomes) = run(limits, gate, samples, levels, levels.len() as int);
            &&& is_sound(limits, after)
            &&& splits(gate.pre_roll + samples, joined(outcomes), after.pre_roll)
            &&& accounted(joined(outcomes)) + after.pre_roll.len() == gate.pre_roll.len()
                + samples.len()
        }),
{
    lemma_push_in_order(limits, gate, samples, levels);
    let (after, outcomes) = run(limits, gate, samples, levels, levels.len() as int);
    let audio = gate.pre_roll + samples;
    lemma_laid_out_total(joined(outcomes), audio.take(audio.len() - after.pre_roll.len()));
}

/// A push comes to as few actions as can be: no two neighbours among them are both sent
/// as they are, and no two are both dropped.
pub proof fn law_neighbouring_actions_are_joined<S>(
    limits: GateLimits,
    gate: GateModel<S>,
    samples: Seq<S>,
    levels: Seq<WindowLevel>,
)
    requires
        limits.window >= 1,
        limits.pre_roll >= 0,
        is_sound(limits, gate),
        levels.len() == segmenter::segment_count(samples.len() as int, limits.window),
    ensures
        well_separated(joined(run(limits, gate, samples, levels, levels.len() as int).1)),
{
    lemma_push_in_order(limits, gate, samples, levels);
}

/// One push: the samples, and the level of each of their windows.
pub struct PushModel<S> {
    pub samples: Seq<S>,
    pub levels: Seq<WindowLevel>,
}

/// The silence gate after a run of pushes, and the actions of all of them, in order.
pub open spec fn after_pushes<S>(
    limits: GateLimits,
    gate: GateModel<S>,
    pushes: Seq<PushModel<S>>,
) -> (GateModel<S>, Seq<ActionModel<S>>)
    decreases pushes.len(),
{
    if pushes.len() == 0 {
        (gate, Seq::empty())
    } else {
        let (before, actions) = after_pushes(limits, gate, pushes.drop_last());
        let push = pushes.last();
        let (after, outcomes) = run(
            limits,
            before,
            push.samples,
            push.levels,
            push.levels.len() as int,
        );
        (after, actions + joined(outcomes))
    }
}

/// The samples of a run of pushes, end to end.
pub open spec fn pushed_audio<S>(pushes: Seq<PushModel<S>>) -> Seq<S>
    decreases pushes.len(),
{
    if pushes.len() == 0 {
        Seq::empty()
    } else {
        pushed_audio(pushes.drop_last()) + pushes.last().samples
    }
}

/// However the audio is cut into pushes, and however loud it is, a new gate deals with
/// all of it exactly once and in order: end to end, the pushed samples are the stretches
/// that are sent, sample by sample, and the stretches that are given up, one after the
/// other, and then the tail that is still held. The tail is no longer than the pre-roll,
/// and while the silence gate is sending there is none.
pub proof fn law_all_audio_is_dealt_with_in_order<S>(
    config: GateConfig,
    pushes: Seq<PushModel<S>>,
)
    requires
        forall|i: int|
            #![trigger pushes[i]]
            0 <= i < pushes.len() ==> pushes[i].levels.len() == segmenter::segment_count(
                pushes[i].samples.len() as int,
                limits(config).window,
            ),
    ensures
        ({
            let (gate, actions) = after_pushes(limits(config), fresh_gate(), pushes);
            let audio = pushed_audio(pushes);
            &&& splits(audio, actions, gate.pre_roll)
            &&& accounted(actions) + gate.pre_roll.len() == audio.len()
            &&& gate.pre_roll.len() <= samples_in(config.sample_rate_hz, config.pre_roll_ms)
            &&& gate.state !is Silent ==> gate.pre_roll.len() == 0
        }),
    decreases pushes.len(),
{
    let lim = limits(config);
    assert(config.sample_rate_hz * config.pre_roll_ms >= 0) by (nonlinear_arith);
    let (gate, actions) = after_pushes(lim, fresh_gate::<S>(), pushes);
    let audio = pushed_audio(pushes);
    if pushes.len() == 0 {
        assert(audio.skip(0) =~= gate.pre_roll);
    } else {
        let earlier = pushes.drop_last();
        let push = pushes.last();
        assert(push == pushes[pushes.len() - 1]);
        assert forall|i: int|
            #![trigger earlier[i]]
            0 <= i < earlier.len() implies earlier[i].levels.len() == segmenter::segment_count(
            earlier[i].samples.len() as int,
            lim.window,
        ) by {
            assert(earlier[i] == pushes[i]);
        }
        law_all_audio_is_dealt_with_in_order(config, earlier);
        let (before, first) = after_pushes(lim, fresh_gate::<S>(), earlier);
        let heard = pushed_audio(earlier);
        let was_done = heard.len() - before.pre_roll.len();
        lemma_push_in_order(lim, before, push.samples, push.levels);
        let second = joined(
            run(lim, before, push.samples, push.levels, push.levels.len() as int).1,
        );
        let fresh = before.pre_roll + push.samples;
        let more = fresh.take(fresh.len() - gate.pre_roll.len());
        lemma_laid_end_to_end(first, heard.take(was_done), second, more);
        let done = audio.len() - gate.pre_roll.len();
        assert(audio =~= heard.take(was_done) + fresh);
        assert(audio.take(done) =~= heard.take(was_done) + more);
        assert(audio.skip(done) =~= fresh.skip(more.len() as int));
    }
    lemma_laid_out_total(actions, audio.take(audio.len() - gate.pre_roll.len()));
}

/// A window at speaking level is always sent in full, whatever came before it.
pub proof fn law_speech_is_never_held_back<S>(
    limits: GateLimits,
    gate: GateModel<S>,
    window: Seq<S>,
    level: WindowLevel,
)
    requires
        level.at_speaking,
        !level.below_silent,
    ensures
        match window_step(limits, gate, window, level).1 {
            Outcome::Sent(samples) => samples == window,
            Outcome::Stitched(samples) => samples == gate.pre_roll + window && gate.state is Silent,
            Outcome::Held(_) => false,
        },
        window_step(limits, gate, window, level).0.state is Speaking,
{
}

/// A pause that stays within the grace period is sent like speech: nothing is dropped
/// and the silence gate does not fall silent.
pub proof fn law_short_pauses_are_sent<S>(
    limits: GateLimits,
    gate: GateModel<S>,
    window: Seq<S>,
    level: WindowLevel,
)
    requires
        gate.state is Speaking || (gate.state matches GateState::Hangover { since_samples }
            && elapsed(since_samples as int, clock_after(gate.clock, window.len() as int))
            < limits.hangover),
    ensures
        window_step(limits, gate, window, level).1 == Outcome::Sent(window),
        window_step(limits, gate, window, level).0.state !is Silent,
{
}

/// The grace period ends by the sample, however few samples a window has: the first
/// window without speech that ends at or past the deadline is silence.
pub proof fn law_hangover_expires_on_time<S>(
    limits: GateLimits,
    gate: GateModel<S>,
    window: Seq<S>,
    level: WindowLevel,
)
    requires
        gate.state matches GateState::Hangover { since_samples } && elapsed(
            since_samples as int,
            clock_after(gate.clock, window.len() as int),
        ) >= limits.hangover,
        !level.at_speaking,
    ensures
        window_step(limits, gate, window, level).0.state is Silent,
        window_step(limits, gate, window, level).1 is Held,
{
}

/// What is stitched to the front of speech is the newest audio that was held, and none
/// of it is kept for a second time.
pub proof fn law_pre_roll_is_stitched_once<S>(
    limits: GateLimits,
    gate: GateModel<S>,
    window: Seq<S>,
    level: WindowLevel,
)
    requires
        gate.state is Silent,
        level.at_speaking,
    ensures
        window_step(limits, gate, window, level).1 == Outcome::Stitched(gate.pre_roll + window),
        window_step(limits, gate, window, level).0.pre_roll == Seq::<S>::empty(),
{
}

/// Only speech makes the silence gate send again, and only the grace period ends it: it
/// turns to `Speaking` from another state in a window at speaking level only, it leaves
/// `Speaking` in a window below the lower threshold only, a grace period counts from the
/// window in which the level dropped for as long as it lasts, and silence comes of a grace
/// period that is over, in a window that is not at speaking level.
pub proof fn law_states_change_for_a_reason<S>(
    limits: GateLimits,
    gate: GateModel<S>,
    window: Seq<S>,
    level: WindowLevel,
)
    requires
        0 <= gate.clock,
        gate.clock + window.len() <= u64::MAX,
    ensures
        ({
            let after = window_step(limits, gate, window, level).0;
            let clock = gate.clock + window.len();
            &&& after.clock == clock
            &&& after.state is Speaking && gate.state !is Speaking ==> level.at_speaking
            &&& level.at_speaking && gate.state !is Speaking ==> after.state is Speaking
            &&& gate.state is Speaking ==> (after.state is Speaking <==> !level.below_silent)
            &&& gate.state is Speaking && after.state !is Speaking ==> after.state
                == (GateState::Hangover { since_samples: clock as u64 })
            &&& gate.state is Hangover && !level.at_speaking ==> {
                let passed = clock - gate.state->since_samples;
                &&& passed < limits.hangover && passed >= 0 ==> after.state == gate.state
                &&& passed >= limits.hangover && passed >= 0 ==> after.state is Silent
                &&& passed < 0 ==> (after.state is Silent <==> limits.hangover <= 0)
            }
            &&& gate.state is Silent && !level.at_speaking ==> after.state is Silent
        }),
{
}

/// Noise does not keep the silence gate open: while no window is at speaking level, a
/// grace period runs from the moment at which the level dropped, and the silence gate is silent
/// once it is over, however loud the windows are below that level and however they are
/// pushed.
pub proof fn law_only_speech_ends_the_grace_period<S>(
    limits: GateLimits,
    gate: GateModel<S>,
    samples: Seq<S>,
    levels: Seq<WindowLevel>,
    count: int,
)
    requires
        limits.window >= 1,
        gate.state is Hangover,
        gate.state->since_samples <= gate.clock,
        gate.clock - gate.state->since_samples < limits.hangover,
        gate.clock + samples.len() <= u64::MAX,
        0 <= count <= levels.len(),
        levels.len() == segmenter::segment_count(samples.len() as int, limits.window),
        forall|i: int| 0 <= i < count ==> !(#[trigger] levels[i]).at_speaking,
    ensures
        ({
            let after = run(limits, gate, samples, levels, count).0;
            let passed = after.clock - gate.state->since_samples;
            &&& after.clock == gate.clock + if count * limits.window <= samples.len() {
                count * limits.window
            } else {
                samples.len() as int
            }
            &&& passed < limits.hangover ==> after.state == gate.state
            &&& passed >= limits.hangover ==> after.state is Silent
        }),
    decreases count,
{
    let w = limits.window;
    lemma_count_bounds(samples.len() as int, w);
    if count > 0 {
        law_only_speech_ends_the_grace_period(limits, gate, samples, levels, count - 1);
        let n = levels.len() as int;
        let start = (count - 1) * w;
        assert(count * w == start + w) by (nonlinear_arith)
            requires
                start == (count - 1) * w,
        ;
        assert(0 <= start < samples.len()) by (nonlinear_arith)
            requires
                start == (count - 1) * w,
                1 <= count <= n,
                (n - 1) * w < samples.len(),
                w >= 1,
        ;
        let before = run(limits, gate, samples, levels, count - 1).0;
        let window = segmenter::segment_samples(samples, w, count - 1);
        assert(!levels[count - 1].at_speaking);
        law_states_change_for_a_reason(limits, before, window, levels[count - 1]);
    } else {
        assert(count * w == 0) by (nonlinear_arith)
            requires
                count == 0,
        ;
    }
}

/// A silent gate stays silent, and sends nothing, until a window is at speaking level.
pub proof fn law_silence_lasts_until_speech<S>(
    limits: GateLimits,
    gate: GateModel<S>,
    samples: Seq<S>,
    levels: Seq<WindowLevel>,
    count: int,
)
    requires
        gate.state is Silent,
        0 <= count <= levels.len(),
        forall|i: int| 0 <= i < count ==> !(#[trigger] levels[i]).at_speaking,
    ensures
        run(limits, gate, samples, levels, count).0.state is Silent,
        forall|i: int|
            0 <= i < joined(run(limits, gate, samples, levels, count).1).len() ==> (
            #[trigger] joined(run(limits, gate, samples, levels, count).1)[i]) is Drop,
    decreases count,
{
    if count > 0 {
        law_silence_lasts_until_speech(limits, gate, samples, levels, count - 1);
        assert(!levels[count - 1].at_speaking);
        let outcomes = run(limits, gate, samples, levels, count).1;
        assert(outcomes.drop_last() =~= run(limits, gate, samples, levels, count - 1).1);
    }
}

/// What is held back is the newest audio, as much of it as the pre-roll has room for, and
/// only what there is no room for is given up.
pub proof fn law_only_what_does_not_fit_is_given_up<S>(
    limits: GateLimits,
    gate: GateModel<S>,
    window: Seq<S>,
    level: WindowLevel,
)
    requires
        limits.pre_roll >= 0,
        is_sound(limits, gate),
        window_step(limits, gate, window, level).0.state is Silent,
    ensures
        ({
            let (after, outcome) = window_step(limits, gate, window, level);
            let heard = gate.pre_roll + window;
            let excess = heard.len() - limits.pre_roll;
            &&& outcome is Held
            &&& excess <= 0 ==> after.pre_roll == heard && outcome->Held_0 == 0
            &&& excess > 0 ==> {
                &&& after.pre_roll.len() == limits.pre_roll
                &&& outcome->Held_0 == excess
                &&& forall|i: int|
                    0 <= i < after.pre_roll.len() ==> (#[trigger] after.pre_roll[i]) == heard[i
                        + excess]
            }
        }),
{
}

/// The sizes are whole samples, rounded down, of the times that are configured; a window
/// has one sample at least.
pub proof fn law_limits_are_whole_samples(config: GateConfig)
    ensures
        ({
            let lim = limits(config);
            &&& lim.hangover * 1000 <= config.sample_rate_hz * config.hangover_ms
                < lim.hangover * 1000 + 1000
            &&& lim.pre_roll * 1000 <= config.sample_rate_hz * config.pre_roll_ms
                < lim.pre_roll * 1000 + 1000
            &&& lim.window >= 1
            &&& config.sample_rate_hz * config.vad_window_ms < lim.window * 1000 + 1000
            &&& lim.window > 1 ==> lim.window * 1000 <= config.sample_rate_hz
                * config.vad_window_ms
        }),
{
    let a = config.sample_rate_hz * config.vad_window_ms;
    assert(a >= 0) by (nonlinear_arith)
        requires
            a == config.sample_rate_hz * config.vad_window_ms,
    ;
}

/// The clock never goes back: it stops at the last sample that it can count.
pub proof fn law_the_clock_stops_at_its_end<S>(
    limits: GateLimits,
    gate: GateModel<S>,
    window: Seq<S>,
    level: WindowLevel,
)
    requires
        0 <= gate.clock <= u64::MAX,
    ensures
        gate.clock <= window_step(limits, gate, window, level).0.clock <= u64::MAX,
        gate.clock + window.len() >= u64::MAX ==> window_step(limits, gate, window, level).0.clock
            == u64::MAX,
{
}

/// A fresh silence gate is silent and holds nothing: until speech is heard, it sends
/// nothing, and keeps what it hears for as long as that fits.
pub proof fn law_a_fresh_gate_waits_for_speech<S>(
    limits: GateLimits,
    window: Seq<S>,
    level: WindowLevel,
)
    requires
        0 <= window.len() <= limits.pre_roll,
        limits.pre_roll <= u64::MAX,
    ensures
        ({
            let (after, outcome) = window_step(limits, fresh_gate::<S>(), window, level);
            &&& after.clock == window.len()
            &&& !level.at_speaking ==> outcome == Outcome::<S>::Held(0) && after.pre_roll == window
                && after.state is Silent
            &&& level.at_speaking ==> outcome == Outcome::Stitched(window)
        }),
{
    let heard = fresh_gate::<S>().pre_roll + window;
    assert(heard =~= window);
}

} // verus!
