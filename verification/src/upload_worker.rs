//! Uploading committed segments, independently of capture.
//!
//! A pass attempts every pending segment once. Passes are repeated until nothing is
//! pending or enough have been made.

use vstd::prelude::*;

verus! {

/// Where a segment stands with being uploaded.
#[derive(Debug, PartialEq, Eq)]
pub enum UploadState {
    NotStarted,
    Uploading,
    Completed,
    Failed { retryable: bool, reason: String },
}

/// What a failed upload says of itself.
#[derive(Debug, PartialEq, Eq)]
pub struct UploadFailure {
    pub message: String,
    /// Whether the same attempt may work later.
    pub is_retryable: bool,
    /// Whether the attempt may work once the credentials are renewed.
    pub needs_token_refresh: bool,
}

/// How many segments a pass, or several, dealt with.
#[derive(Debug, Clone, Copy, PartialEq, Eq, Structural)]
pub struct UploadPassSummary {
    pub uploaded: u32,
    pub failed: u32,
}

impl Default for UploadPassSummary {
    fn default() -> (summary: Self)
        ensures
            summary == (UploadPassSummary { uploaded: 0, failed: 0 }),
    {
        UploadPassSummary { uploaded: 0, failed: 0 }
    }
}

/// Where a segment stands after an attempt.
pub open spec fn attempted(result: Result<(), UploadFailure>) -> UploadState {
    match result {
        Ok(_) => UploadState::Completed,
        Err(failure) => UploadState::Failed {
            retryable: failure.is_retryable || failure.needs_token_refresh,
            reason: failure.message,
        },
    }
}

/// Where a segment stands after an attempt. A failure that only wants renewed
/// credentials is worth another attempt.
pub fn state_after_attempt(result: Result<(), UploadFailure>) -> (state: UploadState)
    ensures
        state == attempted(result),
{
    match result {
        Ok(_) => UploadState::Completed,
        Err(failure) => UploadState::Failed {
            retryable: failure.is_retryable || failure.needs_token_refresh,
            reason: failure.message,
        },
    }
}

/// The number of successes among the results of a pass.
pub open spec fn successes(results: Seq<Result<(), UploadFailure>>) -> nat
    decreases results.len(),
{
    if results.len() == 0 {
        0
    } else {
        successes(results.drop_last()) + if results.last() is Ok {
            1nat
        } else {
            0nat
        }
    }
}

/// The summary of a pass that came out this way.
pub open spec fn summary_of(results: Seq<Result<(), UploadFailure>>) -> UploadPassSummary {
    UploadPassSummary {
        uploaded: successes(results) as u32,
        failed: (results.len() - successes(results)) as u32,
    }
}

/// Counts one attempt of a pass and says where its segment stands now. Before the
/// attempt, the segment was marked [`UploadState::Uploading`].
pub fn note_attempt(
    summary: &mut UploadPassSummary,
    result: Result<(), UploadFailure>,
) -> (state: UploadState)
    requires
        result is Ok ==> old(summary).uploaded < u32::MAX,
        result is Err ==> old(summary).failed < u32::MAX,
    ensures
        state == attempted(result),
        final(summary).uploaded == old(summary).uploaded + if result is Ok {
            1int
        } else {
            0
        },
        final(summary).failed == old(summary).failed + if result is Ok {
            0int
        } else {
            1
        },
{
    if result.is_ok() {
        summary.uploaded = summary.uploaded + 1;
    } else {
        summary.failed = summary.failed + 1;
    }
    state_after_attempt(result)
}

/// The outcome of a pass: where each segment stands, in order, and how many there were of
/// each kind.
pub fn upload_pending_once(results: Vec<Result<(), UploadFailure>>) -> (pass: (
    UploadPassSummary,
    Vec<UploadState>,
))
    requires
        results@.len() <= u32::MAX,
    ensures
        pass.0 == summary_of(results@),
        pass.1@.len() == results@.len(),
        forall|i: int| 0 <= i < results@.len() ==> (#[trigger] pass.1@[i]) == attempted(results@[i]),
{
    let ghost all = results@;
    let mut summary = UploadPassSummary::default();
    let mut states: Vec<UploadState> = Vec::new();
    assert(all.take(0) =~= Seq::empty());
    for result in iter: results
        invariant
            iter.seq() == all,
            all.len() <= u32::MAX,
            states@.len() == iter.index(),
            summary.uploaded == successes(all.take(iter.index() as int)),
            summary.failed == iter.index() - successes(all.take(iter.index() as int)),
            summary.uploaded + summary.failed == iter.index(),
            forall|i: int| 0 <= i < states@.len() ==> (#[trigger] states@[i]) == attempted(all[i]),
    {
        proof {
            let longer = all.take(iter.index() + 1);
            assert(longer.drop_last() =~= all.take(iter.index() as int));
            assert(longer.last() == result);
        }
        let state: UploadState = note_attempt(&mut summary, result);
        states.push(state);
    }
    assert(all.take(all.len() as int) =~= all);
    (summary, states)
}

/// Passes that are repeated until nothing is pending.
#[derive(Debug, Clone, Copy, PartialEq, Eq, Structural)]
pub struct UploadDrain {
    pub total: UploadPassSummary,
    pub passes_left: u32,
    /// Whether nothing was pending after the last pass.
    pub drained: bool,
}

/// The sum of two summaries.
pub open spec fn plus(a: UploadPassSummary, b: UploadPassSummary) -> UploadPassSummary {
    UploadPassSummary {
        uploaded: (a.uploaded + b.uploaded) as u32,
        failed: (a.failed + b.failed) as u32,
    }
}

/// A pass was made.
pub open spec fn after_pass(
    drain: UploadDrain,
    pass: UploadPassSummary,
    still_pending: bool,
) -> UploadDrain {
    UploadDrain {
        total: plus(drain.total, pass),
        passes_left: (drain.passes_left - 1) as u32,
        drained: !still_pending,
    }
}

/// Whether another pass is to be made. The number of passes is bounded, so that a failure
/// that is forever taken for a transient one cannot hold up the end of a session.
pub open spec fn wants_pass(drain: UploadDrain) -> bool {
    drain.passes_left > 0 && !drain.drained
}

impl UploadDrain {
    pub fn new(max_passes: u32) -> (drain: Self)
        ensures
            drain == (UploadDrain {
                total: UploadPassSummary { uploaded: 0, failed: 0 },
                passes_left: max_passes,
                drained: false,
            }),
    {
        UploadDrain { total: UploadPassSummary::default(), passes_left: max_passes, drained: false }
    }

    /// Whether another pass is to be made.
    pub fn next_pass(&self) -> (wanted: bool)
        ensures
            wanted == wants_pass(*self),
    {
        self.passes_left > 0 && !self.drained
    }

    /// A pass was made. Says whether to wait a while before anything else: where something
    /// is still pending, there is a pause, after the last pass too.
    pub fn pass_done(&mut self, pass: UploadPassSummary, still_pending: bool) -> (pause: bool)
        requires
            wants_pass(*old(self)),
            old(self).total.uploaded + pass.uploaded <= u32::MAX,
            old(self).total.failed + pass.failed <= u32::MAX,
        ensures
            *final(self) == after_pass(*old(self), pass, still_pending),
            pause == still_pending,
    {
        self.total.uploaded = self.total.uploaded + pass.uploaded;
        self.total.failed = self.total.failed + pass.failed;
        self.passes_left = self.passes_left - 1;
        self.drained = !still_pending;
        still_pending
    }
}

/// The drain after several passes, each with whether something was still pending after it.
/// Passes that are not wanted any more are not made.
pub open spec fn after_passes(
    drain: UploadDrain,
    passes: Seq<(UploadPassSummary, bool)>,
) -> UploadDrain
    decreases passes.len(),
{
    if passes.len() == 0 {
        drain
    } else {
        let before = after_passes(drain, passes.drop_last());
        if wants_pass(before) {
            after_pass(before, passes.last().0, passes.last().1)
        } else {
            before
        }
    }
}

/// However the passes come out, no more are made than was allowed, and none after one
/// that left nothing pending.
pub proof fn law_draining_ends(
    max_passes: u32,
    passes: Seq<(UploadPassSummary, bool)>,
    more: Seq<(UploadPassSummary, bool)>,
)
    requires
        passes.len() >= max_passes || (passes.len() > 0 && !passes.last().1),
    ensures
        ({
            let start = UploadDrain {
                total: UploadPassSummary { uploaded: 0, failed: 0 },
                passes_left: max_passes,
                drained: false,
            };
            &&& !wants_pass(after_passes(start, passes))
            &&& after_passes(start, passes + more) == after_passes(start, passes)
        }),
    decreases more.len(),
{
    let start = UploadDrain {
        total: UploadPassSummary { uploaded: 0, failed: 0 },
        passes_left: max_passes,
        drained: false,
    };
    lemma_passes_are_counted(start, passes);
    if more.len() == 0 {
        assert(passes + more =~= passes);
    } else {
        law_draining_ends(max_passes, passes, more.drop_last());
        assert((passes + more).drop_last() =~= passes + more.drop_last());
    }
}

proof fn lemma_passes_are_counted(drain: UploadDrain, passes: Seq<(UploadPassSummary, bool)>)
    ensures
        after_passes(drain, passes).drained || after_passes(drain, passes).passes_left == if passes.len()
            <= drain.passes_left {
            drain.passes_left - passes.len()
        } else {
            0
        },
        passes.len() > 0 && !passes.last().1 ==> !wants_pass(after_passes(drain, passes)),
    decreases passes.len(),
{
    if passes.len() > 0 {
        lemma_passes_are_counted(drain, passes.drop_last());
    }
}

/// A failure is worth another attempt exactly where the failure itself says so, or where
/// renewed credentials may help; and its reason is kept.
pub proof fn law_failures_are_classified(failure: UploadFailure)
    ensures
        attempted(Err(failure)) matches UploadState::Failed { retryable, reason } && reason
            == failure.message && (retryable <==> failure.is_retryable
            || failure.needs_token_refresh),
        attempted(Ok(())) is Completed,
{
}

/// Every attempt of a pass counts once, as a success or as a failure, wherever in the pass
/// it was made.
pub proof fn law_every_attempt_counts_once(
    first: Seq<Result<(), UploadFailure>>,
    second: Seq<Result<(), UploadFailure>>,
    failure: UploadFailure,
)
    requires
        first.len() + second.len() <= u32::MAX,
    ensures
        ({
            let all = summary_of(first + second);
            &&& all.uploaded == summary_of(first).uploaded + summary_of(second).uploaded
            &&& all.failed == summary_of(first).failed + summary_of(second).failed
            &&& all.uploaded + all.failed == first.len() + second.len()
        }),
        summary_of(Seq::empty()) == (UploadPassSummary { uploaded: 0, failed: 0 }),
        summary_of(seq![Ok(())]) == (UploadPassSummary { uploaded: 1, failed: 0 }),
        summary_of(seq![Err(failure)]) == (UploadPassSummary { uploaded: 0, failed: 1 }),
{
    lemma_successes_add_up(first, second);
    lemma_successes_are_attempts(first);
    lemma_successes_are_attempts(second);
    reveal_with_fuel(successes, 2);
    let one: Seq<Result<(), UploadFailure>> = seq![Ok(())];
    let none: Seq<Result<(), UploadFailure>> = seq![Err(failure)];
    assert(one.drop_last() =~= Seq::empty());
    assert(none.drop_last() =~= Seq::empty());
    assert(one.last() is Ok);
    assert(none.last() is Err);
}

proof fn lemma_successes_are_attempts(results: Seq<Result<(), UploadFailure>>)
    ensures
        successes(results) <= results.len(),
    decreases results.len(),
{
    if results.len() > 0 {
        lemma_successes_are_attempts(results.drop_last());
    }
}

proof fn lemma_successes_add_up(
    first: Seq<Result<(), UploadFailure>>,
    second: Seq<Result<(), UploadFailure>>,
)
    ensures
        successes(first + second) == successes(first) + successes(second),
    decreases second.len(),
{
    if second.len() == 0 {
        assert(first + second =~= first);
    } else {
        lemma_successes_add_up(first, second.drop_last());
        assert((first + second).drop_last() =~= first + second.drop_last());
        assert((first + second).last() == second.last());
    }
}

/// Passes are made for as long as something is pending, up to the number that is allowed,
/// and what they dealt with adds up.
pub proof fn law_draining_goes_on_while_something_is_pending(
    max_passes: u32,
    passes: Seq<(UploadPassSummary, bool)>,
    pass: UploadPassSummary,
    still_pending: bool,
)
    requires
        passes.len() < max_passes,
        forall|i: int| 0 <= i < passes.len() ==> (#[trigger] passes[i]).1,
        after_passes(
            UploadDrain {
                total: UploadPassSummary { uploaded: 0, failed: 0 },
                passes_left: max_passes,
                drained: false,
            },
            passes,
        ).total.uploaded + pass.uploaded <= u32::MAX,
        after_passes(
            UploadDrain {
                total: UploadPassSummary { uploaded: 0, failed: 0 },
                passes_left: max_passes,
                drained: false,
            },
            passes,
        ).total.failed + pass.failed <= u32::MAX,
    ensures
        ({
            let start = UploadDrain {
                total: UploadPassSummary { uploaded: 0, failed: 0 },
                passes_left: max_passes,
                drained: false,
            };
            let before = after_passes(start, passes);
            let after = after_passes(start, passes.push((pass, still_pending)));
            &&& wants_pass(before)
            &&& after.total.uploaded == before.total.uploaded + pass.uploaded
            &&& after.total.failed == before.total.failed + pass.failed
            &&& wants_pass(after) <==> still_pending && passes.len() + 1 < max_passes
        }),
    decreases passes.len(),
{
    let start = UploadDrain {
        total: UploadPassSummary { uploaded: 0, failed: 0 },
        passes_left: max_passes,
        drained: false,
    };
    lemma_pending_passes_are_made(start, passes);
    let longer = passes.push((pass, still_pending));
    assert(longer.drop_last() =~= passes);
}

proof fn lemma_pending_passes_are_made(
    drain: UploadDrain,
    passes: Seq<(UploadPassSummary, bool)>,
)
    requires
        passes.len() <= drain.passes_left,
        !drain.drained,
        forall|i: int| 0 <= i < passes.len() ==> (#[trigger] passes[i]).1,
    ensures
        !after_passes(drain, passes).drained,
        after_passes(drain, passes).passes_left == drain.passes_left - passes.len(),
    decreases passes.len(),
{
    if passes.len() > 0 {
        let earlier = passes.drop_last();
        assert forall|i: int| 0 <= i < earlier.len() implies (#[trigger] earlier[i]).1 by {
            assert(earlier[i] == passes[i]);
        }
        lemma_pending_passes_are_made(drain, earlier);
        assert(passes.last() == passes[passes.len() - 1]);
    }
}

} // verus!
