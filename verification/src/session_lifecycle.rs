//! The life of a recording session: begin, end, and recovery after a crash.
//!
//! The store and the remote service are called by whoever drives this; the functions here
//! say which call comes next and what follows from its result.

use crate::domain::{AudioSegment, SessionId};
use crate::error::AppServiceError;
use vstd::prelude::*;

verus! {

/// Where a session stands.
#[derive(Debug, PartialEq, Eq)]
pub enum CaptureState {
    Preparing,
    Recording,
    Stopping,
    Finalizing,
    Finalized,
    Failed { recoverable: bool, reason: String },
}

/// What is recorded when a session has begun.
#[derive(Debug, PartialEq, Eq)]
pub struct SessionStart {
    /// The id under which the remote service knows the session, if it does.
    pub remote_session_id: Option<String>,
    pub state: CaptureState,
}

/// Begins a session that is on record locally, given how its registration with the remote
/// service came out. A service that cannot be reached does not keep a recording from
/// starting.
pub fn begin_session(registration: Result<String, String>) -> (start: SessionStart)
    ensures
        start.state == CaptureState::Recording,
        start.remote_session_id == match registration {
            Ok(id) => Some(id),
            Err(_) => None::<String>,
        },
{
    let remote_session_id: Option<String> = match registration {
        Ok(id) => Some(id),
        Err(_) => None,
    };
    SessionStart { remote_session_id, state: CaptureState::Recording }
}

/// The steps that end a session, in order.
#[derive(Debug, Clone, Copy, PartialEq, Eq, Structural)]
pub enum EndStep {
    MarkStopping,
    MarkFinalizing,
    /// Upload what is still pending.
    DrainUploads,
    /// Tell the remote service that the session is complete.
    FinalizeRemote,
    MarkFinalized,
    Done,
}

/// The step after a step that worked.
pub open spec fn following(step: EndStep) -> EndStep {
    match step {
        EndStep::MarkStopping => EndStep::MarkFinalizing,
        EndStep::MarkFinalizing => EndStep::DrainUploads,
        EndStep::DrainUploads => EndStep::FinalizeRemote,
        EndStep::FinalizeRemote => EndStep::MarkFinalized,
        EndStep::MarkFinalized => EndStep::Done,
        EndStep::Done => EndStep::Done,
    }
}

/// The state to record in a step, if it is one that records a state.
pub open spec fn marked(step: EndStep) -> Option<CaptureState> {
    match step {
        EndStep::MarkStopping => Some(CaptureState::Stopping),
        EndStep::MarkFinalizing => Some(CaptureState::Finalizing),
        EndStep::MarkFinalized => Some(CaptureState::Finalized),
        _ => None,
    }
}

/// The first step of ending a session that was recording.
pub fn end_session() -> (step: EndStep)
    ensures
        step == EndStep::MarkStopping,
{
    EndStep::MarkStopping
}

/// The first step of completing a session that was recovered: its end was never reached,
/// and it is on record as failed.
pub fn finalize_and_upload() -> (step: EndStep)
    ensures
        step == EndStep::DrainUploads,
{
    EndStep::DrainUploads
}

/// The step after one whose result is known. An error ends it all.
pub fn next_end_step(step: EndStep, result: Result<(), AppServiceError>) -> (next: Result<
    EndStep,
    AppServiceError,
>)
    ensures
        next == match result {
            Ok(_) => Ok::<EndStep, AppServiceError>(following(step)),
            Err(error) => Err(error),
        },
{
    match result {
        Ok(_) => Ok(
            match step {
                EndStep::MarkStopping => EndStep::MarkFinalizing,
                EndStep::MarkFinalizing => EndStep::DrainUploads,
                EndStep::DrainUploads => EndStep::FinalizeRemote,
                EndStep::FinalizeRemote => EndStep::MarkFinalized,
                EndStep::MarkFinalized => EndStep::Done,
                EndStep::Done => EndStep::Done,
            },
        ),
        Err(error) => Err(error),
    }
}

/// The state to record in a step, if it is one that records a state.
pub fn state_to_record(step: EndStep) -> (state: Option<CaptureState>)
    ensures
        state == marked(step),
{
    match step {
        EndStep::MarkStopping => Some(CaptureState::Stopping),
        EndStep::MarkFinalizing => Some(CaptureState::Finalizing),
        EndStep::MarkFinalized => Some(CaptureState::Finalized),
        _ => None,
    }
}

/// The step after `count` more that worked.
pub open spec fn after_steps(step: EndStep, count: nat) -> EndStep
    decreases count,
{
    if count == 0 {
        step
    } else {
        following(after_steps(step, (count - 1) as nat))
    }
}

/// A session goes from stopping to finalizing to finalized, and is on record as finalized
/// only once its uploads were drained and the remote service has confirmed it; and both
/// ways of ending a session come to an end.
pub proof fn law_finalized_means_confirmed(step: EndStep)
    ensures
        following(step) == EndStep::MarkFinalized ==> step == EndStep::FinalizeRemote,
        following(step) == EndStep::FinalizeRemote ==> step == EndStep::DrainUploads,
        marked(step) == Some(CaptureState::Finalized) ==> step == EndStep::MarkFinalized,
        marked(EndStep::MarkFinalized) == Some(CaptureState::Finalized),
        marked(EndStep::MarkStopping) == Some(CaptureState::Stopping),
        marked(EndStep::MarkFinalizing) == Some(CaptureState::Finalizing),
        marked(EndStep::DrainUploads) is None && marked(EndStep::FinalizeRemote) is None,
        after_steps(EndStep::MarkStopping, 1) == EndStep::MarkFinalizing,
        after_steps(EndStep::MarkStopping, 2) == EndStep::DrainUploads,
        after_steps(EndStep::MarkStopping, 3) == EndStep::FinalizeRemote,
        after_steps(EndStep::MarkStopping, 4) == EndStep::MarkFinalized,
        after_steps(EndStep::MarkStopping, 5) == EndStep::Done,
        after_steps(EndStep::DrainUploads, 3) == EndStep::Done,
{
    reveal_with_fuel(after_steps, 6);
}

/// Whether a list holds a session.
pub open spec fn lists(sessions: Seq<SessionId>, session_id: SessionId) -> bool {
    exists|i: int| 0 <= i < sessions.len() && #[trigger] sessions[i] == session_id
}

/// The first list, followed by whatever of the second is not in it yet.
pub open spec fn merged(first: Seq<SessionId>, second: Seq<SessionId>) -> Seq<SessionId>
    decreases second.len(),
{
    if second.len() == 0 {
        first
    } else {
        let before = merged(first, second.drop_last());
        if lists(before, second.last()) {
            before
        } else {
            before.push(second.last())
        }
    }
}

fn is_listed(sessions: &Vec<SessionId>, session_id: SessionId) -> (listed: bool)
    ensures
        listed == lists(sessions@, session_id),
{
    let n: usize = sessions.len();
    let mut i: usize = 0;
    while i < n
        invariant
            n == sessions@.len(),
            i <= n,
            forall|k: int| 0 <= k < i ==> #[trigger] sessions@[k] != session_id,
        decreases n - i,
    {
        if sessions[i].0 == session_id.0 {
            assert(sessions@[i as int] == session_id);
            return true;
        }
        i = i + 1;
    }
    false
}

/// The sessions to recover: those that a crash left unfinished, and then those that ended
/// but were never registered with the remote service.
fn sessions_to_recover(
    unfinished: Vec<SessionId>,
    unregistered: Vec<SessionId>,
) -> (sessions: Vec<SessionId>)
    ensures
        sessions@ == merged(unfinished@, unregistered@),
{
    let ghost first = unfinished@;
    let mut sessions: Vec<SessionId> = unfinished;
    let n: usize = unregistered.len();
    let mut i: usize = 0;
    assert(unregistered@.take(0) =~= Seq::empty());
    while i < n
        invariant
            n == unregistered@.len(),
            i <= n,
            sessions@ == merged(first, unregistered@.take(i as int)),
        decreases n - i,
    {
        proof {
            let longer = unregistered@.take(i + 1);
            assert(longer.drop_last() =~= unregistered@.take(i as int));
            assert(longer.last() == unregistered@[i as int]);
        }
        if !is_listed(&sessions, unregistered[i]) {
            sessions.push(unregistered[i]);
        }
        i = i + 1;
    }
    assert(unregistered@.take(n as int) =~= unregistered@);
    sessions
}

/// Every session that has to be recovered is recovered, and no other.
pub proof fn law_no_session_is_forgotten(
    first: Seq<SessionId>,
    second: Seq<SessionId>,
    session_id: SessionId,
)
    ensures
        lists(merged(first, second), session_id) <==> lists(first, session_id) || lists(
            second,
            session_id,
        ),
    decreases second.len(),
{
    if second.len() > 0 {
        let before = merged(first, second.drop_last());
        law_no_session_is_forgotten(first, second.drop_last(), session_id);
        lemma_listed_after_push(second.drop_last(), second.last(), session_id);
        assert(second.drop_last().push(second.last()) =~= second);
        lemma_listed_after_push(before, second.last(), session_id);
    }
}

proof fn lemma_listed_after_push(sessions: Seq<SessionId>, last: SessionId, session_id: SessionId)
    ensures
        lists(sessions.push(last), session_id) <==> lists(sessions, session_id) || last
            == session_id,
{
    let longer = sessions.push(last);
    if lists(sessions, session_id) {
        let i = choose|i: int| 0 <= i < sessions.len() && #[trigger] sessions[i] == session_id;
        assert(longer[i] == session_id);
    }
    if last == session_id {
        assert(longer[sessions.len() as int] == session_id);
    }
    if lists(longer, session_id) {
        let i = choose|i: int| 0 <= i < longer.len() && #[trigger] longer[i] == session_id;
        if i < sessions.len() {
            assert(sessions[i] == session_id);
        }
    }
}

/// No session is recovered twice.
pub proof fn law_no_session_is_recovered_twice(first: Seq<SessionId>, second: Seq<SessionId>)
    requires
        first.no_duplicates(),
    ensures
        merged(first, second).no_duplicates(),
    decreases second.len(),
{
    if second.len() > 0 {
        law_no_session_is_recovered_twice(first, second.drop_last());
        let before = merged(first, second.drop_last());
        let last = second.last();
        if !lists(before, last) {
            let after = before.push(last);
            assert forall|i: int, j: int|
                0 <= i < after.len() && 0 <= j < after.len() && i != j implies after[i]
                != after[j] by {
                if i < before.len() && j < before.len() {
                    assert(before[i] != before[j]);
                } else if i < before.len() {
                    assert(before[i] != last);
                } else {
                    assert(before[j] != last);
                }
            }
        }
    }
}

/// The recovery of a list of sessions, one after the other.
#[derive(Debug, PartialEq, Eq)]
pub struct Recovery {
    pub sessions: Vec<SessionId>,
    /// How many of them have been dealt with.
    pub dealt_with: usize,
    /// Those that were completed, in order.
    pub finalized: Vec<SessionId>,
}

impl Recovery {
    pub open spec fn well_formed(self) -> bool {
        self.dealt_with <= self.sessions@.len()
    }

    /// The session to deal with next, if there is one left.
    pub fn current(&self) -> (session_id: Option<SessionId>)
        requires
            self.well_formed(),
        ensures
            session_id == if self.dealt_with < self.sessions@.len() {
                Some(self.sessions@[self.dealt_with as int])
            } else {
                None
            },
    {
        if self.dealt_with < self.sessions.len() {
            Some(self.sessions[self.dealt_with])
        } else {
            None
        }
    }

    /// The current session was dealt with: completed, or left for the next start. The
    /// others go on either way. With no session left this does nothing.
    pub fn dealt(&mut self, completed: bool)
        requires
            old(self).well_formed(),
        ensures
            final(self).well_formed(),
            final(self).sessions == old(self).sessions,
            old(self).dealt_with < old(self).sessions@.len() ==> {
                &&& final(self).dealt_with == old(self).dealt_with + 1
                &&& final(self).finalized@ == if completed {
                    old(self).finalized@.push(old(self).sessions@[old(self).dealt_with as int])
                } else {
                    old(self).finalized@
                }
            },
            old(self).dealt_with == old(self).sessions@.len() ==> *final(self) == *old(self),
    {
        if self.dealt_with < self.sessions.len() {
            if completed {
                self.finalized.push(self.sessions[self.dealt_with]);
            }
            self.dealt_with = self.dealt_with + 1;
        }
    }
}

/// Begins the recovery of every session that needs it.
pub fn recover_incomplete_sessions(
    unfinished: Vec<SessionId>,
    unregistered: Vec<SessionId>,
) -> (recovery: Recovery)
    ensures
        recovery.well_formed(),
        recovery.sessions@ == merged(unfinished@, unregistered@),
        recovery.dealt_with == 0,
        recovery.finalized@ == Seq::<SessionId>::empty(),
{
    Recovery {
        sessions: sessions_to_recover(unfinished, unregistered),
        dealt_with: 0,
        finalized: Vec::new(),
    }
}

/// What to do with a session that is being recovered.
#[derive(Debug, PartialEq, Eq)]
pub enum RecoveryStep {
    /// Try to register it with the remote service.
    Register,
    /// Complete it under this remote id.
    Finalize { remote_session_id: String },
    /// Leave it for the next start.
    Skip,
}

/// What to do first, given the remote id on record and whether the session's manifest is.
pub fn begin_recovery(remote_session_id: Option<String>, has_manifest: bool) -> (step: RecoveryStep)
    ensures
        step == match remote_session_id {
            Some(remote_session_id) => RecoveryStep::Finalize { remote_session_id },
            None => if has_manifest {
                RecoveryStep::Register
            } else {
                RecoveryStep::Skip
            },
        },
{
    match remote_session_id {
        Some(remote_session_id) => RecoveryStep::Finalize { remote_session_id },
        None => if has_manifest {
            RecoveryStep::Register
        } else {
            RecoveryStep::Skip
        },
    }
}

/// What to do once registration was tried. A session that still cannot be registered stays
/// as it is and is tried again on every start.
pub fn try_register_remote_session(registration: Result<String, String>) -> (step: RecoveryStep)
    ensures
        step == match registration {
            Ok(remote_session_id) => RecoveryStep::Finalize { remote_session_id },
            Err(_) => RecoveryStep::Skip,
        },
{
    match registration {
        Ok(remote_session_id) => RecoveryStep::Finalize { remote_session_id },
        Err(_) => RecoveryStep::Skip,
    }
}

/// The latest end of any of these segments; zero where there are none.
pub open spec fn latest_end(segments: Seq<AudioSegment>) -> int
    decreases segments.len(),
{
    if segments.len() == 0 {
        0
    } else {
        let before = latest_end(segments.drop_last());
        if segments.last().end_ms() > before {
            segments.last().end_ms()
        } else {
            before
        }
    }
}

fn latest_end_ms(segments: &[AudioSegment]) -> (latest: u64)
    requires
        crate::retranscribe::ends_fit(segments@),
    ensures
        latest == latest_end(segments@),
{
    let n: usize = segments.len();
    let mut latest: u64 = 0;
    let mut i: usize = 0;
    assert(segments@.take(0) =~= Seq::empty());
    while i < n
        invariant
            n == segments@.len(),
            i <= n,
            crate::retranscribe::ends_fit(segments@),
            latest == latest_end(segments@.take(i as int)),
        decreases n - i,
    {
        proof {
            let longer = segments@.take(i + 1);
            assert(longer.drop_last() =~= segments@.take(i as int));
            assert(longer.last() == segments@[i as int]);
        }
        let end: u64 = segments[i].timeline_start_ms + segments[i].duration_ms as u64;
        if end > latest {
            latest = end;
        }
        i = i + 1;
    }
    assert(segments@.take(n as int) =~= segments@);
    latest
}

/// How long a session was, by what is on record alone: the latest end of any committed
/// segment on either track. Where there is none, the session counts as one segment long.
pub fn estimate_total_duration_ms(
    self_segments: &[AudioSegment],
    remote_segments: &[AudioSegment],
    fallback_segment_duration_ms: u64,
) -> (total_ms: u64)
    requires
        crate::retranscribe::ends_fit(self_segments@),
        crate::retranscribe::ends_fit(remote_segments@),
    ensures
        // No segment ends later, and one of them ends then, unless all of them are empty.
        forall|i: int|
            0 <= i < self_segments@.len() ==> (#[trigger] self_segments@[i]).timeline_start_ms
                + self_segments@[i].duration_ms <= total_ms,
        forall|i: int|
            0 <= i < remote_segments@.len() ==> (#[trigger] remote_segments@[i]).timeline_start_ms
                + remote_segments@[i].duration_ms <= total_ms,
        total_ms == fallback_segment_duration_ms || (exists|i: int|
            0 <= i < self_segments@.len() && (#[trigger] self_segments@[i]).timeline_start_ms
                + self_segments@[i].duration_ms == total_ms) || (exists|i: int|
            0 <= i < remote_segments@.len() && (#[trigger] remote_segments@[i]).timeline_start_ms
                + remote_segments@[i].duration_ms == total_ms),
        self_segments@.len() == 0 && remote_segments@.len() == 0 ==> total_ms
            == fallback_segment_duration_ms,
        ({
            let latest = vstd::math::max(latest_end(self_segments@), latest_end(remote_segments@));
            total_ms == if latest == 0 {
                fallback_segment_duration_ms as int
            } else {
                latest
            }
        }),
{
    let of_self: u64 = latest_end_ms(self_segments);
    let of_remote: u64 = latest_end_ms(remote_segments);
    proof {
        law_latest_end_is_the_latest(self_segments@);
        law_latest_end_is_the_latest(remote_segments@);
    }
    let latest: u64 = if of_self > of_remote {
        of_self
    } else {
        of_remote
    };
    if latest == 0 {
        fallback_segment_duration_ms
    } else {
        latest
    }
}

/// The latest end is at or after the end of every segment, and it is the end of one.
pub proof fn law_latest_end_is_the_latest(segments: Seq<AudioSegment>)
    ensures
        forall|i: int|
            0 <= i < segments.len() ==> (#[trigger] segments[i]).end_ms() <= latest_end(segments),
        latest_end(segments) == 0 || exists|i: int|
            0 <= i < segments.len() && (#[trigger] segments[i]).end_ms() == latest_end(segments),
    decreases segments.len(),
{
    if segments.len() > 0 {
        let earlier = segments.drop_last();
        law_latest_end_is_the_latest(earlier);
        assert(segments.last() == segments[segments.len() - 1]);
        assert forall|i: int| 0 <= i < segments.len() implies (#[trigger] segments[i]).end_ms()
            <= latest_end(segments) by {
            if i < earlier.len() {
                assert(earlier[i] == segments[i]);
            }
        }
        if latest_end(segments) == segments.last().end_ms() {
            assert(segments[segments.len() - 1].end_ms() == latest_end(segments));
        } else if latest_end(segments) != 0 {
            let i = choose|i: int|
                0 <= i < earlier.len() && (#[trigger] earlier[i]).end_ms() == latest_end(earlier);
            assert(segments[i] == earlier[i]);
        }
    }
}

/// Where segments lie in order, as they are committed, the latest end is that of the last.
pub proof fn law_last_segment_ends_last(segments: Seq<AudioSegment>)
    requires
        segments.len() > 0,
        forall|i: int|
            0 <= i < segments.len() ==> (#[trigger] segments[i]).end_ms() <= segments.last().end_ms(),
    ensures
        latest_end(segments) == segments.last().end_ms(),
{
    law_latest_end_is_the_latest(segments);
    assert(segments.last() == segments[segments.len() - 1]);
}

/// What a crash left unfinished is recovered first and in its order, and what was never
/// registered follows in its own.
pub proof fn law_unfinished_sessions_are_recovered_first(
    first: Seq<SessionId>,
    second: Seq<SessionId>,
    third: Seq<SessionId>,
)
    ensures
        merged(first, second).len() >= first.len(),
        merged(first, second).take(first.len() as int) == first,
        merged(first, second + third) == merged(merged(first, second), third),
        first.len() == 0 && second.no_duplicates() ==> merged(first, second) == second,
    decreases second.len() + third.len(),
{
    if third.len() > 0 {
        law_unfinished_sessions_are_recovered_first(first, second, third.drop_last());
        assert((second + third).drop_last() =~= second + third.drop_last());
        assert((second + third).last() == third.last());
    } else {
        assert(second + third =~= second);
        if second.len() > 0 {
            let earlier = second.drop_last();
            law_unfinished_sessions_are_recovered_first(first, earlier, third);
            let before = merged(first, earlier);
            assert(merged(first, second).take(first.len() as int) =~= before.take(
                first.len() as int,
            ));
            if first.len() == 0 && second.no_duplicates() {
                assert(earlier.no_duplicates());
                if lists(earlier, second.last()) {
                    let i = choose|i: int|
                        0 <= i < earlier.len() && #[trigger] earlier[i] == second.last();
                    assert(second[i] == second[second.len() - 1]);
                }
                assert(merged(first, second) =~= second);
            }
        } else {
            assert(first.take(first.len() as int) =~= first);
            if first.len() == 0 {
                assert(merged(first, second) =~= second);
            }
        }
    }
}

} // verus!
