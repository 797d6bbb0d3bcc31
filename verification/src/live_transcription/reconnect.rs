//! When a track's session is opened anew after it died, and which outages are put on
//! record.
//!
//! All times are nanoseconds since the recording started.

use super::SttFailure;
use vstd::prelude::*;

verus! {

/// The shortest outage that is worth keeping on record, in milliseconds. A session that
/// is back within about one attempt has not lost any speech worth transcribing again.
pub const MIN_RECORDED_GAP_MS: u64 = 1_000;

pub const NS_PER_MS: u64 = 1_000_000;

/// The longest delay before an attempt, in nanoseconds.
pub const LONGEST_BACKOFF_NS: u64 = 30_000_000_000;

/// Whether the clock has room for one more delay.
pub open spec fn clock_has_room(now_ns: u64) -> bool {
    now_ns + LONGEST_BACKOFF_NS <= u64::MAX
}

/// The delay before an attempt to reconnect, in milliseconds.
pub fn reconnect_backoff(attempt: u32) -> (ms: u64)
    ensures
        ms == crate::supervisor::backoff_ms(attempt),
{
    crate::supervisor::backoff_for_attempt(attempt)
}

/// Whether a session that died this way is worth opening anew. A session that ended
/// without an error, as where a provider caps its length, always is.
pub open spec fn retryable(failure: Option<SttFailure>) -> bool {
    match failure {
        Some(failure) => failure.retryable,
        None => true,
    }
}

/// Whether a session that died this way is worth opening anew.
pub fn is_disconnect_retryable(failure: &Option<SttFailure>) -> (worth: bool)
    ensures
        worth == retryable(*failure),
{
    match failure {
        Some(failure) => failure.retryable,
        None => true,
    }
}

/// Where a track stands with reconnecting.
#[derive(Debug, Clone, Copy, PartialEq, Eq, Structural)]
pub struct ReconnectState {
    /// Failed attempts in a row since the track last had a session.
    pub attempt: u32,
    /// When the next attempt is due, while one is planned.
    pub retry_at_ns: Option<u64>,
    /// When the current outage was first noticed. Failed attempts leave this alone, so
    /// that the outage is measured as a whole.
    pub disconnected_at_ns: Option<u64>,
    /// Whether an attempt is under way.
    pub in_flight: bool,
    /// The gap on record for the current outage, while it is open.
    pub open_gap_id: Option<i64>,
    pub open_gap_start_ms: Option<u64>,
}

/// What becomes of a gap that is closed.
#[derive(Debug, Clone, Copy, PartialEq, Eq, Structural)]
pub enum GapClosing {
    /// It was too short to matter.
    Discard { gap_id: i64 },
    RecordEnd { gap_id: i64, end_ms: u64 },
}

/// Whether an attempt is planned or under way.
pub open spec fn is_busy(state: ReconnectState) -> bool {
    state.retry_at_ns is Some || state.in_flight
}

/// The number of attempts after one more; it stops at the largest count it can hold.
pub open spec fn next_attempt(attempt: u32) -> u32 {
    if attempt == u32::MAX {
        attempt
    } else {
        (attempt + 1) as u32
    }
}

/// A planned attempt.
pub open spec fn armed(state: ReconnectState, now_ns: u64) -> ReconnectState {
    ReconnectState {
        attempt: next_attempt(state.attempt),
        retry_at_ns: Some(
            (now_ns + crate::supervisor::backoff_ms(state.attempt) * NS_PER_MS) as u64,
        ),
        disconnected_at_ns: match state.disconnected_at_ns {
            Some(at_ns) => Some(at_ns),
            None => Some(now_ns),
        },
        ..state
    }
}

/// Nothing planned and nothing under way. A gap that is open stays open: a track that is
/// given up on has its gap closed only when the recording ends.
pub open spec fn at_rest(state: ReconnectState) -> ReconnectState {
    ReconnectState {
        attempt: 0,
        retry_at_ns: None,
        disconnected_at_ns: None,
        in_flight: false,
        ..state
    }
}

/// A session died. While an attempt is planned or under way, this is the same outage
/// reported again.
pub open spec fn disconnected(
    state: ReconnectState,
    worth_retrying: bool,
    now_ns: u64,
) -> ReconnectState {
    if is_busy(state) {
        state
    } else if worth_retrying {
        armed(state, now_ns)
    } else {
        at_rest(state)
    }
}

/// The gap that a new outage begins with, unless the outage is on record already.
pub open spec fn gap_start(state: ReconnectState, now_ns: u64) -> Option<u64> {
    if is_busy(state) {
        None
    } else {
        Some((now_ns / NS_PER_MS) as u64)
    }
}

/// How long an outage was, in milliseconds.
pub open spec fn outage_ms(start_ms: u64, now_ns: u64) -> int {
    if now_ns / NS_PER_MS >= start_ms {
        now_ns / NS_PER_MS - start_ms
    } else {
        0
    }
}

/// What becomes of the open gap, if there is one.
pub open spec fn gap_closing(state: ReconnectState, now_ns: u64) -> Option<GapClosing> {
    match (state.open_gap_id, state.open_gap_start_ms) {
        (Some(gap_id), Some(start_ms)) => if outage_ms(start_ms, now_ns) < MIN_RECORDED_GAP_MS {
            Some(GapClosing::Discard { gap_id })
        } else {
            Some(GapClosing::RecordEnd { gap_id, end_ms: (now_ns / NS_PER_MS) as u64 })
        },
        _ => None,
    }
}

impl ReconnectState {
    /// A planned attempt and one under way exclude each other.
    pub open spec fn well_formed(self) -> bool {
        !(self.retry_at_ns is Some && self.in_flight)
    }

    pub fn new() -> (state: Self)
        ensures
            state == (ReconnectState {
                attempt: 0,
                retry_at_ns: None,
                disconnected_at_ns: None,
                in_flight: false,
                open_gap_id: None,
                open_gap_start_ms: None,
            }),
    {
        ReconnectState {
            attempt: 0,
            retry_at_ns: None,
            disconnected_at_ns: None,
            in_flight: false,
            open_gap_id: None,
            open_gap_start_ms: None,
        }
    }

    /// Plans an attempt, or the next one after another failed.
    pub fn note_disconnect(&mut self, now_ns: u64)
        requires
            clock_has_room(now_ns),
        ensures
            *final(self) == armed(*old(self), now_ns),
    {
        proof {
            crate::supervisor::law_backoff_grows_to_its_cap(self.attempt, self.attempt);
        }
        match self.disconnected_at_ns {
            Some(_) => {},
            None => {
                self.disconnected_at_ns = Some(now_ns);
            },
        }
        let delay_ms: u64 = reconnect_backoff(self.attempt);
        self.retry_at_ns = Some(now_ns + delay_ms * NS_PER_MS);
        self.attempt = self.attempt.saturating_add(1);
    }

    /// An attempt worked, or there is nothing left to try.
    pub fn reset(&mut self)
        ensures
            *final(self) == at_rest(*old(self)),
    {
        self.attempt = 0;
        self.retry_at_ns = None;
        self.disconnected_at_ns = None;
        self.in_flight = false;
    }

    /// Lets go of an attempt that is under way, and says whether there was one. Once the
    /// recording has ended, a session that is still being opened has nothing to receive.
    pub fn abort_in_flight(&mut self) -> (abort: bool)
        ensures
            abort == old(self).in_flight,
            *final(self) == (ReconnectState { in_flight: false, ..*old(self) }),
    {
        let abort: bool = self.in_flight;
        self.in_flight = false;
        abort
    }

    /// The track's session died. Says when a gap begins that has to be put on record:
    /// one for each outage, and none where the outage is known already.
    pub fn note_disconnect_and_maybe_reconnect(
        &mut self,
        failure: &Option<SttFailure>,
        now_ns: u64,
    ) -> (gap: Option<u64>)
        requires
            clock_has_room(now_ns),
        ensures
            *final(self) == disconnected(*old(self), retryable(*failure), now_ns),
            gap == gap_start(*old(self), now_ns),
    {
        if self.retry_at_ns.is_some() || self.in_flight {
            return None;
        }
        let start_ms: u64 = now_ns / NS_PER_MS;
        if is_disconnect_retryable(failure) {
            self.note_disconnect(now_ns);
        } else {
            self.reset();
        }
        Some(start_ms)
    }

    /// The gap that was asked for is on record. Where recording it failed, this is not
    /// called, and the outage cannot be transcribed later.
    pub fn open_gap(&mut self, gap_id: i64, start_ms: u64)
        ensures
            *final(self) == (ReconnectState {
                open_gap_id: Some(gap_id),
                open_gap_start_ms: Some(start_ms),
                ..*old(self)
            }),
    {
        self.open_gap_id = Some(gap_id);
        self.open_gap_start_ms = Some(start_ms);
    }

    /// The outage is over. Says what becomes of its gap, if there is one on record.
    pub fn close_open_gap(&mut self, now_ns: u64) -> (closing: Option<GapClosing>)
        ensures
            *final(self) == (ReconnectState {
                open_gap_id: None,
                open_gap_start_ms: None,
                ..*old(self)
            }),
            closing == gap_closing(*old(self), now_ns),
    {
        let id: Option<i64> = self.open_gap_id;
        let start: Option<u64> = self.open_gap_start_ms;
        self.open_gap_id = None;
        self.open_gap_start_ms = None;
        match (id, start) {
            (Some(gap_id), Some(start_ms)) => {
                let end_ms: u64 = now_ns / NS_PER_MS;
                if end_ms.saturating_sub(start_ms) < MIN_RECORDED_GAP_MS {
                    Some(GapClosing::Discard { gap_id })
                } else {
                    Some(GapClosing::RecordEnd { gap_id, end_ms })
                }
            },
            _ => None,
        }
    }

    /// Whether the planned attempt is due. Only while there is audio: a session opened
    /// after that would never be ended.
    pub fn is_due(&self, audio_open: bool, now_ns: u64) -> (due: bool)
        ensures
            due == (audio_open && !self.in_flight && (self.retry_at_ns matches Some(at_ns)
                && at_ns <= now_ns)),
    {
        match self.retry_at_ns {
            Some(at_ns) => audio_open && !self.in_flight && at_ns <= now_ns,
            None => false,
        }
    }

    /// The planned attempt is started.
    pub fn begin_attempt(&mut self)
        ensures
            *final(self) == (ReconnectState { retry_at_ns: None, in_flight: true, ..*old(self) }),
    {
        self.retry_at_ns = None;
        self.in_flight = true;
    }
}

/// An outage that is reported more than once is put on record once: the second report
/// changes nothing, as long as the first one led to a planned attempt.
pub proof fn law_one_gap_per_outage(
    state: ReconnectState,
    worth_retrying: bool,
    now_ns: u64,
    later_ns: u64,
)
    requires
        !is_busy(state),
    ensures
        ({
            let after = disconnected(state, true, now_ns);
            &&& gap_start(state, now_ns) is Some
            &&& gap_start(after, later_ns) is None
            &&& disconnected(after, worth_retrying, later_ns) == after
        }),
{
}

/// However many attempts fail, the outage counts from when it was first noticed, and the
/// delays grow up to half a minute.
pub proof fn law_failed_attempts_keep_the_outage(
    state: ReconnectState,
    now_ns: u64,
    later_ns: u64,
)
    requires
        clock_has_room(now_ns),
        clock_has_room(later_ns),
        now_ns <= later_ns,
    ensures
        ({
            let first = armed(state, now_ns);
            let second = armed(ReconnectState { in_flight: false, ..first }, later_ns);
            &&& second.disconnected_at_ns == first.disconnected_at_ns
            &&& first.disconnected_at_ns is Some
            &&& second.retry_at_ns->0 - later_ns >= first.retry_at_ns->0 - now_ns
            &&& 0 < second.retry_at_ns->0 - later_ns <= LONGEST_BACKOFF_NS
        }),
{
    crate::supervisor::law_backoff_grows_to_its_cap(state.attempt, next_attempt(state.attempt));
}

/// A planned attempt and one under way never coincide.
pub proof fn law_one_attempt_at_a_time(
    state: ReconnectState,
    worth_retrying: bool,
    now_ns: u64,
)
    requires
        state.well_formed(),
    ensures
        disconnected(state, worth_retrying, now_ns).well_formed(),
        at_rest(state).well_formed(),
        armed(ReconnectState { in_flight: false, ..state }, now_ns).well_formed(),
        (ReconnectState { retry_at_ns: None, in_flight: true, ..state }).well_formed(),
        (ReconnectState { in_flight: false, ..state }).well_formed(),
{
}

/// Giving up on a track, or being back, leaves the gap on record open until it is closed
/// by itself.
pub proof fn law_giving_up_keeps_the_gap(state: ReconnectState, now_ns: u64)
    ensures
        gap_closing(at_rest(state), now_ns) == gap_closing(state, now_ns),
        gap_closing(disconnected(state, false, now_ns), now_ns) == gap_closing(state, now_ns),
{
}

/// An outage of a second or more stays on record with its end; a shorter one is taken
/// off it.
pub proof fn law_short_outages_leave_no_record(state: ReconnectState, now_ns: u64)
    requires
        state.open_gap_id is Some,
        state.open_gap_start_ms is Some,
        state.open_gap_start_ms->0 <= now_ns / NS_PER_MS,
    ensures
        now_ns / NS_PER_MS - state.open_gap_start_ms->0 < 1_000 ==> gap_closing(state, now_ns)
            == Some(GapClosing::Discard { gap_id: state.open_gap_id->0 }),
        now_ns / NS_PER_MS - state.open_gap_start_ms->0 >= 1_000 ==> gap_closing(state, now_ns)
            == Some(
            GapClosing::RecordEnd {
                gap_id: state.open_gap_id->0,
                end_ms: (now_ns / NS_PER_MS) as u64,
            },
        ),
{
}

/// A session that died is opened anew after a while where that is worth it, and never
/// where it is not: half a second later at first, then twice as late each time, up to half
/// a minute. A new outage counts from now, and its gap begins with this millisecond.
pub proof fn law_a_dead_session_is_retried_where_that_may_help(
    state: ReconnectState,
    failure: Option<SttFailure>,
    now_ns: u64,
)
    requires
        state.retry_at_ns is None,
        !state.in_flight,
        now_ns + 30_000_000_000 <= u64::MAX,
    ensures
        ({
            let after = disconnected(state, retryable(failure), now_ns);
            let hopeless = failure matches Some(failure) && !failure.retryable;
            let delay_ns = 500_000_000 * vstd::arithmetic::power2::pow2(state.attempt as nat);
            &&& hopeless ==> {
                &&& after.retry_at_ns is None && !after.in_flight
                &&& after.attempt == 0 && after.disconnected_at_ns is None
            }
            &&& !hopeless ==> {
                &&& after.retry_at_ns is Some && !after.in_flight
                &&& after.retry_at_ns->0 - now_ns == if delay_ns <= 30_000_000_000 {
                    delay_ns as int
                } else {
                    30_000_000_000
                }
                &&& after.attempt == state.attempt + 1 || after.attempt == state.attempt
                    == u32::MAX
                &&& after.disconnected_at_ns == if state.disconnected_at_ns is None {
                    Some(now_ns)
                } else {
                    state.disconnected_at_ns
                }
            }
            &&& after.open_gap_id == state.open_gap_id
            &&& after.open_gap_start_ms == state.open_gap_start_ms
            &&& gap_start(state, now_ns) matches Some(start_ms) && start_ms * 1_000_000 <= now_ns
                < start_ms * 1_000_000 + 1_000_000
        }),
{
    vstd::arithmetic::power2::lemma_pow2_pos(state.attempt as nat);
}

/// A track that is back has nothing planned, and the next outage starts from the shortest
/// delay again.
pub proof fn law_being_back_starts_anew(state: ReconnectState, now_ns: u64)
    requires
        now_ns + 30_000_000_000 <= u64::MAX,
    ensures
        ({
            let back = at_rest(state);
            let next = disconnected(back, true, now_ns);
            &&& back.retry_at_ns is None && !back.in_flight
            &&& next.retry_at_ns == Some((now_ns + 500_000_000) as u64)
            &&& next.disconnected_at_ns == Some(now_ns)
        }),
{
    vstd::arithmetic::power2::lemma2_to64();
}

/// A gap is closed exactly where one is on record, under its own id.
pub proof fn law_only_an_open_gap_is_closed(state: ReconnectState, now_ns: u64)
    ensures
        gap_closing(state, now_ns) is Some <==> state.open_gap_id is Some
            && state.open_gap_start_ms is Some,
        gap_closing(state, now_ns) matches Some(GapClosing::Discard { gap_id })
            ==> state.open_gap_id == Some(gap_id),
        gap_closing(state, now_ns) matches Some(GapClosing::RecordEnd { gap_id, end_ms }) ==> {
            &&& state.open_gap_id == Some(gap_id)
            &&& end_ms * 1_000_000 <= now_ns < end_ms * 1_000_000 + 1_000_000
            &&& end_ms - state.open_gap_start_ms->0 >= 1_000
        },
{
}

} // verus!
