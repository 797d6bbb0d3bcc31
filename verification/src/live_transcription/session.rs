//! Live transcription of one recording, from its first session to its end.
//!
//! [`LiveTranscription`] is told of everything that happens, one thing at a time, and says
//! what follows from it. Whoever drives it holds the sessions, the timers and the store.
//! A gap that it asks for is handed back with [`LiveTranscription::gap_opened`] before
//! anything else.

use super::persist::{self, PendingInterim, PersistedEvent, SttEvent, TranscriptUpdate};
use super::reconnect::{self, GapClosing, ReconnectState};
use super::remote::{self, KeepAliveEffect, RemoteGateState, RemoteModel};
use super::{
    SttFailure, StartOutcome, TrackTranscriptionStatus, TranscriptionStatus,
};
use crate::domain::{SessionId, TrackKind, TranscriptSegment};
use crate::timestamp_mapper::TimestampMapper;
use vstd::prelude::*;

verus! {

/// How an attempt to reconnect came out.
#[derive(Debug, PartialEq, Eq)]
pub enum AttemptOutcome {
    Finished(StartOutcome),
    /// The attempt broke off without a result.
    Lost { error: String },
}

/// What an event comes to.
#[derive(Debug, PartialEq, Eq)]
pub struct EventOutcome {
    /// What to store and publish.
    pub persisted: Option<PersistedEvent>,
    /// When a gap begins that has to be put on record, in milliseconds.
    pub gap_start_ms: Option<u64>,
}

/// What the end of a track's events comes to.
#[derive(Debug, PartialEq, Eq)]
pub struct ClosedOutcome {
    /// What to store of the words that were never confirmed.
    pub segment: Option<TranscriptSegment>,
    /// When a gap begins that has to be put on record, in milliseconds.
    pub gap_start_ms: Option<u64>,
}

/// What the end of the recording comes to.
#[derive(Debug, PartialEq, Eq)]
pub struct Ending {
    /// Whether an attempt to reconnect has to be broken off.
    pub abort_self: bool,
    pub abort_remote: bool,
    /// What becomes of the gaps that are still open.
    pub self_gap: Option<GapClosing>,
    pub remote_gap: Option<GapClosing>,
    /// Whether there is a session to end. Both are ended at the same time.
    pub finalize_self: bool,
    pub finalize_remote: bool,
    /// What to publish once they have ended.
    pub update: TranscriptUpdate,
}

/// The state of live transcription.
#[verifier::ext_equal]
pub struct LiveModel {
    /// Whether audio is still coming.
    pub audio_open: bool,
    pub self_session: bool,
    /// Whether events of the self track are still coming.
    pub self_events: bool,
    pub self_samples_sent: int,
    pub self_reconnect: ReconnectState,
    pub self_interim: Option<PendingInterim>,
    pub self_segments: u64,
    pub self_revision: u32,
    pub remote: RemoteModel,
    pub remote_events: bool,
    pub remote_interim: Option<PendingInterim>,
    pub remote_segments: u64,
    pub remote_revision: u32,
    pub status: TranscriptionStatus,
}

/// The state in which live transcription begins.
pub open spec fn beginning(
    self_connected: bool,
    remote_connected: bool,
    silence_gate_enabled: bool,
    status: TranscriptionStatus,
    now_ns: u64,
) -> LiveModel {
    LiveModel {
        audio_open: true,
        self_session: self_connected,
        self_events: self_connected,
        self_samples_sent: 0,
        self_reconnect: fresh_reconnect(),
        self_interim: None,
        self_segments: 0,
        self_revision: 0,
        remote: RemoteModel {
            session: remote_connected,
            checkpoints: if silence_gate_enabled {
                Some(Seq::empty())
            } else {
                None
            },
            samples_sent: 0,
            total_injected: 0,
            net_offset: 0,
            last_active_ns: now_ns,
            reconnect: fresh_reconnect(),
        },
        remote_events: remote_connected,
        remote_interim: None,
        remote_segments: 0,
        remote_revision: 0,
        status,
    }
}

/// Whether a track has a session.
pub open spec fn has_session(m: LiveModel, track: TrackKind) -> bool {
    match track {
        TrackKind::SelfMic => m.self_session,
        TrackKind::RemoteAudio => m.remote.session,
    }
}

/// Where a track stands with reconnecting.
pub open spec fn reconnect_of(m: LiveModel, track: TrackKind) -> ReconnectState {
    match track {
        TrackKind::SelfMic => m.self_reconnect,
        TrackKind::RemoteAudio => m.remote.reconnect,
    }
}

/// The number of a track's next segment.
pub open spec fn segments_of(m: LiveModel, track: TrackKind) -> u64 {
    match track {
        TrackKind::SelfMic => m.self_segments,
        TrackKind::RemoteAudio => m.remote_segments,
    }
}

/// The revision of the next update of that segment.
pub open spec fn revision_of(m: LiveModel, track: TrackKind) -> u32 {
    match track {
        TrackKind::SelfMic => m.self_revision,
        TrackKind::RemoteAudio => m.remote_revision,
    }
}

/// A track's unconfirmed transcript.
pub open spec fn interim_of(m: LiveModel, track: TrackKind) -> Option<PendingInterim> {
    match track {
        TrackKind::SelfMic => m.self_interim,
        TrackKind::RemoteAudio => m.remote_interim,
    }
}

/// The same with a track's reconnecting replaced.
pub open spec fn with_reconnect(
    m: LiveModel,
    track: TrackKind,
    reconnect: ReconnectState,
) -> LiveModel {
    match track {
        TrackKind::SelfMic => LiveModel { self_reconnect: reconnect, ..m },
        TrackKind::RemoteAudio => LiveModel { remote: RemoteModel { reconnect, ..m.remote }, ..m },
    }
}

/// The same with a track's status replaced.
pub open spec fn reporting(
    m: LiveModel,
    track: TrackKind,
    status: TrackTranscriptionStatus,
) -> LiveModel {
    LiveModel { status: super::with_status(m.status, track, status), ..m }
}

/// A track's session died.
pub open spec fn failed(
    m: LiveModel,
    track: TrackKind,
    failure: Option<SttFailure>,
    now_ns: u64,
) -> LiveModel {
    let reported = match failure {
        Some(failure) => reporting(
            m,
            track,
            TrackTranscriptionStatus::Error(failure.message),
        ),
        None => m,
    };
    match track {
        TrackKind::SelfMic => LiveModel {
            self_session: false,
            self_reconnect: reconnect::disconnected(
                m.self_reconnect,
                reconnect::retryable(failure),
                now_ns,
            ),
            ..reported
        },
        TrackKind::RemoteAudio => LiveModel {
            remote: remote::disconnected(m.remote, failure, now_ns),
            ..reported
        },
    }
}

/// The recording ended.
pub open spec fn ended(m: LiveModel) -> LiveModel {
    LiveModel {
        audio_open: false,
        self_session: false,
        self_reconnect: ReconnectState {
            in_flight: false,
            open_gap_id: None,
            open_gap_start_ms: None,
            ..m.self_reconnect
        },
        remote: RemoteModel {
            session: false,
            reconnect: ReconnectState {
                in_flight: false,
                open_gap_id: None,
                open_gap_start_ms: None,
                ..m.remote.reconnect
            },
            ..m.remote
        },
        ..m
    }
}

/// Whether an attempt to reconnect is due.
pub open spec fn attempt_due(m: LiveModel, track: TrackKind, now_ns: u64) -> bool {
    let state = reconnect_of(m, track);
    m.audio_open && !state.in_flight && (state.retry_at_ns matches Some(at_ns) && at_ns <= now_ns)
}

/// An attempt to reconnect was started.
pub open spec fn attempting(m: LiveModel, track: TrackKind) -> LiveModel {
    reporting(
        with_reconnect(
            m,
            track,
            ReconnectState { retry_at_ns: None, in_flight: true, ..reconnect_of(m, track) },
        ),
        track,
        TrackTranscriptionStatus::Connecting,
    )
}

/// A new session is open on a track.
pub open spec fn reconnected(
    m: LiveModel,
    track: TrackKind,
    target_rate_hz: u32,
    now_ns: u64,
) -> LiveModel {
    match track {
        TrackKind::SelfMic => LiveModel {
            self_session: true,
            self_events: true,
            self_samples_sent: 0,
            self_reconnect: reconnect::at_rest(
                ReconnectState {
                    open_gap_id: None,
                    open_gap_start_ms: None,
                    ..m.self_reconnect
                },
            ),
            ..m
        },
        TrackKind::RemoteAudio => LiveModel {
            remote: remote::reconnected(m.remote, target_rate_hz, now_ns),
            remote_events: true,
            ..m
        },
    }
}

/// An attempt to reconnect came out some way. A result that is not waited for any more
/// changes nothing.
pub open spec fn attempted(
    m: LiveModel,
    track: TrackKind,
    outcome: AttemptOutcome,
    target_rate_hz: u32,
    now_ns: u64,
) -> LiveModel {
    let state = reconnect_of(m, track);
    if !state.in_flight {
        m
    } else {
        let landed = with_reconnect(m, track, ReconnectState { in_flight: false, ..state });
        let again = reconnect::armed(ReconnectState { in_flight: false, ..state }, now_ns);
        match outcome {
            AttemptOutcome::Finished(started) => {
                let reported = reporting(landed, track, super::started_status(started));
                if started is Connected {
                    reconnected(reported, track, target_rate_hz, now_ns)
                } else {
                    with_reconnect(reported, track, again)
                }
            },
            AttemptOutcome::Lost { error } => with_reconnect(
                reporting(landed, track, TrackTranscriptionStatus::Error(error)),
                track,
                again,
            ),
        }
    }
}

/// An event came on a track. An error that is reported of a session that is gone already
/// is part of the outage that is under way.
pub open spec fn heard(
    m: LiveModel,
    track: TrackKind,
    event: SttEvent,
    now_ns: u64,
) -> LiveModel {
    let noted = match track {
        TrackKind::SelfMic => LiveModel {
            self_interim: persist::interim_after(m.self_interim, event),
            self_segments: persist::number_after(m.self_segments, event),
            self_revision: persist::revision_after(m.self_revision, event),
            ..m
        },
        TrackKind::RemoteAudio => LiveModel {
            remote_interim: persist::interim_after(m.remote_interim, event),
            remote_segments: persist::number_after(m.remote_segments, event),
            remote_revision: persist::revision_after(m.remote_revision, event),
            ..m
        },
    };
    match event {
        SttEvent::Error(failure) => if has_session(m, track) {
            failed(noted, track, Some(failure), now_ns)
        } else {
            noted
        },
        _ => noted,
    }
}

/// When a gap begins because of an event.
pub open spec fn heard_gap(
    m: LiveModel,
    track: TrackKind,
    event: SttEvent,
    now_ns: u64,
) -> Option<u64> {
    if event is Error && has_session(m, track) {
        reconnect::gap_start(reconnect_of(m, track), now_ns)
    } else {
        None
    }
}

/// A track's events ended. Where it still has a session, the provider closed it.
pub open spec fn closed(m: LiveModel, track: TrackKind, now_ns: u64) -> LiveModel {
    let quiet = match track {
        TrackKind::SelfMic => LiveModel { self_events: false, self_interim: None, ..m },
        TrackKind::RemoteAudio => LiveModel { remote_events: false, remote_interim: None, ..m },
    };
    if has_session(m, track) {
        failed(quiet, track, None, now_ns)
    } else {
        quiet
    }
}

/// When a gap begins because a track's events ended.
pub open spec fn closed_gap(m: LiveModel, track: TrackKind, now_ns: u64) -> Option<u64> {
    if has_session(m, track) {
        reconnect::gap_start(reconnect_of(m, track), now_ns)
    } else {
        None
    }
}

/// Live transcription of one recording.
pub struct LiveTranscription<S> {
    pub session_id: SessionId,
    /// The rate that sessions are opened at.
    pub target_rate_hz: u32,
    pub audio_open: bool,
    pub self_session: bool,
    pub self_events: bool,
    pub self_samples_sent: u64,
    pub self_reconnect: ReconnectState,
    pub self_last_interim: Option<PendingInterim>,
    pub self_segment_counter: u64,
    pub self_revision: u32,
    pub remote: RemoteGateState<S>,
    pub remote_events: bool,
    pub remote_last_interim: Option<PendingInterim>,
    pub remote_segment_counter: u64,
    pub remote_revision: u32,
    pub status: TranscriptionStatus,
}

impl<S> View for LiveTranscription<S> {
    type V = LiveModel;

    open spec fn view(&self) -> LiveModel {
        LiveModel {
            audio_open: self.audio_open,
            self_session: self.self_session,
            self_events: self.self_events,
            self_samples_sent: self.self_samples_sent as int,
            self_reconnect: self.self_reconnect,
            self_interim: self.self_last_interim,
            self_segments: self.self_segment_counter,
            self_revision: self.self_revision,
            remote: self.remote@,
            remote_events: self.remote_events,
            remote_interim: self.remote_last_interim,
            remote_segments: self.remote_segment_counter,
            remote_revision: self.remote_revision,
            status: self.status,
        }
    }
}

impl<S> LiveTranscription<S> {
    /// Remote timestamps are corrected at the rate that the sessions are opened at.
    pub open spec fn well_formed(&self) -> bool {
        &&& self.self_reconnect.well_formed()
        &&& self.remote.well_formed()
        &&& self.remote.mapper matches Some(mapper) ==> mapper.sample_rate_hz
            == self.target_rate_hz
    }

    /// Whether everything but the model is as before.
    pub open spec fn same_setup(&self, before: &Self) -> bool {
        &&& self.session_id == before.session_id
        &&& self.target_rate_hz == before.target_rate_hz
        &&& self.remote.same_setup(&before.remote)
    }

    /// The mapper that corrects a track's timestamps. The self track has none: it is sent
    /// without gaps.
    pub open spec fn mapper_of(&self, track: TrackKind) -> Option<&TimestampMapper> {
        match track {
            TrackKind::SelfMic => None,
            TrackKind::RemoteAudio => match self.remote.mapper {
                Some(mapper) => Some(&mapper),
                None => None,
            },
        }
    }

    /// Begins once both tracks have tried to open a session. Where neither has one, there
    /// is nothing to transcribe, and only the status is left.
    pub fn start(
        session_id: SessionId,
        target_rate_hz: u32,
        silence_gate_enabled: bool,
        status: TranscriptionStatus,
        self_start: StartOutcome,
        remote_start: StartOutcome,
        now_ns: u64,
    ) -> (started: Result<Self, TranscriptionStatus>)
        ensures
            ({
                let known = TranscriptionStatus {
                    self_status: super::started_status(self_start),
                    remote_status: super::started_status(remote_start),
                };
                match started {
                    Ok(live) => {
                        &&& self_start is Connected || remote_start is Connected
                        &&& live.well_formed()
                        &&& live.session_id == session_id
                        &&& live.target_rate_hz == target_rate_hz
                        &&& live.remote.gate is Some == silence_gate_enabled
                        &&& live.remote.gate matches Some(gate) ==> {
                            &&& gate.limits() == crate::silence_gate::limits(
                                (crate::silence_gate::GateConfig {
                                    sample_rate_hz: target_rate_hz,
                                    vad_window_ms: 100,
                                    hangover_ms: 1_000,
                                    pre_roll_ms: 200,
                                }),
                            )
                            &&& gate.model() == crate::silence_gate::fresh_gate::<S>()
                        }
                        &&& live.remote.mapper is Some == silence_gate_enabled
                        &&& live.remote.mapper matches Some(mapper) ==> mapper.sample_rate_hz
                            == target_rate_hz
                        &&& live@ == beginning(
                            self_start is Connected,
                            remote_start is Connected,
                            silence_gate_enabled,
                            known,
                            now_ns,
                        )
                    },
                    Err(status) => {
                        &&& !(self_start is Connected) && !(remote_start is Connected)
                        &&& status == known
                    },
                }
            }),
    {
        let mut status: TranscriptionStatus = status;
        let self_session: bool = super::note_start(&mut status, TrackKind::SelfMic, self_start);
        let remote_session: bool = super::note_start(
            &mut status,
            TrackKind::RemoteAudio,
            remote_start,
        );
        if !self_session && !remote_session {
            return Err(status);
        }
        Ok(
            LiveTranscription {
                session_id,
                target_rate_hz,
                audio_open: true,
                self_session,
                self_events: self_session,
                self_samples_sent: 0,
                self_reconnect: ReconnectState::new(),
                self_last_interim: None,
                self_segment_counter: 0,
                self_revision: 0,
                remote: RemoteGateState::new(
                    remote_session,
                    silence_gate_enabled,
                    target_rate_hz,
                    now_ns,
                ),
                remote_events: remote_session,
                remote_last_interim: None,
                remote_segment_counter: 0,
                remote_revision: 0,
                status,
            },
        )
    }

    /// Whether there is anything left to wait for.
    pub fn is_running(&self) -> (running: bool)
        ensures
            running == (self@.audio_open || self@.self_events || self@.remote_events),
    {
        self.audio_open || self.self_events || self.remote_events
    }

    /// Counts a chunk of the self track and says where in the session it begins. The self
    /// track is sent without gaps, whether or not silence is held back on the other.
    pub fn send_self(&mut self, len: usize) -> (start_sample: Option<u64>)
        requires
            old(self).well_formed(),
            old(self).self_session ==> old(self).self_samples_sent + len <= u64::MAX,
        ensures
            final(self).well_formed(),
            final(self).same_setup(old(self)),
            final(self)@ == (LiveModel {
                self_samples_sent: old(self)@.self_samples_sent + if old(self)@.self_session {
                    len as int
                } else {
                    0
                },
                ..old(self)@
            }),
            start_sample == if old(self)@.self_session {
                Some(old(self).self_samples_sent)
            } else {
                None
            },
    {
        if !self.self_session {
            return None;
        }
        let start: u64 = self.self_samples_sent;
        self.self_samples_sent = start + len as u64;
        Some(start)
    }

    /// A send, or keeping the connection alive, failed. Says when a gap begins that has to
    /// be put on record.
    pub fn note_failure(
        &mut self,
        track: TrackKind,
        failure: Option<SttFailure>,
        now_ns: u64,
    ) -> (gap_start_ms: Option<u64>)
        requires
            old(self).well_formed(),
            reconnect::clock_has_room(now_ns),
        ensures
            final(self).well_formed(),
            final(self).same_setup(old(self)),
            final(self)@ == failed(old(self)@, track, failure, now_ns),
            gap_start_ms == reconnect::gap_start(reconnect_of(old(self)@, track), now_ns),
    {
        let message: Option<String> = match &failure {
            Some(failure) => Some(failure.message.clone()),
            None => None,
        };
        match message {
            Some(message) => {
                super::set_status(
                    &mut self.status,
                    track,
                    TrackTranscriptionStatus::Error(message),
                );
            },
            None => {},
        }
        match track {
            TrackKind::SelfMic => {
                self.self_session = false;
                self.self_reconnect.note_disconnect_and_maybe_reconnect(&failure, now_ns)
            },
            TrackKind::RemoteAudio => self.remote.note_disconnect(&failure, now_ns),
        }
    }

    /// The gap that was asked for is on record.
    pub fn gap_opened(&mut self, track: TrackKind, gap_id: i64, start_ms: u64)
        requires
            old(self).well_formed(),
        ensures
            final(self).well_formed(),
            final(self).same_setup(old(self)),
            final(self)@ == with_reconnect(
                old(self)@,
                track,
                ReconnectState {
                    open_gap_id: Some(gap_id),
                    open_gap_start_ms: Some(start_ms),
                    ..reconnect_of(old(self)@, track)
                },
            ),
    {
        match track {
            TrackKind::SelfMic => {
                self.self_reconnect.open_gap(gap_id, start_ms);
            },
            TrackKind::RemoteAudio => {
                self.remote.reconnect.open_gap(gap_id, start_ms);
            },
        }
    }

    /// Whether the remote connection has to be kept alive now.
    pub fn keep_alive_due(&self, now_ns: u64) -> (due: bool)
        ensures
            due == remote::is_idle(self@.remote, self.remote.gate is Some, now_ns),
    {
        self.remote.keep_alive_if_idle(now_ns)
    }

    /// Counts what keeping the remote connection alive came to.
    pub fn note_keep_alive(&mut self, effect: KeepAliveEffect, now_ns: u64)
        requires
            old(self).well_formed(),
            effect matches KeepAliveEffect::InjectedAudio { samples } ==> samples <= i64::MAX,
            remote::kept_alive(old(self)@.remote, effect, now_ns).fits(),
        ensures
            final(self).well_formed(),
            final(self).same_setup(old(self)),
            final(self)@ == (LiveModel {
                remote: remote::kept_alive(old(self)@.remote, effect, now_ns),
                ..old(self)@
            }),
    {
        self.remote.note_keep_alive(effect, now_ns);
    }

    /// No more audio comes: the recording is over.
    pub fn end_audio(&mut self, now_ns: u64) -> (ending: Ending)
        requires
            old(self).well_formed(),
        ensures
            final(self).well_formed(),
            final(self).same_setup(old(self)),
            final(self)@ == ended(old(self)@),
            ending == (Ending {
                abort_self: old(self)@.self_reconnect.in_flight,
                abort_remote: old(self)@.remote.reconnect.in_flight,
                self_gap: reconnect::gap_closing(old(self)@.self_reconnect, now_ns),
                remote_gap: reconnect::gap_closing(old(self)@.remote.reconnect, now_ns),
                finalize_self: old(self)@.self_session,
                finalize_remote: old(self)@.remote.session,
                update: TranscriptUpdate::SessionEnded { session_id: old(self).session_id },
            }),
    {
        self.audio_open = false;
        let abort_self: bool = self.self_reconnect.abort_in_flight();
        let abort_remote: bool = self.remote.reconnect.abort_in_flight();
        let self_gap: Option<GapClosing> = self.self_reconnect.close_open_gap(now_ns);
        let remote_gap: Option<GapClosing> = self.remote.reconnect.close_open_gap(now_ns);
        let finalize_self: bool = self.self_session;
        self.self_session = false;
        let finalize_remote: bool = self.remote.finalize();
        Ending {
            abort_self,
            abort_remote,
            self_gap,
            remote_gap,
            finalize_self,
            finalize_remote,
            update: TranscriptUpdate::SessionEnded { session_id: self.session_id },
        }
    }

    /// Starts an attempt to reconnect, if one is due, and says whether it is.
    pub fn begin_attempt(&mut self, track: TrackKind, now_ns: u64) -> (due: bool)
        requires
            old(self).well_formed(),
        ensures
            final(self).well_formed(),
            final(self).same_setup(old(self)),
            due == attempt_due(old(self)@, track, now_ns),
            final(self)@ == if due {
                attempting(old(self)@, track)
            } else {
                old(self)@
            },
    {
        let audio_open: bool = self.audio_open;
        match track {
            TrackKind::SelfMic => {
                if !self.self_reconnect.is_due(audio_open, now_ns) {
                    return false;
                }
                self.self_reconnect.begin_attempt();
            },
            TrackKind::RemoteAudio => {
                if !self.remote.reconnect.is_due(audio_open, now_ns) {
                    return false;
                }
                self.remote.reconnect.begin_attempt();
            },
        }
        super::set_status(&mut self.status, track, TrackTranscriptionStatus::Connecting);
        true
    }

    fn install(&mut self, track: TrackKind, now_ns: u64) -> (closing: Option<GapClosing>)
        requires
            old(self).well_formed(),
            track == TrackKind::RemoteAudio && old(self).remote.mapper is Some
                ==> remote::can_reconnect(old(self)@.remote, old(self).target_rate_hz, now_ns),
        ensures
            final(self).well_formed(),
            final(self).same_setup(old(self)),
            final(self)@ == reconnected(old(self)@, track, old(self).target_rate_hz, now_ns),
            closing == reconnect::gap_closing(reconnect_of(old(self)@, track), now_ns),
    {
        match track {
            TrackKind::SelfMic => {
                self.self_session = true;
                self.self_events = true;
                self.self_samples_sent = 0;
                let closing: Option<GapClosing> = self.self_reconnect.close_open_gap(now_ns);
                self.self_reconnect.reset();
                closing
            },
            TrackKind::RemoteAudio => {
                self.remote_events = true;
                let rate: u32 = self.target_rate_hz;
                self.remote.apply_reconnect_offset(rate, now_ns)
            },
        }
    }

    fn plan_again(&mut self, track: TrackKind, now_ns: u64)
        requires
            old(self).well_formed(),
            reconnect::clock_has_room(now_ns),
            !reconnect_of(old(self)@, track).in_flight,
        ensures
            final(self).well_formed(),
            final(self).same_setup(old(self)),
            final(self)@ == with_reconnect(
                old(self)@,
                track,
                reconnect::armed(reconnect_of(old(self)@, track), now_ns),
            ),
    {
        match track {
            TrackKind::SelfMic => {
                self.self_reconnect.note_disconnect(now_ns);
            },
            TrackKind::RemoteAudio => {
                self.remote.reconnect.note_disconnect(now_ns);
            },
        }
    }

    /// An attempt to reconnect came out some way. Says what becomes of the gap on record,
    /// where the outage is over.
    pub fn attempt_finished(
        &mut self,
        track: TrackKind,
        outcome: AttemptOutcome,
        now_ns: u64,
    ) -> (closing: Option<GapClosing>)
        requires
            old(self).well_formed(),
            reconnect::clock_has_room(now_ns),
            track == TrackKind::RemoteAudio && old(self).remote.mapper is Some
                ==> remote::can_reconnect(old(self)@.remote, old(self).target_rate_hz, now_ns),
        ensures
            final(self).well_formed(),
            final(self).same_setup(old(self)),
            final(self)@ == attempted(
                old(self)@,
                track,
                outcome,
                old(self).target_rate_hz,
                now_ns,
            ),
            closing == if reconnect_of(old(self)@, track).in_flight && outcome
                == AttemptOutcome::Finished(StartOutcome::Connected) {
                reconnect::gap_closing(reconnect_of(old(self)@, track), now_ns)
            } else {
                None
            },
    {
        let in_flight: bool = match track {
            TrackKind::SelfMic => self.self_reconnect.abort_in_flight(),
            TrackKind::RemoteAudio => self.remote.reconnect.abort_in_flight(),
        };
        if !in_flight {
            return None;
        }
        match outcome {
            AttemptOutcome::Finished(started) => {
                let connected: bool = super::note_start(&mut self.status, track, started);
                if connected {
                    self.install(track, now_ns)
                } else {
                    self.plan_again(track, now_ns);
                    None
                }
            },
            AttemptOutcome::Lost { error } => {
                super::set_status(
                    &mut self.status,
                    track,
                    TrackTranscriptionStatus::Error(error),
                );
                self.plan_again(track, now_ns);
                None
            },
        }
    }

    /// An event came on a track.
    pub fn on_event(&mut self, track: TrackKind, event: SttEvent, now_ns: u64) -> (outcome:
        EventOutcome)
        requires
            old(self).well_formed(),
            event is Error ==> reconnect::clock_has_room(now_ns),
            persist::can_persist(event, old(self).mapper_of(track)),
            persist::can_number(
                segments_of(old(self)@, track),
                revision_of(old(self)@, track),
                event,
            ),
        ensures
            final(self).well_formed(),
            final(self).same_setup(old(self)),
            final(self)@ == heard(old(self)@, track, event, now_ns),
            outcome.persisted == persist::persisted(
                old(self).session_id,
                track,
                event,
                old(self).mapper_of(track),
                segments_of(old(self)@, track),
                revision_of(old(self)@, track),
            ),
            outcome.gap_start_ms == heard_gap(old(self)@, track, event, now_ns),
    {
        match track {
            TrackKind::SelfMic => {
                persist::note_event(&mut self.self_last_interim, &event);
            },
            TrackKind::RemoteAudio => {
                persist::note_event(&mut self.remote_last_interim, &event);
            },
        }
        let active: bool = match track {
            TrackKind::SelfMic => self.self_session,
            TrackKind::RemoteAudio => self.remote.is_active(),
        };
        match event {
            SttEvent::Error(failure) => {
                let gap_start_ms: Option<u64> = if active {
                    self.note_failure(track, Some(failure), now_ns)
                } else {
                    None
                };
                EventOutcome { persisted: None, gap_start_ms }
            },
            event => {
                let session_id: SessionId = self.session_id;
                let persisted: Option<PersistedEvent> = match track {
                    TrackKind::SelfMic => persist::persist_event(
                        session_id,
                        track,
                        event,
                        None,
                        &mut self.self_segment_counter,
                        &mut self.self_revision,
                    ),
                    TrackKind::RemoteAudio => persist::persist_event(
                        session_id,
                        track,
                        event,
                        self.remote.timestamp_mapper(),
                        &mut self.remote_segment_counter,
                        &mut self.remote_revision,
                    ),
                };
                EventOutcome { persisted, gap_start_ms: None }
            },
        }
    }

    /// A track's events ended.
    pub fn events_closed(&mut self, track: TrackKind, now_ns: u64) -> (outcome: ClosedOutcome)
        requires
            old(self).well_formed(),
            reconnect::clock_has_room(now_ns),
            interim_of(old(self)@, track) matches Some(pending) ==> persist::can_correct(
                pending.audio_start_ms,
                old(self).mapper_of(track),
            ) && persist::can_correct(pending.audio_end_ms, old(self).mapper_of(track)),
        ensures
            final(self).well_formed(),
            final(self).same_setup(old(self)),
            final(self)@ == closed(old(self)@, track, now_ns),
            outcome.segment == persist::fallback_segment(
                old(self).session_id,
                track,
                interim_of(old(self)@, track),
                old(self).mapper_of(track),
            ),
            outcome.gap_start_ms == closed_gap(old(self)@, track, now_ns),
    {
        let session_id: SessionId = self.session_id;
        let segment: Option<TranscriptSegment> = match track {
            TrackKind::SelfMic => {
                self.self_events = false;
                persist::persist_pending_interim(
                    session_id,
                    track,
                    self.self_last_interim.take(),
                    None,
                )
            },
            TrackKind::RemoteAudio => {
                self.remote_events = false;
                let pending: Option<PendingInterim> = self.remote_last_interim.take();
                persist::persist_pending_interim(
                    session_id,
                    track,
                    pending,
                    self.remote.timestamp_mapper(),
                )
            },
        };
        let active: bool = match track {
            TrackKind::SelfMic => self.self_session,
            TrackKind::RemoteAudio => self.remote.is_active(),
        };
        let gap_start_ms: Option<u64> = if active {
            self.note_failure(track, None, now_ns)
        } else {
            None
        };
        ClosedOutcome { segment, gap_start_ms }
    }
}

/// Reconnecting that has not begun.
pub open spec fn fresh_reconnect() -> ReconnectState {
    ReconnectState {
        attempt: 0,
        retry_at_ns: None,
        disconnected_at_ns: None,
        in_flight: false,
        open_gap_id: None,
        open_gap_start_ms: None,
    }
}

/// A session that died is gone at once: nothing is sent to it, and it is not kept alive.
pub proof fn law_dead_session_is_dropped(
    m: LiveModel,
    track: TrackKind,
    failure: Option<SttFailure>,
    gated: bool,
    now_ns: u64,
    later_ns: u64,
    len: int,
)
    ensures
        !has_session(failed(m, track, failure, now_ns), track),
        track == TrackKind::RemoteAudio ==> {
            let after = failed(m, track, failure, now_ns).remote;
            &&& !remote::is_idle(after, gated, later_ns)
            &&& remote::sent(after, len) == after
        },
{
}

/// The tracks fail each on its own: what happens to one leaves the session, the
/// reconnecting and the status of the other alone.
pub proof fn law_tracks_fail_alone(
    m: LiveModel,
    track: TrackKind,
    other: TrackKind,
    failure: Option<SttFailure>,
    event: SttEvent,
    outcome: AttemptOutcome,
    target_rate_hz: u32,
    now_ns: u64,
)
    requires
        track != other,
    ensures
        same_track(failed(m, track, failure, now_ns), m, other),
        same_track(heard(m, track, event, now_ns), m, other),
        same_track(closed(m, track, now_ns), m, other),
        same_track(attempting(m, track), m, other),
        same_track(attempted(m, track, outcome, target_rate_hz, now_ns), m, other),
{
}

/// Whether a track stands as it stood.
pub open spec fn same_track(m: LiveModel, before: LiveModel, track: TrackKind) -> bool {
    match track {
        TrackKind::SelfMic => {
            &&& m.self_session == before.self_session
            &&& m.self_events == before.self_events
            &&& m.self_samples_sent == before.self_samples_sent
            &&& m.self_reconnect == before.self_reconnect
            &&& m.self_interim == before.self_interim
            &&& m.self_segments == before.self_segments
            &&& m.self_revision == before.self_revision
            &&& m.status.self_status == before.status.self_status
        },
        TrackKind::RemoteAudio => {
            &&& m.remote == before.remote
            &&& m.remote_events == before.remote_events
            &&& m.remote_interim == before.remote_interim
            &&& m.remote_segments == before.remote_segments
            &&& m.remote_revision == before.remote_revision
            &&& m.status.remote_status == before.status.remote_status
        },
    }
}

/// One outage is put on record once. From the moment a session is gone, further errors
/// on its track and the end of its events open no second gap and plan nothing anew,
/// whether the outage is being worked on or was given up on.
pub proof fn law_an_outage_is_recorded_once(
    m: LiveModel,
    track: TrackKind,
    failure: Option<SttFailure>,
    event: SttEvent,
    now_ns: u64,
    later_ns: u64,
)
    ensures
        ({
            let after = failed(m, track, failure, now_ns);
            &&& heard_gap(after, track, event, later_ns) is None
            &&& closed_gap(after, track, later_ns) is None
            &&& reconnect_of(heard(after, track, event, later_ns), track) == reconnect_of(
                after,
                track,
            )
            &&& reconnect_of(closed(after, track, later_ns), track) == reconnect_of(after, track)
        }),
{
}

/// Only a track's own transcripts move its numbering on: sessions that die, are opened
/// again or end leave the number and the revision of the next update as they are.
pub proof fn law_only_transcripts_are_numbered(
    m: LiveModel,
    track: TrackKind,
    other: TrackKind,
    failure: Option<SttFailure>,
    event: SttEvent,
    outcome: AttemptOutcome,
    target_rate_hz: u32,
    now_ns: u64,
)
    ensures
        same_numbering(failed(m, other, failure, now_ns), m, track),
        same_numbering(closed(m, other, now_ns), m, track),
        same_numbering(attempting(m, other), m, track),
        same_numbering(attempted(m, other, outcome, target_rate_hz, now_ns), m, track),
        same_numbering(ended(m), m, track),
        other != track ==> same_numbering(heard(m, other, event, now_ns), m, track),
        segments_of(heard(m, track, event, now_ns), track) == persist::number_after(
            segments_of(m, track),
            event,
        ),
        revision_of(heard(m, track, event, now_ns), track) == persist::revision_after(
            revision_of(m, track),
            event,
        ),
{
}

/// Whether the next update of a track has the number and the revision that it had.
pub open spec fn same_numbering(m: LiveModel, before: LiveModel, track: TrackKind) -> bool {
    &&& segments_of(m, track) == segments_of(before, track)
    &&& revision_of(m, track) == revision_of(before, track)
}

/// The time at which something is kept that a track's provider reports at `ms`: the self
/// track's as it is, the remote track's brought back to the wall clock by the checkpoints
/// of its current session, at the rate that the sessions are opened at.
pub open spec fn kept_time(
    m: LiveModel,
    target_rate_hz: u32,
    track: TrackKind,
    ms: Option<u64>,
) -> Option<u64> {
    match (track, m.remote.checkpoints, ms) {
        (TrackKind::RemoteAudio, Some(checkpoints), Some(ms)) => Some(
            crate::timestamp_mapper::wallclock(checkpoints, target_rate_hz as int, ms as int) as u64,
        ),
        _ => ms,
    }
}

/// Whether a segment is kept at these times of a track's provider.
pub open spec fn kept_at<S>(
    segment: TranscriptSegment,
    live: LiveTranscription<S>,
    track: TrackKind,
    start_ms: Option<u64>,
    end_ms: Option<u64>,
) -> bool {
    &&& segment.start_ms == kept_time(live@, live.target_rate_hz, track, start_ms)
    &&& segment.end_ms == kept_time(live@, live.target_rate_hz, track, end_ms)
}

/// Whatever is kept of a transcript, partial, final or never confirmed, is kept at the
/// time of the recording: of the remote track by its checkpoints at the rate of the
/// session, of the self track as the provider reports it.
pub proof fn law_transcripts_are_kept_at_corrected_times<S>(
    live: LiveTranscription<S>,
    track: TrackKind,
    event: SttEvent,
    pending: Option<PendingInterim>,
    segment_number: u64,
    revision: u32,
)
    requires
        live.well_formed(),
    ensures
        ({
            let stored = persist::persisted(
                live.session_id,
                track,
                event,
                live.mapper_of(track),
                segment_number,
                revision,
            );
            match event {
                SttEvent::PartialTranscript { audio_start_ms, audio_end_ms, .. } => {
                    &&& stored is Some
                    &&& kept_at(stored->0.segment, live, track, audio_start_ms, audio_end_ms)
                },
                SttEvent::FinalTranscript { audio_start_ms, audio_end_ms, .. } => {
                    &&& stored is Some
                    &&& kept_at(stored->0.segment, live, track, audio_start_ms, audio_end_ms)
                },
                _ => stored is None,
            }
        }),
        persist::fallback_segment(
            live.session_id,
            track,
            pending,
            live.mapper_of(track),
        ) matches Some(segment) ==> pending is Some && kept_at(
            segment,
            live,
            track,
            pending->0.audio_start_ms,
            pending->0.audio_end_ms,
        ),
{
}

/// Until silence is held back or a session is replaced, what the providers report is the
/// time of the recording already.
pub proof fn law_times_begin_uncorrected(
    self_connected: bool,
    remote_connected: bool,
    silence_gate_enabled: bool,
    status: TranscriptionStatus,
    start_ns: u64,
    target_rate_hz: u32,
    track: TrackKind,
    ms: Option<u64>,
)
    ensures
        kept_time(
            beginning(self_connected, remote_connected, silence_gate_enabled, status, start_ns),
            target_rate_hz,
            track,
            ms,
        ) == ms,
{
}

/// A remote session that replaces a lost one goes on from where the capture stands: what
/// it reports is kept later by all that was captured before, sent or not, and by the whole
/// of the outage.
pub proof fn law_remote_times_go_on_after_a_reconnect(
    m: LiveModel,
    target_rate_hz: u32,
    now_ns: u64,
    ms: u64,
)
    requires
        m.remote.reconnect.in_flight,
        m.remote.checkpoints is Some,
        target_rate_hz > 0,
        i64::MIN <= remote::carry_over(m.remote, target_rate_hz, now_ns) <= i64::MAX,
    ensures
        ({
            let after = attempted(
                m,
                TrackKind::RemoteAudio,
                AttemptOutcome::Finished(StartOutcome::Connected),
                target_rate_hz,
                now_ns,
            );
            &&& after.remote.session
            &&& kept_time(after, target_rate_hz, TrackKind::RemoteAudio, Some(ms)) == Some(
                crate::timestamp_mapper::clamp_u64(
                    ms + crate::timestamp_mapper::round_div(
                        (m.remote.captured() + remote::outage_samples(
                            m.remote.reconnect,
                            target_rate_hz,
                            now_ns,
                        )) * 1000,
                        target_rate_hz as int,
                    ),
                ) as u64,
            )
        }),
{
    let landed = RemoteModel {
        reconnect: ReconnectState { in_flight: false, ..m.remote.reconnect },
        ..m.remote
    };
    remote::law_new_session_goes_on_from_the_capture(landed, target_rate_hz, now_ns, ms);
}

/// Remote times do not jump back when a session is replaced: whatever the lost session
/// reported of audio that had been captured by then is kept at or before anything that
/// the new session reports.
pub proof fn law_remote_times_do_not_jump_back(
    m: LiveModel,
    target_rate_hz: u32,
    now_ns: u64,
    old_ms: u64,
    new_ms: u64,
)
    requires
        m.remote.reconnect.in_flight,
        m.remote.checkpoints is Some,
        m.remote.checkpoints->0.len() > 0,
        target_rate_hz > 0,
        old_ms * target_rate_hz + crate::timestamp_mapper::offset_at(
            m.remote.checkpoints->0,
            crate::timestamp_mapper::samples_in(old_ms as int, target_rate_hz as int),
        ) * 1000 <= m.remote.captured() * 1000,
        i64::MIN <= remote::carry_over(m.remote, target_rate_hz, now_ns) <= i64::MAX,
    ensures
        ({
            let after = attempted(
                m,
                TrackKind::RemoteAudio,
                AttemptOutcome::Finished(StartOutcome::Connected),
                target_rate_hz,
                now_ns,
            );
            kept_time(m, target_rate_hz, TrackKind::RemoteAudio, Some(old_ms))->0 <= kept_time(
                after,
                target_rate_hz,
                TrackKind::RemoteAudio,
                Some(new_ms),
            )->0
        }),
{
    let landed = RemoteModel {
        reconnect: ReconnectState { in_flight: false, ..m.remote.reconnect },
        ..m.remote
    };
    remote::law_time_does_not_jump_back(landed, target_rate_hz, now_ns, old_ms, new_ms);
}

/// Whether the recording is over, with nothing left open.
pub open spec fn is_over(m: LiveModel) -> bool {
    &&& !m.audio_open
    &&& !m.self_session
    &&& !m.remote.session
    &&& !m.self_reconnect.in_flight
    &&& !m.remote.reconnect.in_flight
    &&& m.self_reconnect.open_gap_id is None
    &&& m.remote.reconnect.open_gap_id is None
}

/// The end of the recording leaves no session, no attempt and no gap open, and nothing
/// that is still reported after it opens one.
pub proof fn law_end_of_recording_is_final(
    m: LiveModel,
    after: LiveModel,
    track: TrackKind,
    event: SttEvent,
    outcome: AttemptOutcome,
    target_rate_hz: u32,
    now_ns: u64,
)
    requires
        is_over(after),
    ensures
        is_over(ended(m)),
        !attempt_due(after, track, now_ns),
        attempted(after, track, outcome, target_rate_hz, now_ns) == after,
        is_over(heard(after, track, event, now_ns)),
        heard_gap(after, track, event, now_ns) is None,
        is_over(closed(after, track, now_ns)),
        closed_gap(after, track, now_ns) is None,
{
}

/// The status that is reported of a track.
pub open spec fn status_of(m: LiveModel, track: TrackKind) -> TrackTranscriptionStatus {
    match track {
        TrackKind::SelfMic => m.status.self_status,
        TrackKind::RemoteAudio => m.status.remote_status,
    }
}

/// Whether events of a track are still coming.
pub open spec fn listens(m: LiveModel, track: TrackKind) -> bool {
    match track {
        TrackKind::SelfMic => m.self_events,
        TrackKind::RemoteAudio => m.remote_events,
    }
}

/// An attempt to reconnect is started when its time has come and not before, while audio
/// is coming, and one at a time: until it has come out, no other is started.
pub proof fn law_attempts_wait_for_their_time(
    m: LiveModel,
    track: TrackKind,
    now_ns: u64,
    later_ns: u64,
)
    ensures
        !m.audio_open ==> !attempt_due(m, track, now_ns),
        reconnect_of(m, track).in_flight ==> !attempt_due(m, track, now_ns),
        reconnect_of(m, track).retry_at_ns is None ==> !attempt_due(m, track, now_ns),
        reconnect_of(m, track).retry_at_ns matches Some(at_ns) ==> m.audio_open && !reconnect_of(
            m,
            track,
        ).in_flight ==> (attempt_due(m, track, now_ns) <==> now_ns >= at_ns),
        ({
            let after = attempting(m, track);
            &&& !attempt_due(after, track, later_ns)
            &&& reconnect_of(after, track).in_flight
            &&& status_of(after, track) is Connecting
            &&& has_session(after, track) == has_session(m, track)
            &&& listens(after, track) == listens(m, track)
            &&& reconnect_of(after, track).attempt == reconnect_of(m, track).attempt
            &&& reconnect_of(after, track).disconnected_at_ns == reconnect_of(
                m,
                track,
            ).disconnected_at_ns
            &&& reconnect_of(after, track).open_gap_id == reconnect_of(m, track).open_gap_id
        }),
{
}

/// An attempt that opens a session ends the outage: the track has a session again, listens
/// to it, and has nothing planned and no gap open. One that does not changes nothing about
/// the session, and a later attempt is planned, with the gap still open.
pub proof fn law_an_attempt_ends_the_outage_or_is_followed_by_another(
    m: LiveModel,
    track: TrackKind,
    outcome: AttemptOutcome,
    target_rate_hz: u32,
    now_ns: u64,
)
    requires
        reconnect_of(m, track).in_flight,
        reconnect::clock_has_room(now_ns),
    ensures
        ({
            let after = attempted(m, track, outcome, target_rate_hz, now_ns);
            let state = reconnect_of(after, track);
            let connected = outcome == AttemptOutcome::Finished(StartOutcome::Connected);
            &&& !state.in_flight
            &&& after.audio_open == m.audio_open
            &&& interim_of(after, track) == interim_of(m, track)
            &&& connected ==> {
                &&& has_session(after, track)
                &&& listens(after, track)
                &&& status_of(after, track) is Connected
                &&& state.attempt == 0
                &&& state.retry_at_ns is None
                &&& state.disconnected_at_ns is None
                &&& state.open_gap_id is None
                &&& state.open_gap_start_ms is None
                &&& track == TrackKind::SelfMic ==> after.self_samples_sent == 0
                &&& track == TrackKind::RemoteAudio ==> after.remote.position() == 0
            }
            &&& !connected ==> {
                &&& has_session(after, track) == has_session(m, track)
                &&& listens(after, track) == listens(m, track)
                &&& status_of(after, track) is Error
                &&& state.retry_at_ns is Some
                &&& state.retry_at_ns->0 >= now_ns
                &&& state.disconnected_at_ns is Some
                &&& reconnect_of(m, track).disconnected_at_ns is Some ==> state.disconnected_at_ns
                    == reconnect_of(m, track).disconnected_at_ns
                &&& state.open_gap_id == reconnect_of(m, track).open_gap_id
                &&& state.open_gap_start_ms == reconnect_of(m, track).open_gap_start_ms
            }
            &&& outcome matches AttemptOutcome::Lost { error } ==> status_of(after, track)
                == TrackTranscriptionStatus::Error(error)
            &&& outcome matches AttemptOutcome::Finished(StartOutcome::Failed { error })
                ==> status_of(after, track) == TrackTranscriptionStatus::Error(error)
            &&& outcome matches AttemptOutcome::Finished(StartOutcome::TimedOut { error })
                ==> status_of(after, track) == TrackTranscriptionStatus::Error(error)
        }),
{
    let attempt = reconnect_of(m, track).attempt;
    crate::supervisor::law_backoff_grows_to_its_cap(attempt, attempt);
}

/// An error ends the session that it is reported of, and its message is what the track's
/// status says; whatever else is reported leaves the session and the status alone.
pub proof fn law_only_errors_end_a_session(
    m: LiveModel,
    track: TrackKind,
    event: SttEvent,
    now_ns: u64,
)
    ensures
        ({
            let after = heard(m, track, event, now_ns);
            &&& after.audio_open == m.audio_open
            &&& listens(after, track) == listens(m, track)
            &&& event matches SttEvent::Error(failure) ==> {
                &&& !has_session(after, track)
                &&& has_session(m, track) ==> status_of(after, track)
                    == TrackTranscriptionStatus::Error(failure.message)
                &&& !has_session(m, track) ==> after.status == m.status && reconnect_of(
                    after,
                    track,
                ) == reconnect_of(m, track)
                &&& interim_of(after, track) == interim_of(m, track)
            }
            &&& !(event is Error) ==> {
                &&& has_session(after, track) == has_session(m, track)
                &&& after.status == m.status
                &&& reconnect_of(after, track) == reconnect_of(m, track)
                &&& heard_gap(m, track, event, now_ns) is None
            }
            &&& event is FinalTranscript ==> interim_of(after, track) is None
            &&& event is PartialTranscript ==> interim_of(after, track) is Some
        }),
{
}

/// When the events of a track end, its session is gone, it is not listened to any more and
/// nothing of it is left unconfirmed. A provider that just closes has reported nothing, so
/// the status stays.
pub proof fn law_the_end_of_events_ends_the_session(m: LiveModel, track: TrackKind, now_ns: u64)
    ensures
        ({
            let after = closed(m, track, now_ns);
            &&& !has_session(after, track)
            &&& !listens(after, track)
            &&& interim_of(after, track) is None
            &&& after.status == m.status
            &&& after.audio_open == m.audio_open
            &&& closed_gap(m, track, now_ns) is Some ==> has_session(m, track)
                && closed_gap(m, track, now_ns)->0 == now_ns / 1_000_000
            &&& has_session(m, track) && reconnect_of(m, track).retry_at_ns is None
                && !reconnect_of(m, track).in_flight ==> closed_gap(m, track, now_ns) is Some
                && reconnect_of(after, track).retry_at_ns is Some
            &&& !has_session(m, track) ==> reconnect_of(after, track) == reconnect_of(m, track)
        }),
{
}

/// The end of the recording ends what runs, and leaves what is still to be heard: events
/// go on coming, what is unconfirmed stays so, and counts and statuses are as they were.
pub proof fn law_the_end_leaves_what_is_still_to_be_heard(m: LiveModel, track: TrackKind)
    ensures
        ({
            let after = ended(m);
            &&& !after.audio_open
            &&& !has_session(after, track)
            &&& listens(after, track) == listens(m, track)
            &&& interim_of(after, track) == interim_of(m, track)
            &&& after.status == m.status
            &&& after.self_samples_sent == m.self_samples_sent
            &&& after.remote.checkpoints == m.remote.checkpoints
            &&& after.remote.captured() == m.remote.captured()
            &&& after.remote.position() == m.remote.position()
        }),
{
}

/// Live transcription begins with the sessions that could be opened, with nothing sent,
/// nothing heard, nothing planned and nothing to keep alive.
pub proof fn law_nothing_is_due_at_the_beginning(
    self_connected: bool,
    remote_connected: bool,
    silence_gate_enabled: bool,
    status: TranscriptionStatus,
    now_ns: u64,
    track: TrackKind,
    later_ns: u64,
)
    requires
        later_ns < now_ns + 5_000_000_000,
    ensures
        ({
            let m = beginning(self_connected, remote_connected, silence_gate_enabled, status, now_ns);
            &&& m.audio_open
            &&& m.status == status
            &&& has_session(m, TrackKind::SelfMic) == self_connected
            &&& has_session(m, TrackKind::RemoteAudio) == remote_connected
            &&& listens(m, track) == has_session(m, track)
            &&& m.self_samples_sent == 0
            &&& m.remote.position() == 0
            &&& m.remote.captured() == 0
            &&& m.remote.checkpoints is Some == silence_gate_enabled
            &&& interim_of(m, track) is None
            &&& segments_of(m, track) == 0
            &&& revision_of(m, track) == 0
            &&& !reconnect_of(m, track).in_flight
            &&& reconnect_of(m, track).open_gap_id is None
            &&& reconnect_of(m, track).attempt == 0
            &&& !attempt_due(m, track, later_ns)
            &&& !remote::is_idle(m.remote, silence_gate_enabled, later_ns)
        }),
{
}

} // verus!
