//! The course of processing one recording: begin, commit and upload both tracks, end.

use crate::domain::{SessionId, TrackKind};
use crate::segmenter::{self, PendingSegment};
use crate::session_lifecycle::CaptureState;
use crate::upload_worker::{self, UploadFailure, UploadState};
use vstd::prelude::*;

verus! {

/// How long to wait between upload passes at the end of a session, in milliseconds.
pub const FINALIZE_UPLOAD_RETRY_INTERVAL_MS: u64 = 500;

/// How many upload passes to make at the end of a session.
pub const FINALIZE_MAX_UPLOAD_PASSES: u32 = 10;

/// What comes next in processing a recording.
#[derive(Debug, Clone, Copy, PartialEq, Eq, Structural)]
pub enum PipelineStep {
    /// Put the session on record and try to register it with the remote service.
    Begin,
    /// Commit the segments of a track, and upload them where the session is registered.
    CommitTrack { track: TrackKind, registered: bool },
    /// Try once more to register the session.
    RegisterLate,
    /// End the session with the remote service.
    EndSession,
    /// Finish without the remote service.
    FinishLocally,
}

/// What happened in a step that worked.
#[derive(Debug, Clone, Copy, PartialEq, Eq, Structural)]
pub enum PipelineEvent {
    /// The session is on record; whether it is registered too.
    Began { registered: bool },
    TrackCommitted,
    /// Whether the session could be registered, and its remote id put on record.
    TriedLate { registered: bool },
}

/// The step after an event. The self track is committed before the remote one, and a
/// session that could not be registered gets a second chance before its end.
pub open spec fn following(step: PipelineStep, event: PipelineEvent) -> PipelineStep {
    match (step, event) {
        (PipelineStep::Begin, PipelineEvent::Began { registered }) => PipelineStep::CommitTrack {
            track: TrackKind::SelfMic,
            registered,
        },
        (
            PipelineStep::CommitTrack { track: TrackKind::SelfMic, registered },
            PipelineEvent::TrackCommitted,
        ) => PipelineStep::CommitTrack { track: TrackKind::RemoteAudio, registered },
        (
            PipelineStep::CommitTrack { track: TrackKind::RemoteAudio, registered },
            PipelineEvent::TrackCommitted,
        ) => if registered {
            PipelineStep::EndSession
        } else {
            PipelineStep::RegisterLate
        },
        (PipelineStep::RegisterLate, PipelineEvent::TriedLate { registered }) => if registered {
            PipelineStep::EndSession
        } else {
            PipelineStep::FinishLocally
        },
        _ => step,
    }
}

/// The step after an event. An event that does not belong to the step changes nothing.
pub fn run_pipeline(step: PipelineStep, event: PipelineEvent) -> (next: PipelineStep)
    ensures
        next == following(step, event),
{
    match (step, event) {
        (PipelineStep::Begin, PipelineEvent::Began { registered }) => PipelineStep::CommitTrack {
            track: TrackKind::SelfMic,
            registered,
        },
        (PipelineStep::CommitTrack { track, registered }, PipelineEvent::TrackCommitted) => {
            match track {
                TrackKind::SelfMic => PipelineStep::CommitTrack {
                    track: TrackKind::RemoteAudio,
                    registered,
                },
                TrackKind::RemoteAudio => if registered {
                    PipelineStep::EndSession
                } else {
                    PipelineStep::RegisterLate
                },
            }
        },
        (PipelineStep::RegisterLate, PipelineEvent::TriedLate { registered }) => if registered {
            PipelineStep::EndSession
        } else {
            PipelineStep::FinishLocally
        },
        (step, _) => step,
    }
}

/// Whether the session is registered after a late attempt: the remote service has to take
/// it, and its id has to be put on record.
pub fn try_register_remote_session(
    created: Result<String, String>,
    recorded: bool,
) -> (remote_session_id: Option<String>)
    ensures
        remote_session_id == match created {
            Ok(id) => if recorded {
                Some(id)
            } else {
                None::<String>
            },
            Err(_) => None,
        },
{
    match created {
        Ok(id) => if recorded {
            Some(id)
        } else {
            None
        },
        Err(_) => None,
    }
}

/// The state on record for a session that was never registered. It was captured and
/// committed in full, so it is recoverable; but nobody has confirmed it.
pub fn finalize_local_only_session() -> (state: CaptureState)
    ensures
        state matches CaptureState::Failed { recoverable, reason } && recoverable && reason@
            == "remote session was never registered; segments captured locally only"@,
{
    CaptureState::Failed {
        recoverable: true,
        reason: String::from_str(
            "remote session was never registered; segments captured locally only",
        ),
    }
}

/// The length of a recording in milliseconds, rounded down.
pub fn total_duration_ms(total_duration_ns: u64) -> (ms: u64)
    ensures
        ms * 1_000_000 <= total_duration_ns < ms * 1_000_000 + 1_000_000,
        ms == total_duration_ns / 1_000_000,
{
    total_duration_ns / 1_000_000
}

/// A segment to encode and commit.
pub struct SegmentRequest<'a, S> {
    pub session_id: SessionId,
    pub track: TrackKind,
    pub sequence: u64,
    pub timeline_start_ms: u64,
    pub sample_rate: u32,
    pub channels: u16,
    pub pcm: &'a [S],
}

/// The segments of a track to encode and commit, in order. [`next_segment_step`] says how
/// to go through them.
pub fn commit_and_upload_track<S>(
    session_id: SessionId,
    track: TrackKind,
    pcm: &[S],
    sample_rate: u32,
    segment_duration_ms: u32,
) -> (requests: Vec<SegmentRequest<'_, S>>)
    requires
        segmenter::samples_per_segment(sample_rate, segment_duration_ms) <= usize::MAX,
        segmenter::segment_count(
            pcm@.len() as int,
            segmenter::samples_per_segment(sample_rate, segment_duration_ms),
        ) * segment_duration_ms <= u64::MAX,
    ensures
        requests@.len() == segmenter::segment_count(
            pcm@.len() as int,
            segmenter::samples_per_segment(sample_rate, segment_duration_ms),
        ),
        forall|i: int|
            #![trigger requests@[i]]
            0 <= i < requests@.len() ==> {
                &&& requests@[i].session_id == session_id
                &&& requests@[i].track == track
                &&& requests@[i].sequence == i
                &&& requests@[i].timeline_start_ms == i * segment_duration_ms
                &&& requests@[i].sample_rate == sample_rate
                &&& requests@[i].channels == 1
                &&& requests@[i].pcm@ == segmenter::segment_samples(
                    pcm@,
                    segmenter::samples_per_segment(sample_rate, segment_duration_ms),
                    i,
                )
            },
{
    let segments: Vec<PendingSegment<'_, S>> = segmenter::segment_pcm(
        pcm,
        sample_rate,
        segment_duration_ms,
    );
    let n: usize = segments.len();
    let mut requests: Vec<SegmentRequest<'_, S>> = Vec::new();
    let mut i: usize = 0;
    while i < n
        invariant
            n == segments@.len(),
            i <= n,
            requests@.len() == i,
            forall|k: int|
                #![trigger requests@[k]]
                0 <= k < i ==> {
                    &&& requests@[k].session_id == session_id
                    &&& requests@[k].track == track
                    &&& requests@[k].sequence == segments@[k].sequence
                    &&& requests@[k].timeline_start_ms == segments@[k].timeline_start_ms
                    &&& requests@[k].sample_rate == sample_rate
                    &&& requests@[k].channels == 1
                    &&& requests@[k].pcm@ == segments@[k].pcm@
                },
        decreases n - i,
    {
        requests.push(
            SegmentRequest {
                session_id,
                track,
                sequence: segments[i].sequence,
                timeline_start_ms: segments[i].timeline_start_ms,
                sample_rate,
                channels: 1,
                pcm: segments[i].pcm,
            },
        );
        i = i + 1;
    }
    requests
}

/// What comes next in committing the segments of a track.
#[derive(Debug, PartialEq, Eq)]
pub enum SegmentStep {
    /// Encode and commit this segment.
    Commit { sequence: u64 },
    /// Put on record that the segment is being uploaded.
    MarkUploading { sequence: u64 },
    Upload { sequence: u64 },
    /// Put on record how the upload came out.
    Record { sequence: u64, state: UploadState },
    Finished,
}

/// What happened in a step.
#[derive(Debug, PartialEq, Eq)]
pub enum SegmentEvent {
    Done,
    Attempted(Result<(), UploadFailure>),
}

/// The step for a segment, if there is such a segment.
pub open spec fn commit_from(sequence: int, total: u64) -> SegmentStep {
    if sequence < total {
        SegmentStep::Commit { sequence: sequence as u64 }
    } else {
        SegmentStep::Finished
    }
}

/// The step after an event. Where the session is not registered, a segment is committed
/// and left for later.
pub open spec fn segment_following(
    step: SegmentStep,
    event: SegmentEvent,
    total: u64,
    registered: bool,
) -> SegmentStep {
    match (step, event) {
        (SegmentStep::Commit { sequence }, SegmentEvent::Done) => if registered {
            SegmentStep::MarkUploading { sequence }
        } else {
            commit_from(sequence + 1, total)
        },
        (SegmentStep::MarkUploading { sequence }, SegmentEvent::Done) => SegmentStep::Upload {
            sequence,
        },
        (SegmentStep::Upload { sequence }, SegmentEvent::Attempted(result)) =>
            SegmentStep::Record { sequence, state: upload_worker::attempted(result) },
        (SegmentStep::Record { sequence, .. }, SegmentEvent::Done) => commit_from(
            sequence + 1,
            total,
        ),
        (step, _) => step,
    }
}

fn next_commit(sequence: u64, total: u64) -> (step: SegmentStep)
    ensures
        step == commit_from(sequence + 1, total),
{
    if sequence < total && sequence + 1 < total {
        SegmentStep::Commit { sequence: sequence + 1 }
    } else {
        SegmentStep::Finished
    }
}

/// The first step for a track with this many segments.
pub fn first_segment_step(total: u64) -> (step: SegmentStep)
    ensures
        step == commit_from(0, total),
{
    if 0 < total {
        SegmentStep::Commit { sequence: 0 }
    } else {
        SegmentStep::Finished
    }
}

/// The step after an event. An event that does not belong to the step changes nothing.
pub fn next_segment_step(
    step: SegmentStep,
    event: SegmentEvent,
    total: u64,
    registered: bool,
) -> (next: SegmentStep)
    ensures
        next == segment_following(step, event, total, registered),
{
    match (step, event) {
        (SegmentStep::Commit { sequence }, SegmentEvent::Done) => if registered {
            SegmentStep::MarkUploading { sequence }
        } else {
            next_commit(sequence, total)
        },
        (SegmentStep::MarkUploading { sequence }, SegmentEvent::Done) => SegmentStep::Upload {
            sequence,
        },
        (SegmentStep::Upload { sequence }, SegmentEvent::Attempted(result)) =>
            SegmentStep::Record { sequence, state: upload_worker::state_after_attempt(result) },
        (SegmentStep::Record { sequence, .. }, SegmentEvent::Done) => next_commit(sequence, total),
        (step, _) => step,
    }
}

/// An upload that fails is put on record and holds up nothing: the next segment is
/// committed all the same, in the same number of steps.
pub proof fn law_failed_uploads_hold_up_nothing(
    sequence: u64,
    total: u64,
    result: Result<(), UploadFailure>,
)
    ensures
        ({
            let uploading = SegmentStep::Upload { sequence };
            let recorded = segment_following(
                uploading,
                SegmentEvent::Attempted(result),
                total,
                true,
            );
            &&& recorded == SegmentStep::Record {
                sequence,
                state: upload_worker::attempted(result),
            }
            &&& segment_following(recorded, SegmentEvent::Done, total, true) == commit_from(
                sequence + 1,
                total,
            )
        }),
{
}

/// Without a registered session nothing is uploaded, and every segment is still committed.
pub proof fn law_unregistered_segments_are_only_committed(
    step: SegmentStep,
    event: SegmentEvent,
    total: u64,
)
    requires
        step is Commit || step is Finished,
    ensures
        ({
            let next = segment_following(step, event, total, false);
            next is Commit || next is Finished
        }),
        event is Done ==> (step matches SegmentStep::Commit { sequence } ==> segment_following(
            step,
            event,
            total,
            false,
        ) == commit_from(sequence + 1, total)),
{
}

/// The step after a list of segments was gone through, given how their uploads came out.
pub open spec fn after_uploads(
    results: Seq<Result<(), UploadFailure>>,
    total: u64,
    registered: bool,
) -> SegmentStep
    decreases results.len(),
{
    if results.len() == 0 {
        commit_from(0, total)
    } else {
        let committing = after_uploads(results.drop_last(), total, registered);
        let committed = segment_following(committing, SegmentEvent::Done, total, registered);
        if registered {
            let uploading = segment_following(committed, SegmentEvent::Done, total, true);
            let attempted = SegmentEvent::Attempted(results.last());
            let recording = segment_following(uploading, attempted, total, true);
            segment_following(recording, SegmentEvent::Done, total, true)
        } else {
            committed
        }
    }
}

/// Every segment has its turn, in order, however the uploads before it came out, and once
/// all of them had it the track is finished.
pub proof fn law_every_segment_has_its_turn(
    results: Seq<Result<(), UploadFailure>>,
    total: u64,
    registered: bool,
)
    requires
        results.len() <= total,
    ensures
        after_uploads(results, total, registered) == if results.len() < total {
            SegmentStep::Commit { sequence: results.len() as u64 }
        } else {
            SegmentStep::Finished
        },
    decreases results.len(),
{
    if results.len() > 0 {
        law_every_segment_has_its_turn(results.drop_last(), total, registered);
    }
}

/// The step after a list of events.
pub open spec fn after_events(events: Seq<PipelineEvent>) -> PipelineStep
    decreases events.len(),
{
    if events.len() == 0 {
        PipelineStep::Begin
    } else {
        following(after_events(events.drop_last()), events.last())
    }
}

/// A session is ended with the remote service exactly if it was registered, at its
/// beginning or late; otherwise it is finished locally. Either way both tracks have been
/// committed by then.
pub proof fn law_registered_sessions_are_ended_remotely(early: bool, late: bool)
    ensures
        ({
            let tracks = seq![
                PipelineEvent::Began { registered: early },
                PipelineEvent::TrackCommitted,
                PipelineEvent::TrackCommitted,
            ];
            let end = after_events(tracks.push(PipelineEvent::TriedLate { registered: late }));
            &&& after_events(tracks) == if early {
                PipelineStep::EndSession
            } else {
                PipelineStep::RegisterLate
            }
            &&& early || late <==> end == PipelineStep::EndSession
            &&& !early && !late <==> end == PipelineStep::FinishLocally
        }),
{
    let none = Seq::<PipelineEvent>::empty();
    let began = none.push(PipelineEvent::Began { registered: early });
    let one = began.push(PipelineEvent::TrackCommitted);
    let two = one.push(PipelineEvent::TrackCommitted);
    let last = two.push(PipelineEvent::TriedLate { registered: late });
    assert(began.drop_last() =~= none);
    assert(one.drop_last() =~= began);
    assert(two.drop_last() =~= one);
    assert(last.drop_last() =~= two);
    assert(after_events(none) == PipelineStep::Begin);
    assert(after_events(began) == PipelineStep::CommitTrack {
        track: TrackKind::SelfMic,
        registered: early,
    });
    assert(after_events(one) == PipelineStep::CommitTrack {
        track: TrackKind::RemoteAudio,
        registered: early,
    });
    assert(two =~= seq![
        PipelineEvent::Began { registered: early },
        PipelineEvent::TrackCommitted,
        PipelineEvent::TrackCommitted,
    ]);
}

/// Neither end is reached before both tracks are committed, whatever happens.
pub proof fn law_nothing_ends_before_both_tracks_are_committed(
    step: PipelineStep,
    event: PipelineEvent,
)
    requires
        following(step, event) == PipelineStep::EndSession || following(step, event)
            == PipelineStep::FinishLocally || following(step, event) == PipelineStep::RegisterLate,
    ensures
        step == following(step, event) || step == PipelineStep::RegisterLate || (event
            == PipelineEvent::TrackCommitted && (step matches PipelineStep::CommitTrack {
            track,
            ..
        } && track == TrackKind::RemoteAudio)),
{
}

/// The self track is committed first and then the remote one, both under what is known of
/// the registration at the beginning; what does not belong to a step leaves it alone.
pub proof fn law_both_tracks_are_committed_in_turn(registered: bool, late: bool)
    ensures
        ({
            let began = following(PipelineStep::Begin, PipelineEvent::Began { registered });
            let next = following(began, PipelineEvent::TrackCommitted);
            &&& began == PipelineStep::CommitTrack { track: TrackKind::SelfMic, registered }
            &&& next == PipelineStep::CommitTrack { track: TrackKind::RemoteAudio, registered }
            &&& following(began, PipelineEvent::TriedLate { registered: late }) == began
            &&& following(next, PipelineEvent::TriedLate { registered: late }) == next
            &&& following(PipelineStep::Begin, PipelineEvent::TrackCommitted)
                == PipelineStep::Begin
            &&& following(PipelineStep::EndSession, PipelineEvent::TriedLate { registered: late })
                == PipelineStep::EndSession
            &&& following(PipelineStep::FinishLocally, PipelineEvent::TriedLate {
                registered: late,
            }) == PipelineStep::FinishLocally
        }),
{
}

/// In a registered session every segment that is committed is put on record as being
/// uploaded and then uploaded, and how that came out is put on record as it was: done
/// where it worked, and otherwise failed for the reason given, and worth another attempt
/// where the failure says so.
pub proof fn law_committed_segments_are_uploaded(
    sequence: u64,
    total: u64,
    result: Result<(), UploadFailure>,
)
    ensures
        ({
            let marking = segment_following(
                SegmentStep::Commit { sequence },
                SegmentEvent::Done,
                total,
                true,
            );
            let uploading = segment_following(marking, SegmentEvent::Done, total, true);
            let recording = segment_following(
                uploading,
                SegmentEvent::Attempted(result),
                total,
                true,
            );
            &&& marking == SegmentStep::MarkUploading { sequence }
            &&& uploading == SegmentStep::Upload { sequence }
            &&& recording matches SegmentStep::Record { sequence: of, state } && of == sequence && (
            match result {
                Ok(_) => state is Completed,
                Err(failure) => state == (UploadState::Failed {
                    retryable: failure.is_retryable || failure.needs_token_refresh,
                    reason: failure.message,
                }),
            })
            &&& segment_following(recording, SegmentEvent::Done, total, true) == if sequence + 1
                < total {
                SegmentStep::Commit { sequence: (sequence + 1) as u64 }
            } else {
                SegmentStep::Finished
            }
        }),
{
}

} // verus!
