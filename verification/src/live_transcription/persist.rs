//! What a provider's events come to in the stored transcript and in the updates that are
//! published.

use crate::domain::{SessionId, TrackKind, TranscriptSegment, Word};
use crate::live_transcription::SttFailure;
use crate::timestamp_mapper::TimestampMapper;
use vstd::prelude::*;

verus! {

/// What a provider reports.
#[derive(Debug, PartialEq, Eq)]
pub enum SttEvent {
    /// What was understood so far; a later event replaces it.
    PartialTranscript { text: String, audio_start_ms: Option<u64>, audio_end_ms: Option<u64> },
    FinalTranscript {
        text: String,
        words: Option<Vec<Word>>,
        audio_start_ms: Option<u64>,
        audio_end_ms: Option<u64>,
    },
    SpeechStarted,
    SpeechEnded,
    Error(SttFailure),
}

/// What is needed of an unconfirmed transcript to keep it after all.
#[derive(Debug, PartialEq, Eq)]
pub struct PendingInterim {
    pub text: String,
    pub audio_start_ms: Option<u64>,
    pub audio_end_ms: Option<u64>,
}

/// The unconfirmed transcript after an event: the last partial one that no final one has
/// replaced.
pub open spec fn interim_after(
    last: Option<PendingInterim>,
    event: SttEvent,
) -> Option<PendingInterim> {
    match event {
        SttEvent::PartialTranscript { text, audio_start_ms, audio_end_ms } => Some(
            PendingInterim { text, audio_start_ms, audio_end_ms },
        ),
        SttEvent::FinalTranscript { .. } => None,
        _ => last,
    }
}

/// Keeps track of the unconfirmed transcript.
pub fn note_event(last_interim: &mut Option<PendingInterim>, event: &SttEvent)
    ensures
        *final(last_interim) == interim_after(*old(last_interim), *event),
{
    match event {
        SttEvent::PartialTranscript { text, audio_start_ms, audio_end_ms } => {
            *last_interim = Some(
                PendingInterim {
                    text: text.clone(),
                    audio_start_ms: *audio_start_ms,
                    audio_end_ms: *audio_end_ms,
                },
            );
        },
        SttEvent::FinalTranscript { .. } => {
            *last_interim = None;
        },
        _ => {},
    }
}

/// Whether a time can be corrected within 64-bit arithmetic.
pub open spec fn can_correct(ms: Option<u64>, mapper: Option<&TimestampMapper>) -> bool {
    match mapper {
        Some(mapper) => mapper.well_formed() && (ms matches Some(ms) ==> mapper.can_map(ms)),
        None => true,
    }
}

/// A provider's time, brought back to the wall clock where there is a mapper for it.
pub open spec fn corrected(ms: Option<u64>, mapper: Option<&TimestampMapper>) -> Option<u64> {
    match (ms, mapper) {
        (Some(ms), Some(mapper)) => Some(
            crate::timestamp_mapper::wallclock(
                mapper.checkpoints@,
                mapper.sample_rate_hz as int,
                ms as int,
            ) as u64,
        ),
        _ => ms,
    }
}

/// A provider's time, brought back to the wall clock where there is a mapper for it. The
/// start and the end of a segment are corrected each by itself: a pause that was not sent
/// may lie between them.
pub fn corrected_ms(ms: Option<u64>, mapper: Option<&TimestampMapper>) -> (corrected_ms: Option<
    u64,
>)
    requires
        can_correct(ms, mapper),
    ensures
        corrected_ms == corrected(ms, mapper),
{
    match (ms, mapper) {
        (Some(ms), Some(mapper)) => Some(mapper.to_wallclock_ms(ms)),
        (ms, _) => ms,
    }
}

/// The final segment that an unconfirmed transcript is kept as, once no event can confirm
/// it any more. A blank one is not worth keeping.
pub open spec fn fallback_segment(
    session_id: SessionId,
    track: TrackKind,
    pending: Option<PendingInterim>,
    mapper: Option<&TimestampMapper>,
) -> Option<TranscriptSegment> {
    match pending {
        Some(pending) => if crate::text::blank(pending.text@) {
            None
        } else {
            Some(
                TranscriptSegment {
                    session_id,
                    track: Some(track),
                    speaker: None,
                    text: pending.text,
                    start_ms: corrected(pending.audio_start_ms, mapper),
                    end_ms: corrected(pending.audio_end_ms, mapper),
                    is_final: true,
                    is_retranscribed: false,
                },
            )
        },
        None => None,
    }
}

/// The segment to store for what was still unconfirmed when a track's events ended.
/// Without it, those words would be lost to everything that reads final segments only.
pub fn persist_pending_interim(
    session_id: SessionId,
    track: TrackKind,
    pending: Option<PendingInterim>,
    mapper: Option<&TimestampMapper>,
) -> (segment: Option<TranscriptSegment>)
    requires
        pending matches Some(pending) ==> can_correct(pending.audio_start_ms, mapper)
            && can_correct(pending.audio_end_ms, mapper),
    ensures
        segment == fallback_segment(session_id, track, pending, mapper),
{
    let pending: PendingInterim = match pending {
        Some(pending) => pending,
        None => {
            return None;
        },
    };
    if crate::text::is_blank(pending.text.as_str()) {
        return None;
    }
    Some(
        TranscriptSegment {
            session_id,
            track: Some(track),
            speaker: None,
            text: pending.text,
            start_ms: corrected_ms(pending.audio_start_ms, mapper),
            end_ms: corrected_ms(pending.audio_end_ms, mapper),
            is_final: true,
            is_retranscribed: false,
        },
    )
}

#[derive(Debug, Clone, Copy, PartialEq, Eq, Structural)]
pub enum Finality {
    Interim,
    Final,
}

/// A segment to store and publish, and the number and revision it goes by on its track.
/// Updates of one segment share a number, up to the final one, and have a revision each.
#[derive(Debug, PartialEq, Eq)]
pub struct PersistedEvent {
    pub segment: TranscriptSegment,
    pub finality: Finality,
    pub segment_number: u64,
    pub revision: u32,
}

/// The speaker of the first word, where words and speakers are known.
pub open spec fn first_speaker(words: Option<Vec<Word>>) -> Option<u32> {
    match words {
        Some(words) => if words@.len() > 0 {
            words@[0].speaker
        } else {
            None
        },
        None => None,
    }
}

/// What an event comes to.
pub open spec fn persisted(
    session_id: SessionId,
    track: TrackKind,
    event: SttEvent,
    mapper: Option<&TimestampMapper>,
    segment_number: u64,
    revision: u32,
) -> Option<PersistedEvent> {
    match event {
        SttEvent::PartialTranscript { text, audio_start_ms, audio_end_ms } => Some(
            PersistedEvent {
                segment: TranscriptSegment {
                    session_id,
                    track: Some(track),
                    speaker: None,
                    text,
                    start_ms: corrected(audio_start_ms, mapper),
                    end_ms: corrected(audio_end_ms, mapper),
                    is_final: false,
                    is_retranscribed: false,
                },
                finality: Finality::Interim,
                segment_number,
                revision,
            },
        ),
        SttEvent::FinalTranscript { text, words, audio_start_ms, audio_end_ms } => Some(
            PersistedEvent {
                segment: TranscriptSegment {
                    session_id,
                    track: Some(track),
                    speaker: first_speaker(words),
                    text,
                    start_ms: corrected(audio_start_ms, mapper),
                    end_ms: corrected(audio_end_ms, mapper),
                    is_final: true,
                    is_retranscribed: false,
                },
                finality: Finality::Final,
                segment_number,
                revision,
            },
        ),
        _ => None,
    }
}

/// The number of the next segment after an event.
pub open spec fn number_after(segment_number: u64, event: SttEvent) -> u64 {
    if event is FinalTranscript {
        (segment_number + 1) as u64
    } else {
        segment_number
    }
}

/// The revision of the next update after an event: one higher with each interim update,
/// and back at the start once a final segment has moved the number on.
pub open spec fn revision_after(revision: u32, event: SttEvent) -> u32 {
    match event {
        SttEvent::PartialTranscript { .. } => (revision + 1) as u32,
        SttEvent::FinalTranscript { .. } => 0,
        _ => revision,
    }
}

/// Whether the counters have room for an event.
pub open spec fn can_number(segment_number: u64, revision: u32, event: SttEvent) -> bool {
    match event {
        SttEvent::PartialTranscript { .. } => revision < u32::MAX,
        SttEvent::FinalTranscript { .. } => segment_number < u64::MAX,
        _ => true,
    }
}

/// Whether the times of an event can be corrected within 64-bit arithmetic.
pub open spec fn can_persist(event: SttEvent, mapper: Option<&TimestampMapper>) -> bool {
    match event {
        SttEvent::PartialTranscript { audio_start_ms, audio_end_ms, .. } => can_correct(
            audio_start_ms,
            mapper,
        ) && can_correct(audio_end_ms, mapper),
        SttEvent::FinalTranscript { audio_start_ms, audio_end_ms, .. } => can_correct(
            audio_start_ms,
            mapper,
        ) && can_correct(audio_end_ms, mapper),
        _ => true,
    }
}

/// Says what an event comes to: a segment for every transcript, and nothing for the rest.
pub fn persist_event(
    session_id: SessionId,
    track: TrackKind,
    event: SttEvent,
    mapper: Option<&TimestampMapper>,
    segment_counter: &mut u64,
    next_revision: &mut u32,
) -> (result: Option<PersistedEvent>)
    requires
        can_persist(event, mapper),
        can_number(*old(segment_counter), *old(next_revision), event),
    ensures
        result == persisted(
            session_id,
            track,
            event,
            mapper,
            *old(segment_counter),
            *old(next_revision),
        ),
        *final(segment_counter) == number_after(*old(segment_counter), event),
        *final(next_revision) == revision_after(*old(next_revision), event),
{
    let segment_number: u64 = *segment_counter;
    let revision: u32 = *next_revision;
    match event {
        SttEvent::PartialTranscript { text, audio_start_ms, audio_end_ms } => {
            *next_revision = revision + 1;
            Some(
                PersistedEvent {
                    segment: TranscriptSegment {
                        session_id,
                        track: Some(track),
                        speaker: None,
                        text,
                        start_ms: corrected_ms(audio_start_ms, mapper),
                        end_ms: corrected_ms(audio_end_ms, mapper),
                        is_final: false,
                        is_retranscribed: false,
                    },
                    finality: Finality::Interim,
                    segment_number,
                    revision,
                },
            )
        },
        SttEvent::FinalTranscript { text, words, audio_start_ms, audio_end_ms } => {
            let speaker: Option<u32> = match &words {
                Some(words) => if words.len() > 0 {
                    words[0].speaker
                } else {
                    None
                },
                None => None,
            };
            *segment_counter = segment_number + 1;
            *next_revision = 0;
            Some(
                PersistedEvent {
                    segment: TranscriptSegment {
                        session_id,
                        track: Some(track),
                        speaker,
                        text,
                        start_ms: corrected_ms(audio_start_ms, mapper),
                        end_ms: corrected_ms(audio_end_ms, mapper),
                        is_final: true,
                        is_retranscribed: false,
                    },
                    finality: Finality::Final,
                    segment_number,
                    revision,
                },
            )
        },
        _ => None,
    }
}

/// A segment, as it is published.
#[derive(Debug, PartialEq, Eq)]
pub struct SegmentData {
    pub segment_id: String,
    pub revision: u32,
    pub text: String,
    pub speaker_label: String,
    pub track: TrackKind,
    pub start_ms: Option<u64>,
    pub end_ms: Option<u64>,
}

/// What is published.
#[derive(Debug, PartialEq, Eq)]
pub enum TranscriptUpdate {
    SegmentUpdated { session_id: SessionId, data: SegmentData, finality: Finality },
    SegmentFinalized { session_id: SessionId, data: SegmentData },
    /// The recording is over.
    SessionEnded { session_id: SessionId },
}

/// Whether the published data show a segment under an id and a revision.
pub open spec fn shows(
    data: SegmentData,
    segment: TranscriptSegment,
    track: TrackKind,
    segment_id: Seq<char>,
    revision: u32,
) -> bool {
    &&& data.segment_id@ == segment_id
    &&& data.revision == revision
    &&& data.text == segment.text
    &&& data.speaker_label@ == super::label(segment.track, segment.speaker)
    &&& data.track == track
    &&& data.start_ms == segment.start_ms
    &&& data.end_ms == segment.end_ms
}

fn segment_data(
    segment: &TranscriptSegment,
    track: TrackKind,
    segment_id: String,
    revision: u32,
) -> (data: SegmentData)
    requires
        segment.speaker != Some(u32::MAX),
    ensures
        shows(data, *segment, track, segment_id@, revision),
{
    SegmentData {
        segment_id,
        revision,
        text: segment.text.clone(),
        speaker_label: super::speaker_label(segment.track, segment.speaker),
        track,
        start_ms: segment.start_ms,
        end_ms: segment.end_ms,
    }
}

/// The updates to publish for a segment, in order: one for every change, and one more
/// where the segment is final.
pub fn publish_transcript_event(
    session_id: SessionId,
    track: TrackKind,
    segment: &TranscriptSegment,
    finality: Finality,
    segment_id: String,
    revision: u32,
) -> (updates: Vec<TranscriptUpdate>)
    requires
        segment.speaker != Some(u32::MAX),
    ensures
        updates@.len() == if finality == Finality::Final {
            2int
        } else {
            1
        },
        updates@[0] matches TranscriptUpdate::SegmentUpdated { session_id: of, data, finality: shown }
            && of == session_id && shown == finality && shows(
            data,
            *segment,
            track,
            segment_id@,
            revision,
        ),
        finality == Finality::Final ==> (updates@[1] matches TranscriptUpdate::SegmentFinalized {
            session_id: of,
            data,
        } && of == session_id && shows(data, *segment, track, segment_id@, revision)),
{
    let mut updates: Vec<TranscriptUpdate> = Vec::new();
    let data: SegmentData = segment_data(segment, track, segment_id.clone(), revision);
    updates.push(TranscriptUpdate::SegmentUpdated { session_id, data, finality });
    match finality {
        Finality::Final => {
            let data: SegmentData = segment_data(segment, track, segment_id, revision);
            updates.push(TranscriptUpdate::SegmentFinalized { session_id, data });
        },
        Finality::Interim => {},
    }
    updates
}

/// The unconfirmed transcript after a list of events.
pub open spec fn interim_after_all(
    last: Option<PendingInterim>,
    events: Seq<SttEvent>,
) -> Option<PendingInterim>
    decreases events.len(),
{
    if events.len() == 0 {
        last
    } else {
        interim_after(interim_after_all(last, events.drop_last()), events.last())
    }
}

/// Nothing that was understood is lost when a track's events end: if the last transcript
/// that came was a partial one that is not blank, it is kept as a final segment.
pub proof fn law_last_words_are_kept(
    session_id: SessionId,
    track: TrackKind,
    last: Option<PendingInterim>,
    events: Seq<SttEvent>,
    at: int,
    mapper: Option<&TimestampMapper>,
)
    requires
        0 <= at < events.len(),
        events[at] is PartialTranscript,
        !crate::text::blank(events[at]->PartialTranscript_text@),
        forall|i: int|
            at < i < events.len() ==> !(#[trigger] events[i] is PartialTranscript) && !(events[i]
                is FinalTranscript),
    ensures
        fallback_segment(session_id, track, interim_after_all(last, events), mapper) matches Some(
            segment,
        ) && segment.is_final && segment.text == events[at]->PartialTranscript_text,
    decreases events.len(),
{
    if at < events.len() - 1 {
        let earlier = events.drop_last();
        assert(earlier[at] == events[at]);
        assert(events.last() == events[events.len() - 1]);
        assert forall|i: int| at < i < earlier.len() implies !(#[trigger] earlier[i]
            is PartialTranscript) && !(earlier[i] is FinalTranscript) by {
            assert(earlier[i] == events[i]);
        }
        law_last_words_are_kept(session_id, track, last, earlier, at, mapper);
    }
}

/// A final transcript replaces the partial ones before it: they are not kept a second
/// time when the events end.
pub proof fn law_final_replaces_partial(
    session_id: SessionId,
    track: TrackKind,
    last: Option<PendingInterim>,
    event: SttEvent,
    mapper: Option<&TimestampMapper>,
)
    requires
        event is FinalTranscript,
    ensures
        fallback_segment(session_id, track, interim_after(last, event), mapper) is None,
{
}

/// Updates of one segment share its number, and the number is used up by the final one.
pub proof fn law_numbers_go_up_with_final_segments(
    session_id: SessionId,
    track: TrackKind,
    event: SttEvent,
    mapper: Option<&TimestampMapper>,
    segment_number: u64,
    revision: u32,
)
    requires
        can_number(segment_number, revision, event),
    ensures
        persisted(session_id, track, event, mapper, segment_number, revision) matches Some(stored)
            ==> stored.segment_number == segment_number && stored.segment.is_final == (
        stored.finality == Finality::Final) && number_after(segment_number, event)
            == segment_number + if stored.finality == Finality::Final {
            1int
        } else {
            0
        },
        persisted(session_id, track, event, mapper, segment_number, revision) is None
            ==> number_after(segment_number, event) == segment_number,
{
}

/// The number and the revision of the next update after a list of events.
pub open spec fn numbering_after_all(
    segment_number: u64,
    revision: u32,
    events: Seq<SttEvent>,
) -> (u64, u32)
    decreases events.len(),
{
    if events.len() == 0 {
        (segment_number, revision)
    } else {
        let (number, revision) = numbering_after_all(
            segment_number,
            revision,
            events.drop_last(),
        );
        (number_after(number, events.last()), revision_after(revision, events.last()))
    }
}

/// What an event of a list comes to, with the number and the revision that it has there.
pub open spec fn persisted_at(
    session_id: SessionId,
    track: TrackKind,
    events: Seq<SttEvent>,
    at: int,
    mapper: Option<&TimestampMapper>,
    segment_number: u64,
    revision: u32,
) -> Option<PersistedEvent> {
    let (number, revision) = numbering_after_all(segment_number, revision, events.take(at));
    persisted(session_id, track, events[at], mapper, number, revision)
}

/// Whether the counters have room for every event of a list.
pub open spec fn can_number_all(
    segment_number: u64,
    revision: u32,
    events: Seq<SttEvent>,
) -> bool {
    forall|i: int|
        #![trigger events[i]]
        0 <= i < events.len() ==> {
            let (number, revision) = numbering_after_all(segment_number, revision, events.take(i));
            can_number(number, revision, events[i])
        }
}

/// From one point in a list of events to a later one, the number does not go back, and
/// while it stays the same, the revision does not go back either.
proof fn lemma_numbering_moves_on(
    segment_number: u64,
    revision: u32,
    events: Seq<SttEvent>,
    earlier: int,
    later: int,
)
    requires
        0 <= earlier < later <= events.len(),
        can_number_all(segment_number, revision, events),
    ensures
        ({
            let (n, r) = numbering_after_all(segment_number, revision, events.take(earlier));
            let (n2, r2) = numbering_after_all(segment_number, revision, events.take(later));
            &&& n <= n2
            &&& n == n2 ==> r <= r2
            &&& n == n2 && events[earlier] is PartialTranscript ==> r < r2
            &&& events[earlier] is FinalTranscript ==> n < n2
        }),
    decreases later,
{
    let upto = events.take(later);
    assert(upto.drop_last() =~= events.take(later - 1));
    assert(upto.last() == events[later - 1]);
    if earlier < later - 1 {
        lemma_numbering_moves_on(segment_number, revision, events, earlier, later - 1);
    }
}

/// Of two updates of one segment, the later has the larger revision, whatever else is
/// reported in between: of two interim updates, and of an interim update and the final
/// segment that replaces it. What comes after the final segment is another segment.
pub proof fn law_later_updates_have_larger_revisions(
    session_id: SessionId,
    track: TrackKind,
    events: Seq<SttEvent>,
    earlier: int,
    later: int,
    earlier_mapper: Option<&TimestampMapper>,
    later_mapper: Option<&TimestampMapper>,
    segment_number: u64,
    revision: u32,
)
    requires
        0 <= earlier < later < events.len(),
        can_number_all(segment_number, revision, events),
        events[earlier] is PartialTranscript || events[earlier] is FinalTranscript,
        events[later] is PartialTranscript || events[later] is FinalTranscript,
    ensures
        ({
            let first = persisted_at(
                session_id,
                track,
                events,
                earlier,
                earlier_mapper,
                segment_number,
                revision,
            );
            let second = persisted_at(
                session_id,
                track,
                events,
                later,
                later_mapper,
                segment_number,
                revision,
            );
            &&& first is Some && second is Some
            &&& first->0.segment_number <= second->0.segment_number
            &&& first->0.finality == Finality::Final ==> first->0.segment_number
                < second->0.segment_number
            &&& first->0.segment_number == second->0.segment_number ==> first->0.revision
                < second->0.revision
        }),
{
    lemma_numbering_moves_on(segment_number, revision, events, earlier, later);
}

/// A new segment starts again at the first revision.
pub proof fn law_a_new_segment_starts_at_the_first_revision(
    segment_number: u64,
    revision: u32,
    event: SttEvent,
)
    requires
        can_number(segment_number, revision, event),
        number_after(segment_number, event) != segment_number,
    ensures
        revision_after(revision, event) == 0,
{
}

/// A transcript is kept word for word, for its session and its track, as what it is: an
/// unconfirmed one as such and without a speaker, a final one under the speaker of its
/// first word. Whatever is no transcript is not kept.
pub proof fn law_transcripts_are_kept_as_they_came(
    session_id: SessionId,
    track: TrackKind,
    event: SttEvent,
    mapper: Option<&TimestampMapper>,
    segment_number: u64,
    revision: u32,
)
    ensures
        ({
            let kept = persisted(session_id, track, event, mapper, segment_number, revision);
            &&& kept is Some <==> event is PartialTranscript || event is FinalTranscript
            &&& kept matches Some(kept) ==> {
                &&& kept.segment.session_id == session_id
                &&& kept.segment.track == Some(track)
                &&& !kept.segment.is_retranscribed
                &&& kept.segment_number == segment_number
                &&& kept.revision == revision
                &&& kept.segment.is_final <==> event is FinalTranscript
                &&& kept.finality == Finality::Final <==> event is FinalTranscript
            }
            &&& event matches SttEvent::PartialTranscript { text, .. } ==> kept->0.segment.text
                == text && kept->0.segment.speaker is None
            &&& event matches SttEvent::FinalTranscript { text, words, .. } ==> {
                &&& kept->0.segment.text == text
                &&& words is None ==> kept->0.segment.speaker is None
                &&& words matches Some(words) ==> words@.len() > 0 ==> kept->0.segment.speaker
                    == words@[0].speaker
                &&& words matches Some(words) ==> words@.len() == 0 ==> kept->0.segment.speaker
                    is None
            }
        }),
{
}

/// Words that no event can confirm any more are kept as if they had been confirmed, unless
/// there is nothing to read in them.
pub proof fn law_unconfirmed_words_are_kept(
    session_id: SessionId,
    track: TrackKind,
    pending: PendingInterim,
    mapper: Option<&TimestampMapper>,
)
    ensures
        fallback_segment(session_id, track, None, mapper) is None,
        ({
            let kept = fallback_segment(session_id, track, Some(pending), mapper);
            &&& kept is None <==> crate::text::blank(pending.text@)
            &&& kept matches Some(segment) ==> {
                &&& segment.text == pending.text
                &&& segment.session_id == session_id
                &&& segment.track == Some(track)
                &&& segment.speaker is None
                &&& segment.is_final
                &&& !segment.is_retranscribed
            }
        }),
{
}

/// A later partial transcript replaces an earlier one, and what is no transcript leaves it
/// as it is.
pub proof fn law_the_latest_partial_is_pending(
    last: Option<PendingInterim>,
    event: SttEvent,
)
    ensures
        interim_after(last, event) is Some <==> event is PartialTranscript || last is Some
            && !(event is FinalTranscript),
        event matches SttEvent::PartialTranscript { text, audio_start_ms, audio_end_ms } ==> {
            let pending = interim_after(last, event)->0;
            &&& pending.text == text
            &&& pending.audio_start_ms == audio_start_ms
            &&& pending.audio_end_ms == audio_end_ms
        },
        event is SpeechStarted || event is SpeechEnded || event is Error ==> interim_after(
            last,
            event,
        ) == last,
{
}

/// What is published of a segment is what is stored of it.
pub proof fn law_a_segment_is_published_as_stored(
    data: SegmentData,
    segment: TranscriptSegment,
    track: TrackKind,
    segment_id: Seq<char>,
    revision: u32,
)
    requires
        shows(data, segment, track, segment_id, revision),
    ensures
        data.text == segment.text,
        data.start_ms == segment.start_ms,
        data.end_ms == segment.end_ms,
        data.track == track,
        data.segment_id@ == segment_id,
        data.revision == revision,
        data.speaker_label@ == super::label(segment.track, segment.speaker),
{
}

} // verus!
