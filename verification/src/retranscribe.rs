//! Transcribing an outage after the recording: finds the audio that lies in a gap, and
//! turns the transcript of it into segments on the recording's timeline.

use crate::domain::{AudioSegment, SessionId, TrackKind, TranscriptSegment, Word};
use crate::live_transcription;
use crate::stt_provider_kind::SttProviderKind;
use vstd::prelude::*;

verus! {

/// A stretch of the recording in which live transcription was down.
#[derive(Debug, Clone, Copy, PartialEq, Eq, Structural)]
pub struct TranscriptionGap {
    pub id: i64,
    pub session_id: SessionId,
    pub track: TrackKind,
    pub start_ms: u64,
    /// `None` while the outage lasts.
    pub end_ms: Option<u64>,
}

/// What a provider makes of a piece of audio.
#[derive(Debug, PartialEq, Eq)]
pub struct BatchTranscript {
    pub text: String,
    pub words: Option<Vec<Word>>,
}

/// Why a gap cannot be transcribed.
#[derive(Debug, PartialEq, Eq)]
pub enum RetranscribeError {
    /// The outage is not over, so there is no bounded stretch to transcribe.
    GapStillOpen { gap_id: i64, session_id: SessionId },
    /// The provider cannot transcribe recorded audio.
    UnsupportedProvider { kind: SttProviderKind },
    CredentialMissing { kind: SttProviderKind, source: String },
    /// No audio was committed for the stretch.
    NoAudioInRange { session_id: SessionId, track: TrackKind, start_ms: u64, end_ms: u64 },
    /// The audio could not be decoded.
    SegmentStore(String),
    /// The provider failed.
    Stt(String),
    SessionStore(String),
}

/// The name of a track in messages.
pub open spec fn track_name(track: TrackKind) -> Seq<char> {
    match track {
        TrackKind::SelfMic => "SelfMic"@,
        TrackKind::RemoteAudio => "RemoteAudio"@,
    }
}

fn track_name_text(track: TrackKind) -> (name: &'static str)
    ensures
        name@ == track_name(track),
{
    match track {
        TrackKind::SelfMic => "SelfMic",
        TrackKind::RemoteAudio => "RemoteAudio",
    }
}

impl RetranscribeError {
    /// What the error reads as, given how the session's id reads.
    pub open spec fn text(self, session: Seq<char>) -> Seq<char> {
        match self {
            RetranscribeError::GapStillOpen { gap_id, .. } => "gap "@
                + crate::text::signed_decimal(gap_id as int) + " on session "@ + session
                + " is still open (no end_ms)"@,
            RetranscribeError::UnsupportedProvider { kind } => "STT provider "@
                + live_transcription::provider_name(kind)
                + " does not support batch re-transcription yet"@,
            RetranscribeError::CredentialMissing { kind, source } =>
                "no credential configured for STT provider "@ + live_transcription::provider_name(
                kind,
            ) + ": "@ + source@,
            RetranscribeError::NoAudioInRange { track, start_ms, end_ms, .. } =>
                "no recorded audio segments overlap ["@ + crate::text::decimal(start_ms as nat)
                + ", "@ + crate::text::decimal(end_ms as nat) + ") on track "@ + track_name(track)
                + " for session "@ + session,
            RetranscribeError::SegmentStore(source) => "segment decode error: "@ + source@,
            RetranscribeError::Stt(source) => "batch STT call failed: "@ + source@,
            RetranscribeError::SessionStore(source) => "session-store error: "@ + source@,
        }
    }

    /// What the error reads as, given how the session's id reads.
    pub fn message(&self, session: &str) -> (message: String)
        ensures
            message@ == self.text(session@),
    {
        match self {
            RetranscribeError::GapStillOpen { gap_id, .. } => {
                let id: String = crate::text::signed_decimal_text(*gap_id);
                String::from_str("gap ").concat(id.as_str()).concat(" on session ").concat(
                    session,
                ).concat(" is still open (no end_ms)")
            },
            RetranscribeError::UnsupportedProvider { kind } => {
                String::from_str("STT provider ").concat(
                    live_transcription::provider_name_text(*kind),
                ).concat(" does not support batch re-transcription yet")
            },
            RetranscribeError::CredentialMissing { kind, source } => {
                String::from_str("no credential configured for STT provider ").concat(
                    live_transcription::provider_name_text(*kind),
                ).concat(": ").concat(source.as_str())
            },
            RetranscribeError::NoAudioInRange { track, start_ms, end_ms, .. } => {
                let start: String = crate::text::decimal_text(*start_ms);
                let end: String = crate::text::decimal_text(*end_ms);
                String::from_str("no recorded audio segments overlap [").concat(
                    start.as_str(),
                ).concat(", ").concat(end.as_str()).concat(") on track ").concat(
                    track_name_text(*track),
                ).concat(" for session ").concat(session)
            },
            RetranscribeError::SegmentStore(source) => {
                String::from_str("segment decode error: ").concat(source.as_str())
            },
            RetranscribeError::Stt(source) => {
                String::from_str("batch STT call failed: ").concat(source.as_str())
            },
            RetranscribeError::SessionStore(source) => {
                String::from_str("session-store error: ").concat(source.as_str())
            },
        }
    }
}

/// Whether a provider can transcribe recorded audio.
pub open spec fn supported(kind: SttProviderKind) -> bool {
    kind == SttProviderKind::Deepgram
}

/// Whether a provider can transcribe recorded audio. Needs no credential, so that it can
/// be asked before anything is attempted.
pub fn supports_batch_retranscription(kind: SttProviderKind) -> (supports: bool)
    ensures
        supports == supported(kind),
{
    match kind {
        SttProviderKind::Deepgram => true,
        SttProviderKind::OpenAi => false,
        SttProviderKind::Google => false,
        SttProviderKind::AssemblyAi => false,
    }
}

/// Decides which credential a provider for recorded audio is built with. `loaded` is what
/// the credential store gave.
pub fn build_batch_stt_provider(
    kind: SttProviderKind,
    loaded: Result<String, String>,
) -> (credential: Result<String, RetranscribeError>)
    ensures
        credential == if supported(kind) {
            match loaded {
                Ok(secret) => Ok::<String, RetranscribeError>(secret),
                Err(source) => Err(RetranscribeError::CredentialMissing { kind, source }),
            }
        } else {
            Err(RetranscribeError::UnsupportedProvider { kind })
        },
{
    match kind {
        SttProviderKind::Deepgram => match loaded {
            Ok(secret) => Ok(secret),
            Err(source) => Err(RetranscribeError::CredentialMissing { kind, source }),
        },
        SttProviderKind::OpenAi => Err(RetranscribeError::UnsupportedProvider { kind }),
        SttProviderKind::Google => Err(RetranscribeError::UnsupportedProvider { kind }),
        SttProviderKind::AssemblyAi => Err(RetranscribeError::UnsupportedProvider { kind }),
    }
}

/// Whether any part of a segment lies in a stretch. Both are half-open.
pub open spec fn overlaps(segment: AudioSegment, start_ms: u64, end_ms: u64) -> bool {
    segment.timeline_start_ms < end_ms && segment.end_ms() > start_ms
}

/// The segments that touch a stretch, in the order given.
pub open spec fn overlapping(
    segments: Seq<AudioSegment>,
    start_ms: u64,
    end_ms: u64,
) -> Seq<AudioSegment> {
    segments.filter(|segment: AudioSegment| overlaps(segment, start_ms, end_ms))
}

/// The segments that a list of references names.
pub open spec fn named(segments: Seq<&AudioSegment>) -> Seq<AudioSegment> {
    Seq::new(segments.len(), |i: int| *segments[i])
}

/// Whether every segment ends at a time that a `u64` can hold.
pub open spec fn ends_fit(segments: Seq<AudioSegment>) -> bool {
    forall|i: int| 0 <= i < segments.len() ==> (#[trigger] segments[i]).end_ms() <= u64::MAX
}

/// The segments that touch a stretch, in the order given. A segment that reaches beyond
/// the stretch is taken whole: that is better than to clip speech at the edge.
pub fn segments_overlapping(
    segments: &[AudioSegment],
    start_ms: u64,
    end_ms: u64,
) -> (touching: Vec<&AudioSegment>)
    requires
        ends_fit(segments@),
    ensures
        named(touching@) == overlapping(segments@, start_ms, end_ms),
{
    let ghost keep = |segment: AudioSegment| overlaps(segment, start_ms, end_ms);
    let n: usize = segments.len();
    let mut touching: Vec<&AudioSegment> = Vec::new();
    let mut i: usize = 0;
    proof {
        reveal(Seq::filter);
        assert(segments@.take(0) =~= Seq::empty());
        assert(named(touching@) =~= segments@.take(0).filter(keep));
    }
    while i < n
        invariant
            n == segments@.len(),
            i <= n,
            ends_fit(segments@),
            keep == (|segment: AudioSegment| overlaps(segment, start_ms, end_ms)),
            named(touching@) == segments@.take(i as int).filter(keep),
        decreases n - i,
    {
        let segment: &AudioSegment = &segments[i];
        let ghost before = named(touching@);
        proof {
            reveal(Seq::filter);
            assert(segments@.take(i + 1).drop_last() =~= segments@.take(i as int));
            assert(segments@.take(i + 1).last() == segments@[i as int]);
        }
        let segment_end: u64 = segment.timeline_start_ms + segment.duration_ms as u64;
        if segment.timeline_start_ms < end_ms && segment_end > start_ms {
            touching.push(segment);
            assert(named(touching@) =~= before.push(*segment));
        }
        i = i + 1;
    }
    assert(segments@.take(n as int) =~= segments@);
    touching
}

/// Texts put together with a blank between each two.
pub open spec fn spoken(words: Seq<Word>) -> Seq<char>
    decreases words.len(),
{
    if words.len() == 0 {
        Seq::empty()
    } else if words.len() == 1 {
        words[0].text@
    } else {
        spoken(words.drop_last()) + " "@ + words.last().text@
    }
}

/// A time within the audio, brought to the recording's timeline. A word without a time of
/// its own is put at the start of the audio.
pub open spec fn on_timeline(ms: Option<u64>, audio_start_ms: u64) -> Option<u64> {
    match ms {
        Some(ms) => Some((audio_start_ms + ms) as u64),
        None => Some(audio_start_ms),
    }
}

/// Whether a segment is what a speaker said in one go.
pub open spec fn is_turn(
    segment: TranscriptSegment,
    session_id: SessionId,
    track: TrackKind,
    words: Seq<Word>,
    audio_start_ms: u64,
) -> bool {
    &&& segment.session_id == session_id
    &&& segment.track == Some(track)
    &&& segment.speaker == words[0].speaker
    &&& segment.text@ == spoken(words)
    &&& segment.start_ms == on_timeline(words[0].start_ms, audio_start_ms)
    &&& segment.end_ms == on_timeline(words.last().end_ms, audio_start_ms)
    &&& segment.is_final
    &&& segment.is_retranscribed
}

/// Whether every word lies at a time that a `u64` can hold.
pub open spec fn times_fit(words: Seq<Word>, audio_start_ms: u64) -> bool {
    forall|i: int|
        0 <= i < words.len() ==> {
            &&& (#[trigger] words[i]).start_ms matches Some(ms) ==> audio_start_ms + ms <= u64::MAX
            &&& words[i].end_ms matches Some(ms) ==> audio_start_ms + ms <= u64::MAX
        }
}

/// Builds the segment for a run of words by one speaker, those from `from` up to `to`.
fn turn_to_segment(
    session_id: SessionId,
    track: TrackKind,
    words: &Vec<Word>,
    from: usize,
    to: usize,
    audio_start_ms: u64,
) -> (segment: TranscriptSegment)
    requires
        from < to <= words@.len(),
        times_fit(words@, audio_start_ms),
    ensures
        is_turn(
            segment,
            session_id,
            track,
            words@.subrange(from as int, to as int),
            audio_start_ms,
        ),
{
    let mut text: String = words[from].text.clone();
    let mut i: usize = from + 1;
    proof {
        reveal_with_fuel(spoken, 2);
        assert(words@.subrange(from as int, from + 1) =~= seq![words@[from as int]]);
    }
    while i < to
        invariant
            from < i <= to <= words@.len(),
            text@ == spoken(words@.subrange(from as int, i as int)),
        decreases to - i,
    {
        proof {
            let longer = words@.subrange(from as int, i + 1);
            assert(longer.drop_last() =~= words@.subrange(from as int, i as int));
            assert(longer.last() == words@[i as int]);
        }
        text = text.concat(" ").concat(words[i].text.as_str());
        i = i + 1;
    }
    let start_ms: Option<u64> = match words[from].start_ms {
        Some(ms) => Some(audio_start_ms + ms),
        None => Some(audio_start_ms),
    };
    let end_ms: Option<u64> = match words[to - 1].end_ms {
        Some(ms) => Some(audio_start_ms + ms),
        None => Some(audio_start_ms),
    };
    TranscriptSegment {
        session_id,
        track: Some(track),
        speaker: words[from].speaker,
        text,
        start_ms,
        end_ms,
        is_final: true,
        is_retranscribed: true,
    }
}

/// Words split wherever the speaker changes.
pub open spec fn turns(words: Seq<Word>) -> Seq<Seq<Word>>
    decreases words.len(),
{
    if words.len() == 0 {
        Seq::empty()
    } else {
        let before = turns(words.drop_last());
        if words.len() >= 2 && words.last().speaker == words[words.len() - 2].speaker {
            before.drop_last().push(before.last().push(words.last()))
        } else {
            before.push(seq![words.last()])
        }
    }
}

/// Whether segments are those of a list of turns, one for each.
pub open spec fn are_turns(
    segments: Seq<TranscriptSegment>,
    session_id: SessionId,
    track: TrackKind,
    runs: Seq<Seq<Word>>,
    audio_start_ms: u64,
) -> bool {
    &&& segments.len() == runs.len()
    &&& forall|i: int|
        #![trigger segments[i]]
        #![trigger runs[i]]
        0 <= i < segments.len() ==> is_turn(
            segments[i],
            session_id,
            track,
            runs[i],
            audio_start_ms,
        )
}

/// Whether there are words to go by.
pub open spec fn has_words(transcript: BatchTranscript) -> bool {
    transcript.words matches Some(words) && words@.len() > 0
}

/// The one segment for a transcript without words. The bounds of the gap are the best
/// range there is.
pub open spec fn whole_gap(
    session_id: SessionId,
    track: TrackKind,
    gap_start_ms: u64,
    gap_end_ms: u64,
    text: String,
) -> TranscriptSegment {
    TranscriptSegment {
        session_id,
        track: Some(track),
        speaker: None,
        text,
        start_ms: Some(gap_start_ms),
        end_ms: Some(gap_end_ms),
        is_final: true,
        is_retranscribed: true,
    }
}

/// Turns a transcript into segments: one for every run of words by one speaker, at its
/// place on the recording's timeline.
pub fn transcript_to_segments(
    session_id: SessionId,
    track: TrackKind,
    audio_start_ms: u64,
    gap_start_ms: u64,
    gap_end_ms: u64,
    transcript: BatchTranscript,
) -> (segments: Vec<TranscriptSegment>)
    requires
        transcript.words matches Some(words) ==> times_fit(words@, audio_start_ms),
    ensures
        has_words(transcript) ==> are_turns(
            segments@,
            session_id,
            track,
            turns(transcript.words->0@),
            audio_start_ms,
        ),
        !has_words(transcript) ==> segments@ == seq![
            whole_gap(session_id, track, gap_start_ms, gap_end_ms, transcript.text),
        ],
{
    let mut segments: Vec<TranscriptSegment> = Vec::new();
    let words: Vec<Word> = match transcript.words {
        Some(words) => words,
        None => Vec::new(),
    };
    let n: usize = words.len();
    if n == 0 {
        segments.push(
            TranscriptSegment {
                session_id,
                track: Some(track),
                speaker: None,
                text: transcript.text,
                start_ms: Some(gap_start_ms),
                end_ms: Some(gap_end_ms),
                is_final: true,
                is_retranscribed: true,
            },
        );
        return segments;
    }
    let mut from: usize = 0;
    let mut i: usize = 1;
    proof {
        reveal_with_fuel(turns, 2);
        assert(words@.take(1).drop_last() =~= Seq::empty());
        assert(words@.subrange(0, 1) =~= seq![words@.take(1).last()]);
        assert(turns(words@.take(1)).drop_last() =~= Seq::empty());
    }
    while i < n
        invariant
            n == words@.len(),
            from < i <= n,
            times_fit(words@, audio_start_ms),
            turns(words@.take(i as int)).len() > 0,
            turns(words@.take(i as int)).last() == words@.subrange(from as int, i as int),
            are_turns(
                segments@,
                session_id,
                track,
                turns(words@.take(i as int)).drop_last(),
                audio_start_ms,
            ),
        decreases n - i,
    {
        let ghost sofar = words@.take(i as int);
        let ghost longer = words@.take(i + 1);
        let ghost listed = segments@;
        proof {
            assert(longer.drop_last() =~= sofar);
            assert(longer.last() == words@[i as int]);
            assert(longer[longer.len() - 2] == words@[i - 1]);
        }
        if words[i].speaker != words[i - 1].speaker {
            let segment: TranscriptSegment = turn_to_segment(
                session_id,
                track,
                &words,
                from,
                i,
                audio_start_ms,
            );
            segments.push(segment);
            from = i;
            proof {
                assert(turns(longer) == turns(sofar).push(seq![words@[i as int]]));
                assert(turns(longer).drop_last() =~= turns(sofar));
                assert(words@.subrange(i as int, i + 1) =~= seq![words@[i as int]]);
                assert forall|k: int| 0 <= k < segments@.len() implies is_turn(
                    #[trigger] segments@[k],
                    session_id,
                    track,
                    turns(sofar)[k],
                    audio_start_ms,
                ) by {
                    if k < listed.len() {
                        assert(segments@[k] == listed[k]);
                        assert(turns(sofar).drop_last()[k] == turns(sofar)[k]);
                    }
                }
            }
        } else {
            proof {
                assert(turns(longer) == turns(sofar).drop_last().push(
                    turns(sofar).last().push(words@[i as int]),
                ));
                assert(turns(longer).drop_last() =~= turns(sofar).drop_last());
                assert(words@.subrange(from as int, i + 1) =~= words@.subrange(
                    from as int,
                    i as int,
                ).push(words@[i as int]));
            }
        }
        i = i + 1;
    }
    let ghost listed = segments@;
    let segment: TranscriptSegment = turn_to_segment(
        session_id,
        track,
        &words,
        from,
        n,
        audio_start_ms,
    );
    segments.push(segment);
    proof {
        assert(words@.take(n as int) =~= words@);
        let all = turns(words@);
        assert forall|k: int| 0 <= k < segments@.len() implies is_turn(
            #[trigger] segments@[k],
            session_id,
            track,
            all[k],
            audio_start_ms,
        ) by {
            if k < listed.len() {
                assert(segments@[k] == listed[k]);
                assert(all.drop_last()[k] == all[k]);
            }
        }
    }
    segments
}

/// What has to be transcribed to fill a gap.
#[derive(Debug, PartialEq, Eq)]
pub struct RetranscriptionPlan {
    /// Where the audio begins on the recording's timeline.
    pub audio_start_ms: u64,
    pub gap_end_ms: u64,
    /// The audio, in order.
    pub paths: Vec<String>,
}

/// Decides what has to be transcribed to fill a gap, given the committed segments of its
/// track in order.
pub fn plan_retranscription(gap: &TranscriptionGap, segments: &[AudioSegment]) -> (plan: Result<
    RetranscriptionPlan,
    RetranscribeError,
>)
    requires
        ends_fit(segments@),
    ensures
        match (gap.end_ms, plan) {
            (None, plan) => plan == Err::<RetranscriptionPlan, RetranscribeError>(
                RetranscribeError::GapStillOpen { gap_id: gap.id, session_id: gap.session_id },
            ),
            (Some(end_ms), Ok(plan)) => {
                let touching = overlapping(segments@, gap.start_ms, end_ms);
                &&& exists|first: int|
                    #![trigger segments@[first]]
                    begins_gap(segments@, gap.start_ms, end_ms, first) && plan.audio_start_ms
                        == segments@[first].timeline_start_ms
                &&& touching.len() > 0
                &&& plan.audio_start_ms == touching[0].timeline_start_ms
                &&& plan.gap_end_ms == end_ms
                &&& plan.paths@.len() == touching.len()
                &&& forall|i: int|
                    0 <= i < touching.len() ==> (#[trigger] plan.paths@[i])
                        == touching[i].local_path
            },
            (Some(end_ms), Err(error)) => {
                &&& forall|i: int|
                    0 <= i < segments@.len() ==> lies_beside(
                        #[trigger] segments@[i],
                        gap.start_ms,
                        end_ms,
                    )
                &&& overlapping(segments@, gap.start_ms, end_ms).len() == 0
                &&& error == (RetranscribeError::NoAudioInRange {
                    session_id: gap.session_id,
                    track: gap.track,
                    start_ms: gap.start_ms,
                    end_ms,
                })
            },
        },
{
    let end_ms: u64 = match gap.end_ms {
        Some(end_ms) => end_ms,
        None => {
            return Err(
                RetranscribeError::GapStillOpen { gap_id: gap.id, session_id: gap.session_id },
            );
        },
    };
    let touching: Vec<&AudioSegment> = segments_overlapping(segments, gap.start_ms, end_ms);
    let n: usize = touching.len();
    assert(named(touching@).len() == n);
    proof {
        lemma_first_taken(segments@, gap.start_ms, end_ms);
    }
    if n == 0 {
        return Err(
            RetranscribeError::NoAudioInRange {
                session_id: gap.session_id,
                track: gap.track,
                start_ms: gap.start_ms,
                end_ms,
            },
        );
    }
    let mut paths: Vec<String> = Vec::new();
    let mut i: usize = 0;
    while i < n
        invariant
            n == touching@.len(),
            i <= n,
            paths@.len() == i,
            forall|k: int| 0 <= k < i ==> (#[trigger] paths@[k]) == touching@[k].local_path,
        decreases n - i,
    {
        paths.push(touching[i].local_path.clone());
        i = i + 1;
    }
    proof {
        assert(named(touching@)[0] == *touching@[0]);
        assert forall|k: int| 0 <= k < n implies (#[trigger] paths@[k]) == overlapping(
            segments@,
            gap.start_ms,
            end_ms,
        )[k].local_path by {
            assert(named(touching@)[k] == *touching@[k]);
        }
    }
    Ok(RetranscriptionPlan { audio_start_ms: touching[0].timeline_start_ms, gap_end_ms: end_ms, paths })
}

/// What filling a gap comes to: segments to store, and then a gap to take off the record.
#[derive(Debug, PartialEq, Eq)]
pub struct Retranscription {
    pub segments: Vec<TranscriptSegment>,
    pub discard_gap: i64,
}

/// Turns the transcript of the audio that a plan names into what has to be stored. Only
/// once everything is stored is the gap taken off the record; after a failure it is still
/// there to try again.
pub fn complete_retranscription(
    gap: &TranscriptionGap,
    plan: &RetranscriptionPlan,
    transcript: BatchTranscript,
) -> (done: Retranscription)
    requires
        transcript.words matches Some(words) ==> times_fit(words@, plan.audio_start_ms),
    ensures
        done.discard_gap == gap.id,
        has_words(transcript) ==> are_turns(
            done.segments@,
            gap.session_id,
            gap.track,
            turns(transcript.words->0@),
            plan.audio_start_ms,
        ),
        !has_words(transcript) ==> done.segments@ == seq![
            whole_gap(
                gap.session_id,
                gap.track,
                gap.start_ms,
                plan.gap_end_ms,
                transcript.text,
            ),
        ],
{
    let segments: Vec<TranscriptSegment> = transcript_to_segments(
        gap.session_id,
        gap.track,
        plan.audio_start_ms,
        gap.start_ms,
        plan.gap_end_ms,
        transcript,
    );
    Retranscription { segments, discard_gap: gap.id }
}

/// Turns put together again.
pub open spec fn put_together(runs: Seq<Seq<Word>>) -> Seq<Word>
    decreases runs.len(),
{
    if runs.len() == 0 {
        Seq::empty()
    } else {
        put_together(runs.drop_last()) + runs.last()
    }
}

/// Splitting words by speaker loses none of them and keeps their order.
pub proof fn law_no_word_is_lost(words: Seq<Word>)
    ensures
        put_together(turns(words)) == words,
    decreases words.len(),
{
    if words.len() > 0 {
        let before = turns(words.drop_last());
        law_no_word_is_lost(words.drop_last());
        law_turns_change_with_the_speaker(words.drop_last());
        if words.len() >= 2 && words.last().speaker == words[words.len() - 2].speaker {
            let after = before.drop_last().push(before.last().push(words.last()));
            assert(after.drop_last() =~= before.drop_last());
            assert(put_together(after) =~= put_together(before).push(words.last()));
        } else {
            let after = before.push(seq![words.last()]);
            assert(after.drop_last() =~= before);
            assert(put_together(after) =~= put_together(before).push(words.last()));
        }
        assert(words.drop_last().push(words.last()) =~= words);
    }
}

/// A turn is never empty and has one speaker, and the next turn has another.
pub proof fn law_turns_change_with_the_speaker(words: Seq<Word>)
    ensures
        words.len() > 0 ==> turns(words).len() > 0 && turns(words).last().last() == words.last(),
        forall|i: int| 0 <= i < turns(words).len() ==> (#[trigger] turns(words)[i]).len() > 0,
        forall|i: int, j: int|
            0 <= i < turns(words).len() && 0 <= j < turns(words)[i].len() ==> (
            #[trigger] turns(words)[i][j]).speaker == turns(words)[i][0].speaker,
        forall|i: int|
            #![trigger turns(words)[i]]
            0 < i < turns(words).len() ==> turns(words)[i - 1][0].speaker
                != turns(words)[i][0].speaker,
    decreases words.len(),
{
    if words.len() > 0 {
        let earlier = words.drop_last();
        let before = turns(earlier);
        law_turns_change_with_the_speaker(earlier);
        let after = turns(words);
        if words.len() >= 2 {
            assert(earlier.last() == words[words.len() - 2]);
            assert(before.last() == before[before.len() - 1]);
            assert(before.last()[before.last().len() - 1].speaker == before.last()[0].speaker);
        }
        if words.len() >= 2 && words.last().speaker == words[words.len() - 2].speaker {
            let last = before.last().push(words.last());
            assert(after == before.drop_last().push(last));
            assert forall|i: int, j: int|
                0 <= i < after.len() && 0 <= j < after[i].len() implies (#[trigger] after[i][j]).speaker
                == after[i][0].speaker by {
                if i < after.len() - 1 {
                    assert(after[i] == before[i]);
                    assert(before[i][j].speaker == before[i][0].speaker);
                } else if j < before.last().len() {
                    assert(before[i][j].speaker == before[i][0].speaker);
                }
            }
            assert forall|i: int| #![trigger after[i]] 0 < i < after.len() implies after[i - 1][0].speaker
                != after[i][0].speaker by {
                assert(before[i - 1][0].speaker != before[i][0].speaker);
                assert(after[i - 1] == before[i - 1]);
            }
        } else {
            assert(after == before.push(seq![words.last()]));
            assert forall|i: int, j: int|
                0 <= i < after.len() && 0 <= j < after[i].len() implies (#[trigger] after[i][j]).speaker
                == after[i][0].speaker by {
                if i < after.len() - 1 {
                    assert(after[i] == before[i]);
                    assert(before[i][j].speaker == before[i][0].speaker);
                }
            }
            assert forall|i: int| #![trigger after[i]] 0 < i < after.len() implies after[i - 1][0].speaker
                != after[i][0].speaker by {
                if i < after.len() - 1 {
                    assert(before[i - 1][0].speaker != before[i][0].speaker);
                }
            }
        }
    }
}

/// A gap is filled from exactly the committed segments that touch it.
pub proof fn law_a_gap_takes_what_touches_it(
    segments: Seq<AudioSegment>,
    start_ms: u64,
    end_ms: u64,
    segment: AudioSegment,
)
    ensures
        overlapping(segments, start_ms, end_ms).contains(segment) <==> segments.contains(segment)
            && overlaps(segment, start_ms, end_ms),
    decreases segments.len(),
{
    reveal(Seq::filter);
    if segments.len() > 0 {
        let earlier = segments.drop_last();
        let before = overlapping(earlier, start_ms, end_ms);
        law_a_gap_takes_what_touches_it(earlier, start_ms, end_ms, segment);
        assert(segments =~= earlier.push(segments.last()));
        assert(earlier.push(segments.last()).contains(segment) <==> earlier.contains(segment)
            || segment == segments.last()) by {
            lemma_push_contains(earlier, segments.last(), segment);
        }
        lemma_push_contains(before, segments.last(), segment);
    }
}

proof fn lemma_push_contains(segments: Seq<AudioSegment>, last: AudioSegment, segment: AudioSegment)
    ensures
        segments.push(last).contains(segment) <==> segments.contains(segment) || segment == last,
{
    if segments.contains(segment) {
        let i = choose|i: int| 0 <= i < segments.len() && segments[i] == segment;
        assert(segments.push(last)[i] == segment);
    }
    if segment == last {
        assert(segments.push(last)[segments.len() as int] == segment);
    }
}

/// Whether a segment holds the audio of a millisecond of the recording.
pub open spec fn holds_audio_of(segment: AudioSegment, ms: int) -> bool {
    segment.timeline_start_ms <= ms < segment.timeline_start_ms + segment.duration_ms
}

/// A committed segment is taken exactly if there is a millisecond of the gap whose audio
/// it holds. A segment that reaches beyond the gap on either side, or on both, is one of
/// these.
pub proof fn law_a_gap_takes_all_of_its_audio(
    segments: Seq<AudioSegment>,
    start_ms: u64,
    end_ms: u64,
    segment: AudioSegment,
)
    requires
        segments.contains(segment),
        segment.duration_ms > 0,
        start_ms < end_ms,
    ensures
        overlapping(segments, start_ms, end_ms).contains(segment) <==> exists|ms: int|
            start_ms <= ms < end_ms && #[trigger] holds_audio_of(segment, ms),
{
    law_a_gap_takes_what_touches_it(segments, start_ms, end_ms, segment);
    let first = if segment.timeline_start_ms >= start_ms {
        segment.timeline_start_ms as int
    } else {
        start_ms as int
    };
    if overlapping(segments, start_ms, end_ms).contains(segment) {
        assert(holds_audio_of(segment, first));
    }
}

/// Every millisecond of a gap that was committed is among the audio that fills it.
pub proof fn law_no_audio_of_a_gap_is_left_out(
    segments: Seq<AudioSegment>,
    start_ms: u64,
    end_ms: u64,
    segment: AudioSegment,
    ms: int,
)
    requires
        segments.contains(segment),
        start_ms <= ms < end_ms,
        holds_audio_of(segment, ms),
    ensures
        overlapping(segments, start_ms, end_ms).contains(segment),
{
    law_a_gap_takes_all_of_its_audio(segments, start_ms, end_ms, segment);
}

/// What is taken comes in the order of the committed segments, each as often as it is
/// there, and whether one is taken does not depend on the others.
pub proof fn law_taken_segments_keep_their_order(
    first: Seq<AudioSegment>,
    second: Seq<AudioSegment>,
    segment: AudioSegment,
    start_ms: u64,
    end_ms: u64,
)
    requires
        segment.duration_ms > 0,
        start_ms < end_ms,
    ensures
        overlapping(first + second, start_ms, end_ms) == overlapping(first, start_ms, end_ms)
            + overlapping(second, start_ms, end_ms),
        overlapping(seq![segment], start_ms, end_ms) == if exists|ms: int|
            start_ms <= ms < end_ms && #[trigger] holds_audio_of(segment, ms) {
            seq![segment]
        } else {
            Seq::empty()
        },
{
    let keep = |segment: AudioSegment| overlaps(segment, start_ms, end_ms);
    Seq::filter_distributes_over_add(first, second, keep);
    let one = seq![segment];
    assert(one[0] == segment);
    law_a_gap_takes_all_of_its_audio(one, start_ms, end_ms, segment);
    law_a_gap_takes_what_touches_it(one, start_ms, end_ms, segment);
    reveal_with_fuel(Seq::filter, 2);
    assert(one.drop_last() =~= Seq::empty());
    assert(one.last() == segment);
    assert(overlapping(one, start_ms, end_ms) =~= if keep(segment) {
        seq![segment]
    } else {
        Seq::empty()
    });
    assert(keep(segment) ==> overlapping(one, start_ms, end_ms)[0] == segment);
}

/// Turns read as they were spoken: the words of one go in their order, with one blank
/// between each two.
pub proof fn law_words_are_read_in_order(first: Seq<Word>, second: Seq<Word>, word: Word)
    requires
        first.len() > 0,
        second.len() > 0,
    ensures
        spoken(seq![word]) == word.text@,
        spoken(first + second) == spoken(first) + seq![' '] + spoken(second),
    decreases second.len(),
{
    reveal_strlit(" ");
    assert(" "@ =~= seq![' ']);
    let all = first + second;
    assert(all.drop_last() =~= first + second.drop_last());
    assert(all.last() == second.last());
    if second.len() == 1 {
        assert(all.drop_last() =~= first);
        assert(second[0] == second.last());
    } else {
        law_words_are_read_in_order(first, second.drop_last(), word);
        assert(spoken(all) =~= spoken(first) + seq![' '] + spoken(second));
    }
}

/// A turn lies where its words lie: it begins with its first word and ends with its last,
/// both moved by where the audio begins, and a word that has no time of its own lies at
/// the beginning of the audio.
pub proof fn law_a_turn_lies_where_its_words_lie(
    segment: TranscriptSegment,
    session_id: SessionId,
    track: TrackKind,
    words: Seq<Word>,
    audio_start_ms: u64,
)
    requires
        words.len() > 0,
        times_fit(words, audio_start_ms),
        is_turn(segment, session_id, track, words, audio_start_ms),
    ensures
        segment.start_ms is Some && segment.end_ms is Some,
        words.first().start_ms matches Some(ms) ==> segment.start_ms->0 - audio_start_ms == ms,
        words.first().start_ms is None ==> segment.start_ms->0 == audio_start_ms,
        words.last().end_ms matches Some(ms) ==> segment.end_ms->0 - audio_start_ms == ms,
        words.last().end_ms is None ==> segment.end_ms->0 == audio_start_ms,
        segment.speaker == words.first().speaker,
        segment.text@ == spoken(words),
        segment.session_id == session_id && segment.track == Some(track),
        segment.is_final && segment.is_retranscribed,
{
    assert(words[0] == words.first());
    assert(words[words.len() - 1] == words.last());
}

/// Whether a segment ends before a gap begins, or begins after it ends.
pub open spec fn lies_beside(segment: AudioSegment, start_ms: u64, end_ms: u64) -> bool {
    segment.timeline_start_ms + segment.duration_ms <= start_ms || end_ms
        <= segment.timeline_start_ms
}

/// Whether a segment is the first that does not lie beside a gap.
pub open spec fn begins_gap(
    segments: Seq<AudioSegment>,
    start_ms: u64,
    end_ms: u64,
    first: int,
) -> bool {
    &&& 0 <= first < segments.len()
    &&& !lies_beside(segments[first], start_ms, end_ms)
    &&& forall|i: int|
        0 <= i < first ==> lies_beside(#[trigger] segments[i], start_ms, end_ms)
}

/// Every segment is taken for a gap that does not lie beside it, also an empty one, and
/// none is that does.
pub proof fn law_segments_beside_a_gap_are_left_out(
    segments: Seq<AudioSegment>,
    start_ms: u64,
    end_ms: u64,
    segment: AudioSegment,
)
    requires
        segments.contains(segment),
    ensures
        overlapping(segments, start_ms, end_ms).contains(segment) <==> !lies_beside(
            segment,
            start_ms,
            end_ms,
        ),
{
    law_a_gap_takes_what_touches_it(segments, start_ms, end_ms, segment);
}

proof fn lemma_first_taken(segments: Seq<AudioSegment>, start_ms: u64, end_ms: u64)
    ensures
        overlapping(segments, start_ms, end_ms).len() == 0 ==> forall|i: int|
            0 <= i < segments.len() ==> lies_beside(#[trigger] segments[i], start_ms, end_ms),
        overlapping(segments, start_ms, end_ms).len() > 0 ==> exists|first: int|
            #![trigger segments[first]]
            begins_gap(segments, start_ms, end_ms, first) && overlapping(
                segments,
                start_ms,
                end_ms,
            )[0] == segments[first],
    decreases segments.len(),
{
    reveal(Seq::filter);
    if segments.len() > 0 {
        let earlier = segments.drop_last();
        let before = overlapping(earlier, start_ms, end_ms);
        lemma_first_taken(earlier, start_ms, end_ms);
        let last = segments.len() - 1;
        if before.len() > 0 {
            let first = choose|first: int|
                #![trigger earlier[first]]
                begins_gap(earlier, start_ms, end_ms, first) && before[0] == earlier[first];
            assert(segments[first] == earlier[first]);
            assert forall|i: int| 0 <= i < first implies lies_beside(
                #[trigger] segments[i],
                start_ms,
                end_ms,
            ) by {
                assert(earlier[i] == segments[i]);
            }
            assert(begins_gap(segments, start_ms, end_ms, first));
        } else {
            assert forall|i: int| 0 <= i < last implies lies_beside(
                #[trigger] segments[i],
                start_ms,
                end_ms,
            ) by {
                assert(earlier[i] == segments[i]);
            }
            if overlaps(segments.last(), start_ms, end_ms) {
                assert(segments[last] == segments.last());
                assert(begins_gap(segments, start_ms, end_ms, last));
            }
        }
    }
}

/// A transcript without words fills the whole gap with its text, under no speaker.
pub proof fn law_a_transcript_without_words_fills_the_gap(
    session_id: SessionId,
    track: TrackKind,
    gap_start_ms: u64,
    gap_end_ms: u64,
    transcript: BatchTranscript,
)
    ensures
        ({
            let segment = whole_gap(session_id, track, gap_start_ms, gap_end_ms, transcript.text);
            &&& segment.text == transcript.text
            &&& segment.start_ms == Some(gap_start_ms)
            &&& segment.end_ms == Some(gap_end_ms)
            &&& segment.speaker is None
            &&& segment.session_id == session_id && segment.track == Some(track)
            &&& segment.is_final && segment.is_retranscribed
        }),
        transcript.words is None ==> !has_words(transcript),
        transcript.words matches Some(words) ==> (has_words(transcript) <==> words@.len() != 0),
{
}

/// One provider takes a recording as a whole, and no other does.
pub proof fn law_one_provider_takes_whole_recordings(kind: SttProviderKind)
    ensures
        supported(SttProviderKind::Deepgram),
        supported(kind) ==> kind is Deepgram,
{
}

} // verus!
