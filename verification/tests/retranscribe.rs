//! Filling a gap after the recording.

use meeting_recorder::domain::{AudioSegment, SessionId, TrackKind, TranscriptSegment, Word};
use meeting_recorder::retranscribe::{
    build_batch_stt_provider, complete_retranscription, plan_retranscription,
    segments_overlapping, supports_batch_retranscription, transcript_to_segments,
    BatchTranscript, RetranscribeError, TranscriptionGap,
};
use meeting_recorder::stt_provider_kind::SttProviderKind;

const SESSION: SessionId = SessionId(7);

const EVERY_KIND: [SttProviderKind; 4] = [
    SttProviderKind::Deepgram,
    SttProviderKind::OpenAi,
    SttProviderKind::Google,
    SttProviderKind::AssemblyAi,
];

fn segment(track: TrackKind, sequence: u64) -> AudioSegment {
    AudioSegment {
        session_id: SESSION,
        track,
        sequence,
        timeline_start_ms: sequence * 1_000,
        duration_ms: 1_000,
        local_path: format!("{sequence}.opus"),
    }
}

fn word(text: &str, start_ms: u64, end_ms: u64, speaker: u32) -> Word {
    Word {
        text: text.to_string(),
        start_ms: Some(start_ms),
        end_ms: Some(end_ms),
        speaker: Some(speaker),
    }
}

fn transcript(text: &str, words: Option<Vec<Word>>) -> BatchTranscript {
    BatchTranscript { text: text.to_string(), words }
}

#[test]
fn segments_overlapping_keeps_only_segments_touching_the_range() {
    let segments = vec![
        segment(TrackKind::SelfMic, 0),
        segment(TrackKind::SelfMic, 1),
        segment(TrackKind::SelfMic, 2),
    ];

    // [500, 1500) touches segment 0 ([0,1000)) and segment 1 ([1000,2000)),
    // but not segment 2 ([2000,3000)).
    let overlapping = segments_overlapping(&segments, 500, 1_500);
    assert_eq!(overlapping.iter().map(|s| s.sequence).collect::<Vec<_>>(), vec![0, 1]);

    // An exactly-adjacent range touches nothing (half-open on both ends).
    assert!(segments_overlapping(&segments, 3_000, 4_000).is_empty());
}

#[test]
fn a_range_that_ends_where_a_segment_begins_does_not_touch_it() {
    let segments = vec![segment(TrackKind::SelfMic, 0), segment(TrackKind::SelfMic, 1)];
    let touching = segments_overlapping(&segments, 0, 1_000);
    assert_eq!(touching.iter().map(|s| s.sequence).collect::<Vec<_>>(), vec![0]);
    let touching = segments_overlapping(&segments, 1_000, 1_001);
    assert_eq!(touching.iter().map(|s| s.sequence).collect::<Vec<_>>(), vec![1]);
}

#[test]
fn transcript_to_segments_splits_contiguous_same_speaker_runs() {
    let transcript = transcript(
        "hello world",
        Some(vec![word("hello", 100, 400, 0), word("world", 1_200, 1_600, 1)]),
    );

    let segments = transcript_to_segments(SESSION, TrackKind::RemoteAudio, 0, 0, 2_000, transcript);

    assert_eq!(segments.len(), 2);
    assert_eq!(segments[0].speaker, Some(0));
    assert_eq!(segments[0].text, "hello");
    assert_eq!(segments[0].start_ms, Some(100));
    assert_eq!(segments[0].end_ms, Some(400));
    assert_eq!(segments[1].speaker, Some(1));
    assert_eq!(segments[1].text, "world");
    assert!(segments.iter().all(|s| s.is_retranscribed && s.is_final));
}

#[test]
fn transcript_to_segments_merges_words_from_the_same_speaker() {
    let transcript = transcript(
        "hello there",
        Some(vec![word("hello", 0, 300, 0), word("there", 300, 600, 0)]),
    );

    let segments = transcript_to_segments(SESSION, TrackKind::SelfMic, 0, 0, 1_000, transcript);

    assert_eq!(segments.len(), 1);
    assert_eq!(segments[0].text, "hello there");
    assert_eq!(segments[0].start_ms, Some(0));
    assert_eq!(segments[0].end_ms, Some(600));
}

#[test]
fn transcript_to_segments_offsets_by_the_decoded_buffer_start() {
    let transcript = transcript("hi", Some(vec![word("hi", 100, 200, 0)]));

    // The decoded audio began at 5s on the recording's own timeline.
    let segments = transcript_to_segments(SESSION, TrackKind::SelfMic, 5_000, 5_000, 6_000, transcript);
    assert_eq!(segments[0].start_ms, Some(5_100));
    assert_eq!(segments[0].end_ms, Some(5_200));
}

#[test]
fn transcript_to_segments_falls_back_to_gap_bounds_without_word_timestamps() {
    let segments = transcript_to_segments(
        SESSION,
        TrackKind::RemoteAudio,
        500,
        1_000,
        3_000,
        transcript("no words here", None),
    );

    assert_eq!(segments.len(), 1);
    assert_eq!(segments[0].speaker, None);
    assert_eq!(segments[0].text, "no words here");
    assert_eq!(segments[0].start_ms, Some(1_000));
    assert_eq!(segments[0].end_ms, Some(3_000));
}

#[test]
fn an_empty_list_of_words_counts_as_none() {
    let segments = transcript_to_segments(
        SESSION,
        TrackKind::SelfMic,
        0,
        10,
        20,
        transcript("text", Some(Vec::new())),
    );
    assert_eq!(
        segments,
        vec![TranscriptSegment {
            session_id: SESSION,
            track: Some(TrackKind::SelfMic),
            speaker: None,
            text: "text".to_string(),
            start_ms: Some(10),
            end_ms: Some(20),
            is_final: true,
            is_retranscribed: true,
        }]
    );
}

#[test]
fn a_speaker_who_comes_back_has_a_turn_of_their_own() {
    let mut untimed = word("c", 0, 0, 0);
    untimed.start_ms = None;
    untimed.end_ms = None;
    let words = vec![
        word("a", 0, 10, 0),
        word("b", 10, 20, 1),
        untimed,
        word("d", 30, 40, 0),
    ];
    let segments = transcript_to_segments(
        SESSION,
        TrackKind::SelfMic,
        100,
        0,
        1_000,
        transcript("a b c d", Some(words)),
    );
    let shown: Vec<(Option<u32>, &str, Option<u64>, Option<u64>)> = segments
        .iter()
        .map(|s| (s.speaker, s.text.as_str(), s.start_ms, s.end_ms))
        .collect();
    assert_eq!(
        shown,
        vec![
            (Some(0), "a", Some(100), Some(110)),
            (Some(1), "b", Some(110), Some(120)),
            (Some(0), "c d", Some(100), Some(140)),
        ]
    );
}

#[test]
fn a_word_without_a_time_is_put_at_the_start_of_the_audio() {
    let one = |start_ms: Option<u64>, end_ms: Option<u64>| {
        let words = vec![Word { text: "hi".to_string(), start_ms, end_ms, speaker: Some(0) }];
        let segments = transcript_to_segments(
            SESSION,
            TrackKind::SelfMic,
            5_000,
            0,
            10_000,
            transcript("hi", Some(words)),
        );
        assert_eq!(segments.len(), 1);
        assert_eq!((segments[0].text.as_str(), segments[0].speaker), ("hi", Some(0)));
        (segments[0].start_ms, segments[0].end_ms)
    };
    assert_eq!(one(None, Some(200)), (Some(5_000), Some(5_200)));
    assert_eq!(one(Some(100), None), (Some(5_100), Some(5_000)));
    assert_eq!(one(None, None), (Some(5_000), Some(5_000)));
}

#[test]
fn supports_batch_retranscription_agrees_with_build_batch_stt_provider() {
    for kind in EVERY_KIND {
        let build_result = build_batch_stt_provider(kind, Err("not found".to_string()));
        match (supports_batch_retranscription(kind), build_result) {
            (true, Err(RetranscribeError::UnsupportedProvider { .. })) => {
                panic!("{kind:?} reported supported but build_batch_stt_provider disagreed")
            }
            (false, Ok(_)) => {
                panic!("{kind:?} reported unsupported but build_batch_stt_provider built a provider")
            }
            _ => {}
        }
    }
}

#[test]
fn build_batch_stt_provider_reports_unsupported_for_every_non_deepgram_kind() {
    for kind in [SttProviderKind::OpenAi, SttProviderKind::Google, SttProviderKind::AssemblyAi] {
        let Err(err) = build_batch_stt_provider(kind, Err("not found".to_string())) else {
            panic!("expected UnsupportedProvider for {kind:?}")
        };
        assert!(matches!(err, RetranscribeError::UnsupportedProvider { kind: k } if k == kind));
    }
}

#[test]
fn build_batch_stt_provider_reports_credential_missing_for_deepgram_when_store_is_empty() {
    let Err(err) =
        build_batch_stt_provider(SttProviderKind::Deepgram, Err("not found".to_string()))
    else {
        panic!("expected CredentialMissing")
    };
    assert!(matches!(
        err,
        RetranscribeError::CredentialMissing { kind: SttProviderKind::Deepgram, .. }
    ));
}

#[test]
fn a_stored_credential_is_handed_on() {
    assert_eq!(
        build_batch_stt_provider(SttProviderKind::Deepgram, Ok("key".to_string())),
        Ok("key".to_string())
    );
}

#[test]
fn retranscribe_gap_with_provider_persists_segments_and_discards_the_gap() {
    // Two 1s segments covering [0, 2000).
    let committed =
        vec![segment(TrackKind::RemoteAudio, 0), segment(TrackKind::RemoteAudio, 1)];
    let gap = TranscriptionGap {
        id: 3,
        session_id: SESSION,
        track: TrackKind::RemoteAudio,
        start_ms: 500,
        end_ms: Some(1_500),
    };

    let plan = plan_retranscription(&gap, &committed).unwrap();
    assert_eq!(plan.paths, vec!["0.opus".to_string(), "1.opus".to_string()]);
    assert_eq!(plan.audio_start_ms, 0);
    let heard = transcript(
        "hello world",
        Some(vec![word("hello", 100, 400, 0), word("world", 1_200, 1_600, 1)]),
    );
    let done = complete_retranscription(&gap, &plan, heard);

    assert_eq!(done.segments.len(), 2);
    assert!(done.segments.iter().all(|s| s.is_retranscribed && s.is_final));
    assert_eq!(done.segments[0].start_ms, Some(100));
    assert_eq!(done.segments[1].start_ms, Some(1_200));
    assert_eq!(done.discard_gap, 3);
}

#[test]
fn retranscribe_gap_with_provider_rejects_a_still_open_gap() {
    let gap = TranscriptionGap {
        id: 5,
        session_id: SESSION,
        track: TrackKind::SelfMic,
        start_ms: 0,
        end_ms: None,
    };
    let err = plan_retranscription(&gap, &[]).unwrap_err();
    assert!(matches!(err, RetranscribeError::GapStillOpen { gap_id: 5, .. }));
    assert_eq!(err.message("abc"), "gap 5 on session abc is still open (no end_ms)");
}

#[test]
fn retranscribe_gap_with_provider_reports_no_audio_when_nothing_overlaps() {
    // No segments ever committed for this track.
    let gap = TranscriptionGap {
        id: 1,
        session_id: SESSION,
        track: TrackKind::SelfMic,
        start_ms: 0,
        end_ms: Some(1_000),
    };
    let err = plan_retranscription(&gap, &[]).unwrap_err();
    assert!(matches!(
        err,
        RetranscribeError::NoAudioInRange {
            track: TrackKind::SelfMic,
            start_ms: 0,
            end_ms: 1_000,
            ..
        }
    ));
    assert_eq!(
        err.message("abc"),
        "no recorded audio segments overlap [0, 1000) on track SelfMic for session abc"
    );
}

#[test]
fn retranscription_errors_read_as_they_should() {
    let kind = SttProviderKind::OpenAi;
    assert_eq!(
        RetranscribeError::UnsupportedProvider { kind }.message(""),
        "STT provider OpenAi does not support batch re-transcription yet"
    );
    assert_eq!(
        RetranscribeError::CredentialMissing { kind, source: "gone".to_string() }.message(""),
        "no credential configured for STT provider OpenAi: gone"
    );
    assert_eq!(
        RetranscribeError::SegmentStore("bad".to_string()).message(""),
        "segment decode error: bad"
    );
    assert_eq!(
        RetranscribeError::Stt("slow".to_string()).message(""),
        "batch STT call failed: slow"
    );
    assert_eq!(
        RetranscribeError::SessionStore("full".to_string()).message(""),
        "session-store error: full"
    );
}
