//! Live transcription: streams the audio of both tracks to a transcription provider
//! while the recording goes on, and keeps what comes back.
//!
//! Each track has a session of its own and fails on its own. A session that dies is
//! dropped at once and, where the cause is transient, opened anew with a growing delay;
//! every outage that is long enough to matter is put on record, so that it can be
//! transcribed later. Nothing here waits, sends or stores: the functions say what is to
//! be done, and whoever drives them does it and reports back.

pub mod persist;
pub mod reconnect;
pub mod remote;
pub mod session;

use crate::domain::TrackKind;
use crate::stt_provider_kind::SttProviderKind;
use vstd::prelude::*;

verus! {

/// How long opening a session may take, in milliseconds. Without a bound, a network that
/// swallows the connect would hold up the end of the recording.
pub const START_SESSION_TIMEOUT_MS: u64 = 10_000;

/// How long the end of a session may take, in milliseconds: the provider still has audio
/// to work off.
pub const FINALIZE_TIMEOUT_MS: u64 = 8_000;

/// The state of one track's connection to the provider. An empty transcript alone does
/// not tell whether nobody has spoken or the connection is broken.
#[derive(Debug, PartialEq, Eq)]
pub enum TrackTranscriptionStatus {
    /// No credential is configured; no connection was attempted.
    NotConfigured,
    /// A session is being opened.
    Connecting,
    /// A session is open.
    Connected,
    /// Opening a session failed, or the session reported an error.
    Error(String),
    /// There is no live transcription on this platform.
    Unavailable,
}

impl Default for TrackTranscriptionStatus {
    fn default() -> (status: Self)
        ensures
            status == TrackTranscriptionStatus::NotConfigured,
    {
        TrackTranscriptionStatus::NotConfigured
    }
}

impl Clone for TrackTranscriptionStatus {
    fn clone(&self) -> (copy: Self)
        ensures
            copy == *self,
    {
        match self {
            TrackTranscriptionStatus::NotConfigured => TrackTranscriptionStatus::NotConfigured,
            TrackTranscriptionStatus::Connecting => TrackTranscriptionStatus::Connecting,
            TrackTranscriptionStatus::Connected => TrackTranscriptionStatus::Connected,
            TrackTranscriptionStatus::Error(error) => TrackTranscriptionStatus::Error(
                error.clone(),
            ),
            TrackTranscriptionStatus::Unavailable => TrackTranscriptionStatus::Unavailable,
        }
    }
}

/// The state of both tracks' connections.
#[derive(Debug, PartialEq, Eq)]
pub struct TranscriptionStatus {
    pub self_status: TrackTranscriptionStatus,
    pub remote_status: TrackTranscriptionStatus,
}

impl Default for TranscriptionStatus {
    fn default() -> (status: Self)
        ensures
            status == both(TrackTranscriptionStatus::NotConfigured),
    {
        TranscriptionStatus {
            self_status: TrackTranscriptionStatus::default(),
            remote_status: TrackTranscriptionStatus::default(),
        }
    }
}

impl Clone for TranscriptionStatus {
    fn clone(&self) -> (copy: Self)
        ensures
            copy == *self,
    {
        TranscriptionStatus {
            self_status: self.self_status.clone(),
            remote_status: self.remote_status.clone(),
        }
    }
}

/// The same status for both tracks.
pub open spec fn both(status: TrackTranscriptionStatus) -> TranscriptionStatus {
    TranscriptionStatus { self_status: status, remote_status: status }
}

/// A status with that of one track replaced.
pub open spec fn with_status(
    status: TranscriptionStatus,
    track: TrackKind,
    of_track: TrackTranscriptionStatus,
) -> TranscriptionStatus {
    match track {
        TrackKind::SelfMic => TranscriptionStatus { self_status: of_track, ..status },
        TrackKind::RemoteAudio => TranscriptionStatus { remote_status: of_track, ..status },
    }
}

/// Sets the status of one track and leaves the other's alone.
pub fn set_status(
    status: &mut TranscriptionStatus,
    track: TrackKind,
    of_track: TrackTranscriptionStatus,
)
    ensures
        *final(status) == with_status(*old(status), track, of_track),
{
    match track {
        TrackKind::SelfMic => {
            status.self_status = of_track;
        },
        TrackKind::RemoteAudio => {
            status.remote_status = of_track;
        },
    }
}

/// Sets the status of both tracks.
pub fn set_both_status(status: &mut TranscriptionStatus, of_tracks: TrackTranscriptionStatus)
    ensures
        *final(status) == both(of_tracks),
{
    status.self_status = of_tracks.clone();
    status.remote_status = of_tracks;
}

/// What a failure of a session says of itself.
#[derive(Debug, PartialEq, Eq)]
pub struct SttFailure {
    pub message: String,
    /// Whether the cause is transient, so that a new session may well work.
    pub retryable: bool,
}

/// How opening a session came out.
#[derive(Debug, PartialEq, Eq)]
pub enum StartOutcome {
    Connected,
    /// The provider refused or could not be reached.
    Failed { error: String },
    /// No answer came in time.
    TimedOut { error: String },
}

/// The status of a track after an attempt to open a session.
pub open spec fn started_status(outcome: StartOutcome) -> TrackTranscriptionStatus {
    match outcome {
        StartOutcome::Connected => TrackTranscriptionStatus::Connected,
        StartOutcome::Failed { error } => TrackTranscriptionStatus::Error(error),
        StartOutcome::TimedOut { error } => TrackTranscriptionStatus::Error(error),
    }
}

/// Reports how opening a session for a track came out, and says whether there is a
/// session now. No answer in time is treated as a refusal is.
pub fn note_start(
    status: &mut TranscriptionStatus,
    track: TrackKind,
    outcome: StartOutcome,
) -> (connected: bool)
    ensures
        connected == (outcome is Connected),
        *final(status) == with_status(*old(status), track, started_status(outcome)),
{
    match outcome {
        StartOutcome::Connected => {
            set_status(status, track, TrackTranscriptionStatus::Connected);
            true
        },
        StartOutcome::Failed { error } => {
            set_status(status, track, TrackTranscriptionStatus::Error(error));
            false
        },
        StartOutcome::TimedOut { error } => {
            set_status(status, track, TrackTranscriptionStatus::Error(error));
            false
        },
    }
}

/// The name of a track's speaker.
pub open spec fn track_label(track: Option<TrackKind>) -> Seq<char> {
    match track {
        Some(TrackKind::SelfMic) => "自分"@,
        Some(TrackKind::RemoteAudio) => "相手"@,
        None => "不明"@,
    }
}

/// The name that a speaker is shown under: the track's, and where the provider tells
/// speakers within a track apart, a number that counts from one.
pub open spec fn label(track: Option<TrackKind>, speaker: Option<u32>) -> Seq<char> {
    match speaker {
        Some(n) => track_label(track) + " (話者"@ + crate::text::decimal((n + 1) as nat) + ")"@,
        None => track_label(track),
    }
}

/// The name that a speaker is shown under.
pub fn speaker_label(track: Option<TrackKind>, speaker: Option<u32>) -> (shown: String)
    requires
        speaker != Some(u32::MAX),
    ensures
        shown@ == label(track, speaker),
{
    let base: &str = match track {
        Some(TrackKind::SelfMic) => "自分",
        Some(TrackKind::RemoteAudio) => "相手",
        None => "不明",
    };
    match speaker {
        Some(n) => {
            let number: String = crate::text::decimal_text(n as u64 + 1);
            String::from_str(base).concat(" (話者").concat(number.as_str()).concat(")")
        },
        None => String::from_str(base),
    }
}

/// The sample rate that a provider's session has to be opened at. Some providers refuse
/// any rate but their own; the others take the rate that the audio is captured at.
pub open spec fn target_rate(kind: SttProviderKind, capture_rate_hz: u32) -> u32 {
    match kind {
        SttProviderKind::OpenAi => 24_000,
        SttProviderKind::AssemblyAi => 16_000,
        SttProviderKind::Deepgram => capture_rate_hz,
        SttProviderKind::Google => capture_rate_hz,
    }
}

/// The sample rate that a provider's session has to be opened at.
pub fn target_sample_rate_hz(kind: SttProviderKind, capture_rate_hz: u32) -> (rate: u32)
    ensures
        rate == target_rate(kind, capture_rate_hz),
{
    match kind {
        SttProviderKind::OpenAi => 24_000,
        SttProviderKind::AssemblyAi => 16_000,
        SttProviderKind::Deepgram => capture_rate_hz,
        SttProviderKind::Google => capture_rate_hz,
    }
}

/// The provider that is selected, given what is stored as the selection: the default
/// where nothing is stored, or nothing that names a provider.
pub open spec fn selected(stored: Option<Seq<char>>) -> SttProviderKind {
    match stored {
        Some(value) => match crate::stt_provider_kind::stored_kind(value) {
            Some(kind) => kind,
            None => SttProviderKind::Deepgram,
        },
        None => SttProviderKind::Deepgram,
    }
}

/// The provider that is selected, given what is stored as the selection.
pub fn selected_provider(stored: Option<&str>) -> (kind: SttProviderKind)
    ensures
        kind == selected(
            match stored {
                Some(value) => Some(value@),
                None => None,
            },
        ),
{
    match stored {
        Some(value) => match SttProviderKind::from_account_value(value) {
            Some(kind) => kind,
            None => SttProviderKind::default(),
        },
        None => SttProviderKind::default(),
    }
}

/// Why there is no provider to open a session with.
#[derive(Debug, PartialEq, Eq)]
pub enum SttProviderFactoryError {
    CredentialMissing { kind: SttProviderKind, source: String },
    /// A credential is stored, but not in the form that the provider needs.
    InvalidCredential { kind: SttProviderKind, source: String },
}

/// The name of a provider in messages.
pub open spec fn provider_name(kind: SttProviderKind) -> Seq<char> {
    match kind {
        SttProviderKind::Deepgram => "Deepgram"@,
        SttProviderKind::OpenAi => "OpenAi"@,
        SttProviderKind::Google => "Google"@,
        SttProviderKind::AssemblyAi => "AssemblyAi"@,
    }
}

/// The name of a provider in messages.
pub fn provider_name_text(kind: SttProviderKind) -> (name: &'static str)
    ensures
        name@ == provider_name(kind),
{
    match kind {
        SttProviderKind::Deepgram => "Deepgram",
        SttProviderKind::OpenAi => "OpenAi",
        SttProviderKind::Google => "Google",
        SttProviderKind::AssemblyAi => "AssemblyAi",
    }
}

impl SttProviderFactoryError {
    /// What the error reads as.
    pub open spec fn text(self) -> Seq<char> {
        match self {
            SttProviderFactoryError::CredentialMissing { kind, source } =>
                "no credential configured for STT provider "@ + provider_name(kind) + ": "@
                + source@,
            SttProviderFactoryError::InvalidCredential { kind, source } =>
                "stored credential for STT provider "@ + provider_name(kind) + " is not valid: "@
                + source@,
        }
    }

    /// What the error reads as.
    pub fn message(&self) -> (message: String)
        ensures
            message@ == self.text(),
    {
        match self {
            SttProviderFactoryError::CredentialMissing { kind, source } => {
                String::from_str("no credential configured for STT provider ").concat(
                    provider_name_text(*kind),
                ).concat(": ").concat(source.as_str())
            },
            SttProviderFactoryError::InvalidCredential { kind, source } => {
                String::from_str("stored credential for STT provider ").concat(
                    provider_name_text(*kind),
                ).concat(" is not valid: ").concat(source.as_str())
            },
        }
    }
}

/// Whether a provider's credential is a document that has to be read first, and not a
/// bare key.
pub open spec fn needs_document(kind: SttProviderKind) -> bool {
    kind == SttProviderKind::Google
}

/// Decides which credential a provider is built with. `loaded` is what the credential
/// store gave; `unreadable` is what reading it as a document came to, where that failed.
/// Only a provider whose credential is a document looks at the latter.
pub fn build_stt_provider(
    kind: SttProviderKind,
    loaded: Result<String, String>,
    unreadable: Option<String>,
) -> (credential: Result<String, SttProviderFactoryError>)
    ensures
        credential == match loaded {
            Err(source) => Err::<String, SttProviderFactoryError>(
                SttProviderFactoryError::CredentialMissing { kind, source },
            ),
            Ok(secret) => match unreadable {
                Some(source) => if needs_document(kind) {
                    Err(SttProviderFactoryError::InvalidCredential { kind, source })
                } else {
                    Ok(secret)
                },
                None => Ok(secret),
            },
        },
{
    let secret: String = match loaded {
        Ok(secret) => secret,
        Err(source) => {
            return Err(SttProviderFactoryError::CredentialMissing { kind, source });
        },
    };
    match (kind, unreadable) {
        (SttProviderKind::Google, Some(source)) => Err(
            SttProviderFactoryError::InvalidCredential { kind, source },
        ),
        _ => Ok(secret),
    }
}

/// The status of both tracks before any session is opened. Without a credential store or
/// a provider there is nothing to connect to, and the audio is only drained.
pub fn status_before_connecting(
    has_credential_store: bool,
    has_provider: bool,
) -> (status: TranscriptionStatus)
    ensures
        status == both(
            if has_credential_store && has_provider {
                TrackTranscriptionStatus::Connecting
            } else {
                TrackTranscriptionStatus::NotConfigured
            },
        ),
{
    let mut status = TranscriptionStatus::default();
    if has_credential_store && has_provider {
        set_both_status(&mut status, TrackTranscriptionStatus::Connecting);
    }
    status
}

/// The status of a track is what was last reported of that track, whatever was reported of
/// the other.
pub proof fn law_a_status_is_of_its_track(
    status: TranscriptionStatus,
    first: TrackTranscriptionStatus,
    second: TrackTranscriptionStatus,
)
    ensures
        with_status(with_status(status, TrackKind::SelfMic, first), TrackKind::RemoteAudio, second)
            == (TranscriptionStatus { self_status: first, remote_status: second }),
        with_status(with_status(status, TrackKind::RemoteAudio, second), TrackKind::SelfMic, first)
            == (TranscriptionStatus { self_status: first, remote_status: second }),
        with_status(status, TrackKind::SelfMic, first).remote_status == status.remote_status,
        with_status(status, TrackKind::RemoteAudio, second).self_status == status.self_status,
        both(first).self_status == first && both(first).remote_status == first,
{
}

/// A track is shown as connected exactly where it has a session, and otherwise with the
/// error that it met.
pub proof fn law_a_status_tells_how_the_start_came_out(outcome: StartOutcome, error: String)
    ensures
        started_status(outcome) is Connected <==> outcome is Connected,
        started_status(StartOutcome::Failed { error }) == TrackTranscriptionStatus::Error(error),
        started_status(StartOutcome::TimedOut { error }) == TrackTranscriptionStatus::Error(
            error,
        ),
{
}

/// A stored selection is honoured, whichever provider it names, and where none is stored,
/// or none is named, the default is taken.
pub proof fn law_a_selection_is_honoured(kind: SttProviderKind, value: Seq<char>)
    requires
        forall|other: SttProviderKind|
            value != #[trigger] crate::stt_provider_kind::account_value(other),
    ensures
        selected(Some(crate::stt_provider_kind::account_value(kind))) == kind,
        selected(None) == SttProviderKind::Deepgram,
        selected(Some(value)) == SttProviderKind::Deepgram,
{
    crate::stt_provider_kind::law_stored_selection_is_read_back(kind);
    assert(value != crate::stt_provider_kind::account_value(SttProviderKind::Deepgram));
    assert(value != crate::stt_provider_kind::account_value(SttProviderKind::OpenAi));
    assert(value != crate::stt_provider_kind::account_value(SttProviderKind::Google));
    assert(value != crate::stt_provider_kind::account_value(SttProviderKind::AssemblyAi));
}

/// A session is opened at the rate of the capture, but for the providers that have a rate
/// of their own, and for those the rate of the capture does not matter.
pub proof fn law_a_provider_gets_its_rate(kind: SttProviderKind, one_hz: u32, other_hz: u32)
    requires
        one_hz != other_hz,
    ensures
        kind == SttProviderKind::Deepgram || kind == SttProviderKind::Google <==> target_rate(
            kind,
            one_hz,
        ) != target_rate(kind, other_hz),
        kind == SttProviderKind::Deepgram || kind == SttProviderKind::Google ==> target_rate(
            kind,
            one_hz,
        ) == one_hz,
        target_rate(SttProviderKind::OpenAi, one_hz) == 24_000,
        target_rate(SttProviderKind::AssemblyAi, one_hz) == 16_000,
{
}

/// A speaker is told from the others of a track by a number, which counts from one.
pub proof fn law_speakers_are_numbered_from_one(track: Option<TrackKind>, speaker: u32, other: u32)
    ensures
        ({
            let name = label(track, None) + " (話者"@;
            let shown = label(track, Some(speaker));
            &&& shown.len() > name.len()
            &&& shown.take(name.len() as int) == name
            &&& shown.skip(shown.len() - ")"@.len()) == ")"@
            &&& crate::text::value_of(
                shown.subrange(name.len() as int, shown.len() - ")"@.len()),
            ) == speaker + 1
        }),
        label(track, Some(speaker)) == label(track, Some(other)) ==> speaker == other,
{
    let name = label(track, None) + " (話者"@;
    let digits = crate::text::decimal((speaker + 1) as nat);
    let others = crate::text::decimal((other + 1) as nat);
    crate::text::law_numbers_read_as_written((speaker + 1) as nat);
    crate::text::law_numbers_read_as_written((other + 1) as nat);
    let shown = label(track, Some(speaker));
    assert(shown.take(name.len() as int) =~= name);
    assert(shown.skip(shown.len() - ")"@.len()) =~= ")"@);
    assert(shown.subrange(name.len() as int, shown.len() - ")"@.len()) =~= digits);
    let second = label(track, Some(other));
    assert(second.subrange(name.len() as int, second.len() - ")"@.len()) =~= others);
}

/// Of all providers, only one has a document for a credential.
pub proof fn law_only_one_credential_is_a_document(kind: SttProviderKind)
    ensures
        needs_document(SttProviderKind::Google),
        needs_document(kind) ==> kind is Google,
{
}

} // verus!
