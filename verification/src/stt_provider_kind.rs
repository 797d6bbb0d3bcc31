//! The user's selected live-transcription provider, and where the selection is kept.

use vstd::prelude::*;

verus! {

/// Service name under which the provider selection (see
/// [`SELECTED_STT_PROVIDER_ACCOUNT`]) is stored.
pub const CREDENTIAL_SERVICE: &'static str = "1on1-recorder";

/// Account name under which the selected [`SttProviderKind`] is stored.
pub const SELECTED_STT_PROVIDER_ACCOUNT: &'static str = "stt-selected-provider";

/// Which transcription adapter a live session uses.
#[derive(Debug, Clone, Copy, PartialEq, Eq, Structural)]
pub enum SttProviderKind {
    Deepgram,
    OpenAi,
    Google,
    AssemblyAi,
}

/// The text that a selection is stored as.
pub open spec fn account_value(kind: SttProviderKind) -> Seq<char> {
    match kind {
        SttProviderKind::Deepgram => "deepgram"@,
        SttProviderKind::OpenAi => "openai"@,
        SttProviderKind::Google => "google"@,
        SttProviderKind::AssemblyAi => "assemblyai"@,
    }
}

/// The selection that a stored text stands for.
pub open spec fn stored_kind(value: Seq<char>) -> Option<SttProviderKind> {
    if value == account_value(SttProviderKind::Deepgram) {
        Some(SttProviderKind::Deepgram)
    } else if value == account_value(SttProviderKind::OpenAi) {
        Some(SttProviderKind::OpenAi)
    } else if value == account_value(SttProviderKind::Google) {
        Some(SttProviderKind::Google)
    } else if value == account_value(SttProviderKind::AssemblyAi) {
        Some(SttProviderKind::AssemblyAi)
    } else {
        None
    }
}

impl SttProviderKind {
    /// Parses the text stored under [`SELECTED_STT_PROVIDER_ACCOUNT`]. `None` for
    /// anything unrecognized; callers then fall back to the default, as when no
    /// selection was made yet.
    pub fn from_account_value(value: &str) -> (kind: Option<Self>)
        ensures
            kind == stored_kind(value@),
    {
        if crate::text::same_text(value, "deepgram") {
            Some(SttProviderKind::Deepgram)
        } else if crate::text::same_text(value, "openai") {
            Some(SttProviderKind::OpenAi)
        } else if crate::text::same_text(value, "google") {
            Some(SttProviderKind::Google)
        } else if crate::text::same_text(value, "assemblyai") {
            Some(SttProviderKind::AssemblyAi)
        } else {
            None
        }
    }

    pub fn as_account_value(self) -> (value: &'static str)
        ensures
            value@ == account_value(self),
    {
        match self {
            SttProviderKind::Deepgram => "deepgram",
            SttProviderKind::OpenAi => "openai",
            SttProviderKind::Google => "google",
            SttProviderKind::AssemblyAi => "assemblyai",
        }
    }
}

impl Default for SttProviderKind {
    fn default() -> (kind: Self)
        ensures
            kind == SttProviderKind::Deepgram,
    {
        SttProviderKind::Deepgram
    }
}

/// What was stored for a selection is read back as that selection.
pub proof fn law_stored_selection_is_read_back(kind: SttProviderKind)
    ensures
        stored_kind(account_value(kind)) == Some(kind),
{
    reveal_strlit("deepgram");
    reveal_strlit("openai");
    reveal_strlit("google");
    reveal_strlit("assemblyai");
    assert(account_value(SttProviderKind::OpenAi)[0] == 'o');
    assert(account_value(SttProviderKind::Google)[0] == 'g');
    assert(account_value(SttProviderKind::AssemblyAi)[0] == 'a');
    assert(account_value(SttProviderKind::Deepgram)[0] == 'd');
}

} // verus!
