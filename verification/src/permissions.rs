//! Permission handling. Screen and system-audio recording can be looked up beforehand;
//! a missing microphone permission only shows when a stream is started.

use crate::capture_error::{CaptureError, TccService};
use vstd::prelude::*;

verus! {

#[derive(Debug, Clone, Copy, PartialEq, Eq, Structural)]
pub enum PermissionStatus {
    Granted,
    Denied,
    /// The user has not been asked yet: the first capture attempt asks.
    NotDetermined,
}

/// The status of the screen-recording permission, given whether the shareable content
/// could be looked up. Any failure counts as a denial: that leads to a prompt, where the
/// opposite would go on silently.
pub fn screen_recording_status(content_available: bool) -> (status: PermissionStatus)
    ensures
        status == if content_available {
            PermissionStatus::Granted
        } else {
            PermissionStatus::Denied
        },
{
    if content_available {
        PermissionStatus::Granted
    } else {
        PermissionStatus::Denied
    }
}

/// The text in lower case, as `str::to_lowercase` gives it.
pub uninterp spec fn lowercase_of(text: Seq<char>) -> Seq<char>;

/// Calls `str::to_lowercase`. Claims that the result depends on the text alone; what
/// the lower case of a text is, is left to the standard library.
#[verifier::external_body]
fn lowercase(text: &str) -> (lower: String)
    ensures
        lower@ == lowercase_of(text@),
{
    text.to_lowercase()
}

/// Whether a start failure, given in lower case, reads like a permission problem.
pub open spec fn reads_like_denial(lowered: Seq<char>) -> bool {
    crate::text::contains_text(lowered, "permission"@) || crate::text::contains_text(
        lowered,
        "denied"@,
    )
}

/// Classifies a start failure by its text and by the same text in lower case.
pub fn classify_lowered(service: TccService, message: String, lowered: &str) -> (error:
    CaptureError)
    ensures
        reads_like_denial(lowered@) ==> error == (CaptureError::PermissionDenied { service }),
        !reads_like_denial(lowered@) ==> error == CaptureError::ScreenCaptureKit(message),
{
    if crate::text::contains_substring(lowered, "permission")
        || crate::text::contains_substring(lowered, "denied") {
        CaptureError::PermissionDenied { service }
    } else {
        CaptureError::ScreenCaptureKit(message)
    }
}

/// Turns a failure to start a stream into a denied permission when it reads like one,
/// and passes it on otherwise.
pub fn classify_stream_start_error(service: TccService, raw_error: String) -> (error: CaptureError)
    ensures
        reads_like_denial(lowercase_of(raw_error@)) ==> error == (CaptureError::PermissionDenied {
            service,
        }),
        !reads_like_denial(lowercase_of(raw_error@)) ==> error == CaptureError::ScreenCaptureKit(
            raw_error,
        ),
{
    let lowered: String = lowercase(raw_error.as_str());
    classify_lowered(service, raw_error, lowered.as_str())
}

/// A failure reads like a denied permission exactly if one of the two words stands
/// somewhere in its text.
pub proof fn law_denials_are_told_by_their_words(before: Seq<char>, after: Seq<char>, text: Seq<char>)
    ensures
        reads_like_denial(before + "permission"@ + after),
        reads_like_denial(before + "denied"@ + after),
        reads_like_denial(text) ==> exists|at: int|
            0 <= at <= text.len() && (text == #[trigger] text.take(at) + "permission"@ + text.skip(
                at + "permission"@.len(),
            ) || text == text.take(at) + "denied"@ + text.skip(at + "denied"@.len())),
{
    crate::text::law_a_text_is_found_where_it_stands(before, "permission"@, after, text);
    crate::text::law_a_text_is_found_where_it_stands(before, "denied"@, after, text);
}

} // verus!
