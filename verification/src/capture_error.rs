//! What can go wrong while capturing.

use vstd::prelude::*;

verus! {

/// The two separate permissions that capturing needs.
#[derive(Debug, Clone, Copy, PartialEq, Eq, Structural)]
pub enum TccService {
    ScreenAndSystemAudioRecording,
    Microphone,
}

/// The name of a permission, as the system shows it.
pub open spec fn service_text(service: TccService) -> Seq<char> {
    match service {
        TccService::ScreenAndSystemAudioRecording => "Screen & System Audio Recording"@,
        TccService::Microphone => "Microphone"@,
    }
}

impl TccService {
    /// The name of the permission, as the system shows it.
    pub fn label(self) -> (label: &'static str)
        ensures
            label@ == service_text(self),
    {
        match self {
            TccService::ScreenAndSystemAudioRecording => "Screen & System Audio Recording",
            TccService::Microphone => "Microphone",
        }
    }
}

#[derive(Debug, Clone, PartialEq, Eq)]
pub enum CaptureError {
    ScreenCaptureKit(String),
    CoreAudio(String),
    DeviceNotFound(String),
    UnsupportedFormat(String),
    /// A denied permission is an expected failure, and not a transient one: callers can
    /// ask the user to grant it.
    PermissionDenied { service: TccService },
    /// An I/O error, by its text.
    Io(String),
}

/// The text of an error.
pub open spec fn error_text(error: CaptureError) -> Seq<char> {
    match error {
        CaptureError::ScreenCaptureKit(detail) => "ScreenCaptureKit call failed: "@ + detail@,
        CaptureError::CoreAudio(detail) => "CoreAudio call failed: "@ + detail@,
        CaptureError::DeviceNotFound(detail) => "target device or application not found: "@
            + detail@,
        CaptureError::UnsupportedFormat(detail) => "unsupported audio format: "@ + detail@,
        CaptureError::PermissionDenied { service } => "permission denied: "@ + service_text(
            service,
        ),
        CaptureError::Io(detail) => detail@,
    }
}

impl CaptureError {
    /// The error as text.
    pub fn message(&self) -> (text: String)
        ensures
            text@ == error_text(*self),
    {
        match self {
            CaptureError::ScreenCaptureKit(detail) => String::from_str(
                "ScreenCaptureKit call failed: ",
            ).concat(detail.as_str()),
            CaptureError::CoreAudio(detail) => String::from_str("CoreAudio call failed: ").concat(
                detail.as_str(),
            ),
            CaptureError::DeviceNotFound(detail) => String::from_str(
                "target device or application not found: ",
            ).concat(detail.as_str()),
            CaptureError::UnsupportedFormat(detail) => String::from_str(
                "unsupported audio format: ",
            ).concat(detail.as_str()),
            CaptureError::PermissionDenied { service } => String::from_str(
                "permission denied: ",
            ).concat(service.label()),
            CaptureError::Io(detail) => detail.clone(),
        }
    }
}

/// The detail recorded for a failed system call.
pub open spec fn status_text(status: i32, context: Seq<char>) -> Seq<char> {
    context + " failed with OSStatus "@ + crate::text::signed_decimal(status as int)
}

/// Turns the status of a system call (zero for success) into a result.
pub fn check_status(status: i32, context: &str) -> (result: Result<(), CaptureError>)
    ensures
        result is Ok <==> status == 0,
        result matches Err(error) ==> {
            &&& error matches CaptureError::CoreAudio(detail)
            &&& detail@ == status_text(status, context@)
        },
{
    if status != 0 {
        let number: String = crate::text::signed_decimal_text(status as i64);
        let detail: String = String::from_str(context).concat(" failed with OSStatus ").concat(
            number.as_str(),
        );
        assert(detail@ =~= status_text(status, context@));
        return Err(CaptureError::CoreAudio(detail));
    }
    Ok(())
}

} // verus!
