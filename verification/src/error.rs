//! What can go wrong while a recording is processed.

use vstd::prelude::*;

verus! {

/// An error of one of the parts, with what that part says of it.
#[derive(Debug, PartialEq, Eq)]
pub enum AppServiceError {
    SegmentStore(String),
    SessionStore(String),
    Upload(String),
    Capture(String),
}

impl AppServiceError {
    /// What the error reads as.
    pub open spec fn text(self) -> Seq<char> {
        match self {
            AppServiceError::SegmentStore(source) => "segment-store error: "@ + source@,
            AppServiceError::SessionStore(source) => "session-store error: "@ + source@,
            AppServiceError::Upload(source) => "upload error: "@ + source@,
            AppServiceError::Capture(source) => "capture error: "@ + source@,
        }
    }

    /// What the error reads as.
    pub fn message(&self) -> (message: String)
        ensures
            message@ == self.text(),
    {
        match self {
            AppServiceError::SegmentStore(source) => {
                String::from_str("segment-store error: ").concat(source.as_str())
            },
            AppServiceError::SessionStore(source) => {
                String::from_str("session-store error: ").concat(source.as_str())
            },
            AppServiceError::Upload(source) => {
                String::from_str("upload error: ").concat(source.as_str())
            },
            AppServiceError::Capture(source) => {
                String::from_str("capture error: ").concat(source.as_str())
            },
        }
    }
}

} // verus!
