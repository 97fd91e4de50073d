//! Errors of the capture session.
//!
//! Every failure is local and recoverable: a failed capture attempt
//! releases the debounce guard, a rejected format leaves the
//! configuration untouched, and a missed lookup reports which surface
//! had no image.

use vstd::prelude::*;

verus! {

/// A typed failure of one session operation.
#[derive(Debug)]
pub enum SessionError {
    /// The OS-level capture call failed for some monitor; the whole
    /// attempt is aborted with no partial publication.
    CaptureFailed,
    /// The codec failed while encoding a captured framebuffer.
    EncodeFailed,
    /// A capture was asked to encode into a format other than
    /// `"jpeg"` or `"png"`.
    UnsupportedFormat,
    /// A request to change the sticky format named an unsupported
    /// value; the setting is left unchanged.
    InvalidFormat,
    /// No image is published for the named overlay surface.
    NotFound { window: String },
}

impl SessionError {
    /// A human-readable description of the failure.
    pub fn message(&self) -> (r: String)
        ensures
            self is CaptureFailed ==> r@ == "Failed to capture screen"@,
            self is EncodeFailed ==> r@ == "Failed to encode screenshot"@,
            self is UnsupportedFormat ==> r@ == "Unsupported screenshot format"@,
            self is InvalidFormat ==> r@ == "Unsupported screenshot format"@,
            self matches SessionError::NotFound { window } ==> r@ == "No screenshot found for window: "@
                + window@,
    {
        match self {
            SessionError::CaptureFailed => "Failed to capture screen".to_owned(),
            SessionError::EncodeFailed => "Failed to encode screenshot".to_owned(),
            SessionError::UnsupportedFormat => "Unsupported screenshot format".to_owned(),
            SessionError::InvalidFormat => "Unsupported screenshot format".to_owned(),
            SessionError::NotFound { window } => {
                let mut m = "No screenshot found for window: ".to_owned();
                m.append(window.as_str());
                m
            },
        }
    }
}

} // verus!
