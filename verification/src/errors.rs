use vstd::prelude::*;
use vstd::string::*;

verus! {

/// The failure taxonomy of the pipeline. Every per-request failure is one of
/// these; it aborts only the request that raised it.
#[derive(Debug)]
pub enum AppError {
    /// Frame acquisition failed.
    CaptureFailed(String),
    /// The inference runtime failed.
    DetectionFailed(String),
    /// A frame buffer does not match its declared dimensions.
    InvalidImage(String),
    /// Unclassified failure.
    Internal(String),
}

impl AppError {
    /// The human-readable message of this error, as it appears in a failure
    /// response body.
    pub open spec fn spec_message(&self) -> Seq<char> {
        match self {
            AppError::CaptureFailed(m) => "Webcam capture failed: "@ + m@,
            AppError::DetectionFailed(m) => "Detection failed: "@ + m@,
            AppError::InvalidImage(m) => "Invalid image input: "@ + m@,
            AppError::Internal(m) => "Internal error: "@ + m@,
        }
    }

    pub fn message(&self) -> (r: String)
        ensures
            r@ == self.spec_message(),
    {
        match self {
            AppError::CaptureFailed(m) => String::from_str("Webcam capture failed: ").concat(m.as_str()),
            AppError::DetectionFailed(m) => String::from_str("Detection failed: ").concat(m.as_str()),
            AppError::InvalidImage(m) => String::from_str("Invalid image input: ").concat(m.as_str()),
            AppError::Internal(m) => String::from_str("Internal error: ").concat(m.as_str()),
        }
    }
}

} // verus!
