//! The errors that abort an engine operation.
use vstd::prelude::*;

verus! {

/// A failure that aborts the whole operation.
#[derive(Debug, Clone, Copy, PartialEq, Eq, Structural)]
pub enum EngineError {
    /// The image could not be turned into a pixel raster of the expected shape.
    DecodeError,
    /// The style identifier names no registered style.
    UnknownStyle,
    /// A tensor's length disagrees with the style's declared dimensions.
    ShapeMismatch,
    /// The model bytes for a style could not be fetched.
    AcquisitionError,
}

/// The human-readable description of an error.
pub open spec fn error_message(e: EngineError) -> Seq<char> {
    match e {
        EngineError::DecodeError => "image could not be decoded"@,
        EngineError::UnknownStyle => "Model not found"@,
        EngineError::ShapeMismatch => "tensor length does not match the style"@,
        EngineError::AcquisitionError => "Failed to fetch model"@,
    }
}

impl EngineError {
    /// A short human-readable description of the error.
    pub fn message(&self) -> (r: String)
        ensures
            r@ == error_message(*self),
    {
        match self {
            EngineError::DecodeError => "image could not be decoded".to_owned(),
            EngineError::UnknownStyle => "Model not found".to_owned(),
            EngineError::ShapeMismatch => "tensor length does not match the style".to_owned(),
            EngineError::AcquisitionError => "Failed to fetch model".to_owned(),
        }
    }
}

} // verus!
