//! The failures a composite operation can surface. All of them are
//! recoverable at the request boundary; none aborts the process.

use vstd::prelude::*;

verus! {

/// Why a composite operation failed.
#[derive(Clone, Copy, Debug, PartialEq, Eq, Structural)]
pub enum EngineError {
    /// The selection resolved to zero frames, or a selected frame file is
    /// absent.
    NotFound,
    /// A frame file exists but could not be parsed as an image.
    DecodeError,
    /// After loading, no usable frames remain.
    EmptyFrameSet,
    /// A loaded frame's dimensions differ from the first frame's.
    DimensionMismatch,
    /// The frame weights sum to zero (Weighted-Brightness only).
    InvalidWeights,
    /// The output image could not be encoded or written.
    IoError,
}

impl EngineError {
    /// A human-readable description of the failure.
    pub fn message(&self) -> (m: &'static str)
        ensures
            *self is NotFound ==> m@ == "no frames were found for the selection"@,
            *self is DecodeError ==> m@ == "a selected frame could not be decoded as an image"@,
            *self is EmptyFrameSet ==> m@ == "no images were chosen"@,
            *self is DimensionMismatch ==> m@ == "the selected frames differ in size"@,
            *self is InvalidWeights ==> m@ == "total frame weight cannot be zero"@,
            *self is IoError ==> m@ == "the composite image could not be written"@,
    {
        match self {
            EngineError::NotFound => "no frames were found for the selection",
            EngineError::DecodeError => "a selected frame could not be decoded as an image",
            EngineError::EmptyFrameSet => "no images were chosen",
            EngineError::DimensionMismatch => "the selected frames differ in size",
            EngineError::InvalidWeights => "total frame weight cannot be zero",
            EngineError::IoError => "the composite image could not be written",
        }
    }
}

} // verus!
