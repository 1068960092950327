use vstd::prelude::*;

verus! {

/// Every failure the patcher can report.
///
/// `NoSplitsFound` and `NoBlocksInFirstSplit` come out of the offset
/// application itself; the remaining kinds classify failures of the codec,
/// container and filesystem collaborators, which hand their outcomes to the
/// library as plain values.
#[derive(Clone, Copy, Debug, PartialEq, Eq, Structural)]
pub enum StepError {
    /// A legacy mode exposed step data without a single split.
    NoSplitsFound,
    /// The first split of a legacy mode's step data carried no blocks.
    NoBlocksInFirstSplit,
    /// A byte buffer or file could not be decoded into a step file.
    DecodeFailure,
    /// A step file could not be re-encoded into bytes.
    EncodeFailure,
    /// The container could not be opened, read or re-serialized.
    ContainerIoFailure,
    /// A loose step file could not be read or written back.
    FileIoFailure,
    /// Neither the container file nor the step directory exists.
    SourceNotFound,
}

impl StepError {
    /// A fixed human-readable description of the failure.
    pub fn message(&self) -> (m: &'static str)
        ensures
            m@ == match *self {
                StepError::NoSplitsFound => "No splits found."@,
                StepError::NoBlocksInFirstSplit => "No blocks found in the first split."@,
                StepError::DecodeFailure => "The step file could not be decoded."@,
                StepError::EncodeFailure => "The step file could not be encoded."@,
                StepError::ContainerIoFailure => "The container could not be read or written."@,
                StepError::FileIoFailure => "The file could not be read or written."@,
                StepError::SourceNotFound => "No step container or step directory found."@,
            },
    {
        match *self {
            StepError::NoSplitsFound => "No splits found.",
            StepError::NoBlocksInFirstSplit => "No blocks found in the first split.",
            StepError::DecodeFailure => "The step file could not be decoded.",
            StepError::EncodeFailure => "The step file could not be encoded.",
            StepError::ContainerIoFailure => "The container could not be read or written.",
            StepError::FileIoFailure => "The file could not be read or written.",
            StepError::SourceNotFound => "No step container or step directory found.",
        }
    }
}

} // verus!
