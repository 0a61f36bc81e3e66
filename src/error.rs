use vstd::prelude::*;

verus! {

/// Failures of the submission pipeline that the library itself detects.
#[derive(Clone, Copy, Debug, PartialEq, Eq)]
pub enum SubmitError {
    /// The commit count printed by the version-control tool is not a number.
    MalformedCountOutput,
    /// No generated file is named like the first patch of a series.
    FirstPatchNotFound,
    /// The generated series lacks the file with this sequence number.
    MissingPatchFile { sequence: usize },
}

} // verus!
