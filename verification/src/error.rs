//! The kinds of failure a repair run can meet.

use vstd::prelude::*;

verus! {

/// What can go wrong during a repair run.
#[derive(Clone, Copy, Debug, PartialEq, Eq, Structural)]
pub enum FixError {
    /// The target file's extension names no supported language.
    UnrecognizableFileExtension,
    /// The target program ran and failed.
    ExecutionFailure,
    /// The language-model service could not be reached or refused the call.
    ServiceFailure,
    /// The model's reply was not a patch in the agreed format.
    PatchParseFailure,
    /// A patch named a line that the file does not have.
    PatchApplyFailure,
}

impl FixError {
    /// The text shown for this error: the variant's name.
    pub open spec fn name(self) -> Seq<char> {
        match self {
            FixError::UnrecognizableFileExtension => "UnrecognizableFileExtension"@,
            FixError::ExecutionFailure => "ExecutionFailure"@,
            FixError::ServiceFailure => "ServiceFailure"@,
            FixError::PatchParseFailure => "PatchParseFailure"@,
            FixError::PatchApplyFailure => "PatchApplyFailure"@,
        }
    }

    /// Renders the error as text.
    pub fn to_string(&self) -> (text: String)
        ensures
            text@ == self.name(),
    {
        match self {
            FixError::UnrecognizableFileExtension => "UnrecognizableFileExtension".to_owned(),
            FixError::ExecutionFailure => "ExecutionFailure".to_owned(),
            FixError::ServiceFailure => "ServiceFailure".to_owned(),
            FixError::PatchParseFailure => "PatchParseFailure".to_owned(),
            FixError::PatchApplyFailure => "PatchApplyFailure".to_owned(),
        }
    }
}

} // verus!
