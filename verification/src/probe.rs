//! Running the target program is the caller's work; what a run means is
//! decided here.

use vstd::prelude::*;
use crate::error::FixError;
use crate::text::same_text;

verus! {

/// How a run of the target program ended.
#[derive(Debug)]
pub enum Outcome {
    /// The program exited with code 0; `stdout` is what it printed.
    Success { stdout: String },
    /// The program exited with another code; `stderr` is its diagnostic.
    Failure { stderr: String },
}

/// An `Outcome` as a mathematical value.
pub enum OutcomeView {
    Success { stdout: Seq<char> },
    Failure { stderr: Seq<char> },
}

impl View for Outcome {
    type V = OutcomeView;

    open spec fn view(&self) -> OutcomeView {
        match self {
            Outcome::Success { stdout } => OutcomeView::Success { stdout: stdout@ },
            Outcome::Failure { stderr } => OutcomeView::Failure { stderr: stderr@ },
        }
    }
}

/// What an exit code and the two captured streams amount to: code 0 is a
/// success that carries the standard output, every other code a failure that
/// carries the standard error.
pub open spec fn classified(exit_code: i32, stdout: Seq<char>, stderr: Seq<char>) -> OutcomeView {
    if exit_code == 0 {
        OutcomeView::Success { stdout }
    } else {
        OutcomeView::Failure { stderr }
    }
}

impl Outcome {
    /// Classifies a finished run by its exit code.
    pub fn classify(exit_code: i32, stdout: String, stderr: String) -> (outcome: Outcome)
        ensures
            outcome@ == classified(exit_code, stdout@, stderr@),
    {
        if exit_code == 0 {
            Outcome::Success { stdout }
        } else {
            Outcome::Failure { stderr }
        }
    }

    /// Whether the run succeeded.
    pub fn is_success(&self) -> (success: bool)
        ensures
            success == (self@ is Success),
    {
        match self {
            Outcome::Success { .. } => true,
            Outcome::Failure { .. } => false,
        }
    }
}

/// The file extension of Python sources.
pub const PYTHON_EXTENSION: &'static str = "py";

/// The name of the Python interpreter, and of the language in prompts.
pub const PYTHON: &'static str = "python";

/// A language whose programs the repair run knows how to start.
#[derive(Clone, Copy, Debug, PartialEq, Eq, Structural)]
pub enum Language {
    Python,
}

/// The language that a file extension (without its dot) stands for.
pub open spec fn language_of(extension: Seq<char>) -> Option<Language> {
    if extension == PYTHON_EXTENSION@ {
        Some(Language::Python)
    } else {
        None
    }
}

impl Language {
    /// Chooses the language by the target file's extension, given without
    /// its dot. An extension that names no supported language is refused
    /// before anything is run.
    pub fn from_extension(extension: &str) -> (result: Result<Language, FixError>)
        ensures
            match result {
                Ok(language) => language_of(extension@) == Some(language),
                Err(error) => language_of(extension@) is None && error
                    == FixError::UnrecognizableFileExtension,
            },
    {
        if same_text(extension, PYTHON_EXTENSION) {
            Ok(Language::Python)
        } else {
            Err(FixError::UnrecognizableFileExtension)
        }
    }

    /// The language's name as prompts write it.
    pub open spec fn name_text(self) -> Seq<char> {
        match self {
            Language::Python => PYTHON@,
        }
    }

    /// The executable that runs programs of this language. It is started
    /// with the target file's path as its only argument.
    pub fn interpreter(&self) -> (program: &'static str)
        ensures
            program@ == self.name_text(),
    {
        match self {
            Language::Python => PYTHON,
        }
    }

    /// The language's name as prompts write it.
    pub fn name(&self) -> (name: &'static str)
        ensures
            name@ == self.name_text(),
    {
        match self {
            Language::Python => PYTHON,
        }
    }
}

} // verus!
