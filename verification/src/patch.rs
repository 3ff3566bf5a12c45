//! The patch format: what a proposed repair says, as typed values.

use vstd::prelude::*;

verus! {

/// What a change does to the line it names.
#[derive(Clone, Copy, Debug, PartialEq, Eq, Structural)]
pub enum Action {
    /// Insert a new line at the position, moving the later lines down by one.
    Add,
    /// Replace the line's text.
    Edit,
    /// Blank the line: its text becomes empty and the line stays in place.
    Remove,
}

/// One change to one line of a file.
#[derive(Debug)]
pub struct LineChange {
    pub action: Action,
    /// Index of the line, counted from zero.
    pub line_number: u64,
    /// The text that `Add` inserts and `Edit` writes; `Remove` does not read it.
    pub new_line: String,
}

/// A `LineChange` as a mathematical value.
pub struct LineChangeView {
    pub action: Action,
    pub line_number: nat,
    pub new_line: Seq<char>,
}

impl View for LineChange {
    type V = LineChangeView;

    open spec fn view(&self) -> LineChangeView {
        LineChangeView {
            action: self.action,
            line_number: self.line_number as nat,
            new_line: self.new_line@,
        }
    }
}

impl DeepView for LineChange {
    type V = LineChangeView;

    open spec fn deep_view(&self) -> LineChangeView {
        self@
    }
}

/// The changes proposed for one file.
#[derive(Debug)]
pub struct FileChange {
    pub file_name: String,
    pub changes: Vec<LineChange>,
}

/// A `FileChange` as a mathematical value.
pub struct FileChangeView {
    pub file_name: Seq<char>,
    pub changes: Seq<LineChangeView>,
}

impl View for FileChange {
    type V = FileChangeView;

    open spec fn view(&self) -> FileChangeView {
        FileChangeView { file_name: self.file_name@, changes: self.changes.deep_view() }
    }
}

impl DeepView for FileChange {
    type V = FileChangeView;

    open spec fn deep_view(&self) -> FileChangeView {
        self@
    }
}

/// A proposed repair: what the program should do, what went wrong, and the
/// changes file by file.
#[derive(Debug)]
pub struct PatchSet {
    pub intent: String,
    pub explanation: String,
    pub files: Vec<FileChange>,
}

/// A `PatchSet` as a mathematical value.
pub struct PatchSetView {
    pub intent: Seq<char>,
    pub explanation: Seq<char>,
    pub files: Seq<FileChangeView>,
}

impl View for PatchSet {
    type V = PatchSetView;

    open spec fn view(&self) -> PatchSetView {
        PatchSetView {
            intent: self.intent@,
            explanation: self.explanation@,
            files: self.files.deep_view(),
        }
    }
}

impl LineChange {
    /// Builds a change from its three parts.
    pub fn new(action: Action, line_number: u64, new_line: String) -> (change: LineChange)
        ensures
            change@ == (LineChangeView {
                action,
                line_number: line_number as nat,
                new_line: new_line@,
            }),
    {
        LineChange { action, line_number, new_line }
    }
}

impl FileChange {
    /// Builds the changes for the file called `file_name`.
    pub fn new(file_name: String, changes: Vec<LineChange>) -> (change: FileChange)
        ensures
            change@ == (FileChangeView {
                file_name: file_name@,
                changes: changes.deep_view(),
            }),
    {
        FileChange { file_name, changes }
    }
}

impl PatchSet {
    /// Gives up the patch for the file change that a repair iteration
    /// consumes: the first one. Any further entries are dropped.
    pub fn into_first_file(self) -> (first: Option<FileChange>)
        ensures
            match first {
                Some(file) => self@.files.len() > 0 && file@ == self@.files[0],
                None => self@.files.len() == 0,
            },
    {
        let PatchSet { intent: _, explanation: _, files } = self;
        let mut files = files;
        if files.len() == 0 {
            None
        } else {
            Some(files.swap_remove(0))
        }
    }

    /// The file change that a repair iteration consumes: the first one. Any
    /// further entries are ignored.
    pub fn first_file(&self) -> (first: Option<&FileChange>)
        ensures
            match first {
                Some(file) => self@.files.len() > 0 && file@ == self@.files[0],
                None => self@.files.len() == 0,
            },
    {
        if self.files.len() == 0 {
            None
        } else {
            Some(&self.files[0])
        }
    }
}

} // verus!
