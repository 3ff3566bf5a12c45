//! Reading a patch out of the model's reply.
//!
//! The reply must be one JSON object of this shape, and nothing else:
//!
//! ```text
//! { "intent": "...", "explanation": "...",
//!   "files": [ { "file_name": "...",
//!                "changes": [ { "action": "edit" | "add" | "remove",
//!                               "line_number": 0, "new_line": "..." } ] } ] }
//! ```
//!
//! Members that the shape does not name are passed over.

use vstd::prelude::*;
use crate::json::{
    items_of, json_document, json_tree, json_trees, member, member_of, read_document, text_of,
    unsigned_of, JsonTree,
};
use crate::patch::{
    Action, FileChange, FileChangeView, LineChange, LineChangeView, PatchSet, PatchSetView,
};
use crate::text::same_text;

verus! {

/// Why a reply is not a patch.
#[derive(Clone, Copy, Debug, PartialEq, Eq, Structural)]
pub enum ParseError {
    /// The reply is not a JSON document.
    NotJson,
    /// A member that the format asks for is missing or of the wrong kind.
    BadShape,
    /// A change names an action other than `edit`, `add` and `remove`.
    UnknownAction,
}

/// The action that a name of the wire format stands for.
pub open spec fn action_of(name: Seq<char>) -> Option<Action> {
    if name == "edit"@ {
        Some(Action::Edit)
    } else if name == "add"@ {
        Some(Action::Add)
    } else if name == "remove"@ {
        Some(Action::Remove)
    } else {
        None
    }
}

/// The change made of the three members of one entry of `changes`.
pub open spec fn change_of_parts(name: Seq<char>, line_number: u64, new_line: Seq<char>) -> Result<
    LineChangeView,
    ParseError,
> {
    match action_of(name) {
        Some(action) => Ok(
            LineChangeView { action, line_number: line_number as nat, new_line },
        ),
        None => Err(ParseError::UnknownAction),
    }
}

/// The text stored under `key`, if `value` is an object with a string there.
pub open spec fn text_under(value: JsonTree, key: Seq<char>) -> Option<Seq<char>> {
    match member_of(value, key) {
        Some(inner) => text_of(inner),
        None => None,
    }
}

/// The number stored under `key`, if `value` is an object with an integer
/// from 0 to `u64::MAX` there.
pub open spec fn number_under(value: JsonTree, key: Seq<char>) -> Option<u64> {
    match member_of(value, key) {
        Some(inner) => unsigned_of(inner),
        None => None,
    }
}

/// The elements stored under `key`, if `value` is an object with an array
/// there.
pub open spec fn items_under(value: JsonTree, key: Seq<char>) -> Option<Seq<JsonTree>> {
    match member_of(value, key) {
        Some(inner) => items_of(inner),
        None => None,
    }
}

/// The change that one entry of `changes` states. All three members must be
/// there and of the right kind before the action's name is looked at.
pub open spec fn change_of(value: JsonTree) -> Result<LineChangeView, ParseError> {
    match (
        text_under(value, "action"@),
        number_under(value, "line_number"@),
        text_under(value, "new_line"@),
    ) {
        (Some(name), Some(line_number), Some(new_line)) => change_of_parts(
            name,
            line_number,
            new_line,
        ),
        _ => Err(ParseError::BadShape),
    }
}

/// The changes that the entries state, in their order; the error of the
/// first entry that states none.
pub open spec fn changes_of(items: Seq<JsonTree>) -> Result<Seq<LineChangeView>, ParseError>
    decreases items.len(),
{
    if items.len() == 0 {
        Ok(Seq::empty())
    } else {
        match changes_of(items.drop_last()) {
            Err(error) => Err(error),
            Ok(front) => match change_of(items.last()) {
                Err(error) => Err(error),
                Ok(change) => Ok(front.push(change)),
            },
        }
    }
}

/// The file change that one entry of `files` states.
pub open spec fn file_of(value: JsonTree) -> Result<FileChangeView, ParseError> {
    match (text_under(value, "file_name"@), items_under(value, "changes"@)) {
        (Some(file_name), Some(items)) => match changes_of(items) {
            Ok(changes) => Ok(FileChangeView { file_name, changes }),
            Err(error) => Err(error),
        },
        _ => Err(ParseError::BadShape),
    }
}

/// The file changes that the entries state, in their order; the error of the
/// first entry that states none.
pub open spec fn files_of(items: Seq<JsonTree>) -> Result<Seq<FileChangeView>, ParseError>
    decreases items.len(),
{
    if items.len() == 0 {
        Ok(Seq::empty())
    } else {
        match files_of(items.drop_last()) {
            Err(error) => Err(error),
            Ok(front) => match file_of(items.last()) {
                Err(error) => Err(error),
                Ok(file) => Ok(front.push(file)),
            },
        }
    }
}

/// The patch that a document states.
pub open spec fn patch_of(value: JsonTree) -> Result<PatchSetView, ParseError> {
    match (
        text_under(value, "intent"@),
        text_under(value, "explanation"@),
        items_under(value, "files"@),
    ) {
        (Some(intent), Some(explanation), Some(items)) => match files_of(items) {
            Ok(files) => Ok(PatchSetView { intent, explanation, files }),
            Err(error) => Err(error),
        },
        _ => Err(ParseError::BadShape),
    }
}

/// The patch that a reply states: the reply read as JSON, and the document
/// read as a patch.
pub open spec fn patch_of_text(text: Seq<char>) -> Result<PatchSetView, ParseError> {
    match json_document(text) {
        Some(value) => patch_of(value),
        None => Err(ParseError::NotJson),
    }
}

/// Once an entry has failed, more entries behind it change nothing.
pub proof fn lemma_changes_error_stays(items: Seq<JsonTree>, upto: int)
    requires
        0 <= upto <= items.len(),
        changes_of(items.take(upto)) is Err,
    ensures
        changes_of(items) == changes_of(items.take(upto)),
    decreases items.len(),
{
    if upto < items.len() {
        assert(items.drop_last().take(upto) =~= items.take(upto));
        lemma_changes_error_stays(items.drop_last(), upto);
    } else {
        assert(items.take(upto) =~= items);
    }
}

/// Once an entry has failed, more entries behind it change nothing.
pub proof fn lemma_files_error_stays(items: Seq<JsonTree>, upto: int)
    requires
        0 <= upto <= items.len(),
        files_of(items.take(upto)) is Err,
    ensures
        files_of(items) == files_of(items.take(upto)),
    decreases items.len(),
{
    if upto < items.len() {
        assert(items.drop_last().take(upto) =~= items.take(upto));
        lemma_files_error_stays(items.drop_last(), upto);
    } else {
        assert(items.take(upto) =~= items);
    }
}

/// The three names of the format stand for the three actions.
pub proof fn lemma_action_names()
    ensures
        action_of("edit"@) == Some(Action::Edit),
        action_of("add"@) == Some(Action::Add),
        action_of("remove"@) == Some(Action::Remove),
{
    reveal_strlit("edit");
    reveal_strlit("add");
    reveal_strlit("remove");
    assert("add"@.len() != "edit"@.len());
    assert("remove"@.len() != "edit"@.len());
    assert("remove"@.len() != "add"@.len());
}

/// A document that is no object states no patch.
pub proof fn lemma_patch_needs_an_object(value: JsonTree)
    requires
        !(value is Object),
    ensures
        patch_of(value) == Err::<PatchSetView, ParseError>(ParseError::BadShape),
        file_of(value) == Err::<FileChangeView, ParseError>(ParseError::BadShape),
        change_of(value) == Err::<LineChangeView, ParseError>(ParseError::BadShape),
{
}

/// Members that the format does not name are passed over: a document says
/// the same with and without them.
pub proof fn lemma_other_members_pass(
    members: Map<Seq<char>, JsonTree>,
    key: Seq<char>,
    extra: JsonTree,
)
    requires
        key != "intent"@,
        key != "explanation"@,
        key != "files"@,
    ensures
        patch_of(JsonTree::Object(members.insert(key, extra))) == patch_of(
            JsonTree::Object(members),
        ),
{
}

/// An entry with the three members of a change states the change that
/// `change_of_parts` makes of them.
pub proof fn lemma_change_entry(name: Seq<char>, line_number: u64, new_line: Seq<char>)
    ensures
        change_of(
            JsonTree::Object(
                map![
                    "action"@ => JsonTree::Text(name),
                    "line_number"@ => JsonTree::Number(Some(line_number)),
                    "new_line"@ => JsonTree::Text(new_line),
                ],
            ),
        ) == change_of_parts(name, line_number, new_line),
{
    reveal_strlit("action");
    reveal_strlit("line_number");
    reveal_strlit("new_line");
    assert("action"@.len() != "line_number"@.len());
    assert("action"@.len() != "new_line"@.len());
    assert("line_number"@.len() != "new_line"@.len());
}

/// A line number that is negative, fractional or too large for `u64` makes
/// an entry's shape bad, whatever else the entry holds.
pub proof fn lemma_line_number_must_fit(members: Map<Seq<char>, JsonTree>)
    requires
        members.contains_key("line_number"@),
        members["line_number"@] == JsonTree::Number(None),
    ensures
        change_of(JsonTree::Object(members)) == Err::<LineChangeView, ParseError>(
            ParseError::BadShape,
        ),
{
}

impl Action {
    /// Decodes an action's name as the wire format writes it.
    pub fn from_name(name: &str) -> (action: Option<Action>)
        ensures
            action == action_of(name@),
    {
        if same_text(name, "edit") {
            Some(Action::Edit)
        } else if same_text(name, "add") {
            Some(Action::Add)
        } else if same_text(name, "remove") {
            Some(Action::Remove)
        } else {
            None
        }
    }
}

impl LineChange {
    /// Builds a change from the three members of a wire entry. Fails with
    /// `UnknownAction` exactly when `action` is none of `edit`, `add`, `remove`.
    pub fn from_parts(action: &str, line_number: u64, new_line: &str) -> (result: Result<
        LineChange,
        ParseError,
    >)
        ensures
            match result {
                Ok(change) => change_of_parts(action@, line_number, new_line@) == Ok::<
                    LineChangeView,
                    ParseError,
                >(change@),
                Err(error) => change_of_parts(action@, line_number, new_line@) == Err::<
                    LineChangeView,
                    ParseError,
                >(error),
            },
    {
        match Action::from_name(action) {
            Some(action) => Ok(LineChange { action, line_number, new_line: new_line.to_owned() }),
            None => Err(ParseError::UnknownAction),
        }
    }

    /// Reads one entry of `changes`.
    pub fn from_value(value: &serde_json::Value) -> (result: Result<LineChange, ParseError>)
        ensures
            match result {
                Ok(change) => change_of(json_tree(*value)) == Ok::<LineChangeView, ParseError>(
                    change@,
                ),
                Err(error) => change_of(json_tree(*value)) == Err::<LineChangeView, ParseError>(
                    error,
                ),
            },
    {
        let name = text_member(value, "action");
        let line_number = number_member(value, "line_number");
        let new_line = text_member(value, "new_line");
        match (name, line_number, new_line) {
            (Some(name), Some(line_number), Some(new_line)) => LineChange::from_parts(
                name,
                line_number,
                new_line,
            ),
            _ => Err(ParseError::BadShape),
        }
    }
}

/// The text under `key`.
fn text_member<'a>(value: &'a serde_json::Value, key: &str) -> (text: Option<&'a str>)
    ensures
        match text {
            Some(characters) => text_under(json_tree(*value), key@) == Some(characters@),
            None => text_under(json_tree(*value), key@) is None,
        },
{
    match member(value, key) {
        Some(inner) => inner.as_str(),
        None => None,
    }
}

/// The number under `key`.
fn number_member(value: &serde_json::Value, key: &str) -> (number: Option<u64>)
    ensures
        number == number_under(json_tree(*value), key@),
{
    match member(value, key) {
        Some(inner) => inner.as_u64(),
        None => None,
    }
}

/// The elements under `key`.
fn items_member<'a>(value: &'a serde_json::Value, key: &str) -> (items: Option<
    &'a Vec<serde_json::Value>,
>)
    ensures
        match items {
            Some(elements) => items_under(json_tree(*value), key@) == Some(json_trees(elements@)),
            None => items_under(json_tree(*value), key@) is None,
        },
{
    match member(value, key) {
        Some(inner) => inner.as_array(),
        None => None,
    }
}

/// Reads the entries of `changes`, stopping at the first that fails.
fn changes_from_items(items: &Vec<serde_json::Value>) -> (result: Result<
    Vec<LineChange>,
    ParseError,
>)
    ensures
        match result {
            Ok(changes) => changes_of(json_trees(items@)) == Ok::<Seq<LineChangeView>, ParseError>(
                changes.deep_view(),
            ),
            Err(error) => changes_of(json_trees(items@)) == Err::<Seq<LineChangeView>, ParseError>(
                error,
            ),
        },
{
    let mut changes: Vec<LineChange> = Vec::new();
    let mut done: usize = 0;
    let ghost trees = json_trees(items@);
    proof {
        assert(trees.take(0) =~= Seq::empty());
        assert(changes.deep_view() =~= Seq::empty());
    }
    while done < items.len()
        invariant
            done <= items.len(),
            trees == json_trees(items@),
            changes_of(trees.take(done as int)) == Ok::<Seq<LineChangeView>, ParseError>(
                changes.deep_view(),
            ),
        decreases items.len() - done,
    {
        proof {
            assert(trees.take(done + 1).drop_last() =~= trees.take(done as int));
            assert(trees.take(done + 1).last() == json_tree(items@[done as int]));
        }
        let ghost listed = changes.deep_view();
        match LineChange::from_value(&items[done]) {
            Ok(change) => {
                changes.push(change);
                proof {
                    assert(changes.deep_view() =~= listed.push(change@));
                }
            },
            Err(error) => {
                proof {
                    lemma_changes_error_stays(trees, done + 1);
                }
                return Err(error);
            },
        }
        done += 1;
    }
    proof {
        assert(trees.take(items.len() as int) =~= trees);
    }
    Ok(changes)
}

impl FileChange {
    /// Reads one entry of `files`.
    pub fn from_value(value: &serde_json::Value) -> (result: Result<FileChange, ParseError>)
        ensures
            match result {
                Ok(file) => file_of(json_tree(*value)) == Ok::<FileChangeView, ParseError>(file@),
                Err(error) => file_of(json_tree(*value)) == Err::<FileChangeView, ParseError>(error),
            },
    {
        let file_name = text_member(value, "file_name");
        let items = items_member(value, "changes");
        match (file_name, items) {
            (Some(file_name), Some(items)) => match changes_from_items(items) {
                Ok(changes) => Ok(FileChange { file_name: file_name.to_owned(), changes }),
                Err(error) => Err(error),
            },
            _ => Err(ParseError::BadShape),
        }
    }
}

/// Reads the entries of `files`, stopping at the first that fails.
fn files_from_items(items: &Vec<serde_json::Value>) -> (result: Result<Vec<FileChange>, ParseError>)
    ensures
        match result {
            Ok(files) => files_of(json_trees(items@)) == Ok::<Seq<FileChangeView>, ParseError>(
                files.deep_view(),
            ),
            Err(error) => files_of(json_trees(items@)) == Err::<Seq<FileChangeView>, ParseError>(
                error,
            ),
        },
{
    let mut files: Vec<FileChange> = Vec::new();
    let mut done: usize = 0;
    let ghost trees = json_trees(items@);
    proof {
        assert(trees.take(0) =~= Seq::empty());
        assert(files.deep_view() =~= Seq::empty());
    }
    while done < items.len()
        invariant
            done <= items.len(),
            trees == json_trees(items@),
            files_of(trees.take(done as int)) == Ok::<Seq<FileChangeView>, ParseError>(
                files.deep_view(),
            ),
        decreases items.len() - done,
    {
        proof {
            assert(trees.take(done + 1).drop_last() =~= trees.take(done as int));
            assert(trees.take(done + 1).last() == json_tree(items@[done as int]));
        }
        let ghost listed = files.deep_view();
        match FileChange::from_value(&items[done]) {
            Ok(file) => {
                files.push(file);
                proof {
                    assert(files.deep_view() =~= listed.push(file@));
                }
            },
            Err(error) => {
                proof {
                    lemma_files_error_stays(trees, done + 1);
                }
                return Err(error);
            },
        }
        done += 1;
    }
    proof {
        assert(trees.take(items.len() as int) =~= trees);
    }
    Ok(files)
}

impl PatchSet {
    /// Reads a patch out of a parsed document. Fails with `BadShape` when a
    /// member is missing or of the wrong kind, with `UnknownAction` when the
    /// first entry that is wrong names an action the format does not have.
    pub fn from_value(value: &serde_json::Value) -> (result: Result<PatchSet, ParseError>)
        ensures
            match result {
                Ok(patch) => patch_of(json_tree(*value)) == Ok::<PatchSetView, ParseError>(patch@),
                Err(error) => patch_of(json_tree(*value)) == Err::<PatchSetView, ParseError>(error),
            },
    {
        let intent = text_member(value, "intent");
        let explanation = text_member(value, "explanation");
        let items = items_member(value, "files");
        match (intent, explanation, items) {
            (Some(intent), Some(explanation), Some(items)) => match files_from_items(items) {
                Ok(files) => Ok(
                    PatchSet {
                        intent: intent.to_owned(),
                        explanation: explanation.to_owned(),
                        files,
                    },
                ),
                Err(error) => Err(error),
            },
            _ => Err(ParseError::BadShape),
        }
    }
}

/// Reads a patch out of the model's reply. The reply must be JSON and
/// nothing but JSON: a reply wrapped in prose or in a code fence fails with
/// `NotJson`. What the document must hold, `PatchSet::from_value` says.
pub fn parse(raw_text: &str) -> (result: Result<PatchSet, ParseError>)
    ensures
        match result {
            Ok(patch) => patch_of_text(raw_text@) == Ok::<PatchSetView, ParseError>(patch@),
            Err(error) => patch_of_text(raw_text@) == Err::<PatchSetView, ParseError>(error),
        },
{
    match read_document(raw_text) {
        Ok(value) => PatchSet::from_value(&value),
        Err(_) => Err(ParseError::NotJson),
    }
}

} // verus!
