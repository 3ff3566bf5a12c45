use fix::parse::{parse, ParseError};
use fix::patch::{Action, FileChange, LineChange, PatchSet};

const REPLY: &str = r#"{
  "intent": "print two",
  "explanation": "division by zero",
  "files": [
    { "file_name": "buggy.py",
      "changes": [
        {"action": "edit", "line_number": 1, "new_line": "x = 2"},
        {"action": "add", "line_number": 3, "new_line": "print('done')"},
        {"action": "remove", "line_number": 0, "new_line": ""}
      ]
    },
    { "file_name": "other.py", "changes": [] }
  ]
}"#;

fn one_change(entry: &str) -> Result<PatchSet, ParseError> {
    let text = format!(
        r#"{{"intent":"i","explanation":"e","files":[{{"file_name":"f.py","changes":[{}]}}]}}"#,
        entry
    );
    parse(&text)
}

#[test]
fn a_well_formed_reply_is_read_in_full() {
    let patch = parse(REPLY).unwrap();
    assert_eq!(patch.intent, "print two");
    assert_eq!(patch.explanation, "division by zero");
    assert_eq!(patch.files.len(), 2);
    let first = &patch.files[0];
    assert_eq!(first.file_name, "buggy.py");
    assert_eq!(first.changes.len(), 3);
    assert_eq!(first.changes[0].action, Action::Edit);
    assert_eq!(first.changes[0].line_number, 1);
    assert_eq!(first.changes[0].new_line, "x = 2");
    assert_eq!(first.changes[1].action, Action::Add);
    assert_eq!(first.changes[1].line_number, 3);
    assert_eq!(first.changes[1].new_line, "print('done')");
    assert_eq!(first.changes[2].action, Action::Remove);
    assert_eq!(first.changes[2].line_number, 0);
    assert_eq!(first.changes[2].new_line, "");
    assert_eq!(patch.files[1].file_name, "other.py");
    assert!(patch.files[1].changes.is_empty());
}

#[test]
fn only_the_first_file_is_consumed() {
    let patch = parse(REPLY).unwrap();
    assert_eq!(patch.first_file().unwrap().file_name, "buggy.py");
    assert_eq!(patch.into_first_file().unwrap().file_name, "buggy.py");
}

#[test]
fn a_patch_without_files_has_no_first_file() {
    let patch = parse(r#"{"intent":"i","explanation":"e","files":[]}"#).unwrap();
    assert!(patch.files.is_empty());
    assert!(patch.first_file().is_none());
    assert!(patch.into_first_file().is_none());
}

#[test]
fn members_outside_the_format_are_passed_over() {
    let text = r#"{"intent":"i","explanation":"e","files":[],"confidence":0.9}"#;
    assert!(parse(text).is_ok());
}

#[test]
fn prose_is_not_json() {
    assert_eq!(parse("I think the bug is on line 2.").unwrap_err(), ParseError::NotJson);
}

#[test]
fn empty_text_is_not_json() {
    assert_eq!(parse("").unwrap_err(), ParseError::NotJson);
}

#[test]
fn a_fenced_reply_is_not_json() {
    let text = format!("```json\n{}\n```", REPLY);
    assert_eq!(parse(&text).unwrap_err(), ParseError::NotJson);
}

#[test]
fn prose_around_the_object_is_not_json() {
    let text = format!("Here is the patch: {}", REPLY);
    assert_eq!(parse(&text).unwrap_err(), ParseError::NotJson);
    let text = format!("{} Hope that helps!", REPLY);
    assert_eq!(parse(&text).unwrap_err(), ParseError::NotJson);
}

#[test]
fn trailing_commas_are_not_json() {
    let text = r#"{"intent":"i","explanation":"e","files":[],}"#;
    assert_eq!(parse(text).unwrap_err(), ParseError::NotJson);
}

#[test]
fn a_document_that_is_no_object_has_a_bad_shape() {
    assert_eq!(parse("[]").unwrap_err(), ParseError::BadShape);
    assert_eq!(parse("42").unwrap_err(), ParseError::BadShape);
    assert_eq!(parse("null").unwrap_err(), ParseError::BadShape);
}

#[test]
fn missing_top_level_members_have_a_bad_shape() {
    assert_eq!(parse(r#"{"explanation":"e","files":[]}"#).unwrap_err(), ParseError::BadShape);
    assert_eq!(parse(r#"{"intent":"i","files":[]}"#).unwrap_err(), ParseError::BadShape);
    assert_eq!(parse(r#"{"intent":"i","explanation":"e"}"#).unwrap_err(), ParseError::BadShape);
}

#[test]
fn members_of_the_wrong_kind_have_a_bad_shape() {
    assert_eq!(
        parse(r#"{"intent":1,"explanation":"e","files":[]}"#).unwrap_err(),
        ParseError::BadShape
    );
    assert_eq!(
        parse(r#"{"intent":"i","explanation":"e","files":{}}"#).unwrap_err(),
        ParseError::BadShape
    );
    assert_eq!(
        parse(r#"{"intent":"i","explanation":"e","files":[{"file_name":"f","changes":"no"}]}"#)
            .unwrap_err(),
        ParseError::BadShape
    );
    assert_eq!(
        parse(r#"{"intent":"i","explanation":"e","files":[{"changes":[]}]}"#).unwrap_err(),
        ParseError::BadShape
    );
}

#[test]
fn a_change_needs_all_three_members() {
    assert_eq!(
        one_change(r#"{"line_number":1,"new_line":"x"}"#).unwrap_err(),
        ParseError::BadShape
    );
    assert_eq!(
        one_change(r#"{"action":"edit","new_line":"x"}"#).unwrap_err(),
        ParseError::BadShape
    );
    assert_eq!(
        one_change(r#"{"action":"remove","line_number":1}"#).unwrap_err(),
        ParseError::BadShape
    );
}

#[test]
fn a_line_number_must_be_a_non_negative_integer() {
    assert_eq!(
        one_change(r#"{"action":"edit","line_number":-1,"new_line":"x"}"#).unwrap_err(),
        ParseError::BadShape
    );
    assert_eq!(
        one_change(r#"{"action":"edit","line_number":1.5,"new_line":"x"}"#).unwrap_err(),
        ParseError::BadShape
    );
    assert_eq!(
        one_change(r#"{"action":"edit","line_number":"1","new_line":"x"}"#).unwrap_err(),
        ParseError::BadShape
    );
    let largest = one_change(r#"{"action":"edit","line_number":18446744073709551615,"new_line":"x"}"#)
        .unwrap();
    assert_eq!(largest.files[0].changes[0].line_number, u64::MAX);
}

#[test]
fn an_unknown_action_is_rejected() {
    assert_eq!(
        one_change(r#"{"action":"replace","line_number":1,"new_line":"x"}"#).unwrap_err(),
        ParseError::UnknownAction
    );
    assert_eq!(
        one_change(r#"{"action":"Edit","line_number":1,"new_line":"x"}"#).unwrap_err(),
        ParseError::UnknownAction
    );
    assert_eq!(
        one_change(r#"{"action":"","line_number":1,"new_line":"x"}"#).unwrap_err(),
        ParseError::UnknownAction
    );
}

#[test]
fn a_bad_shape_is_seen_before_an_unknown_action_in_one_entry() {
    assert_eq!(
        one_change(r#"{"action":"replace","line_number":-1,"new_line":"x"}"#).unwrap_err(),
        ParseError::BadShape
    );
}

#[test]
fn the_first_wrong_entry_decides_the_error() {
    let entries = r#"{"action":"replace","line_number":1,"new_line":"x"},{"action":"edit"}"#;
    assert_eq!(one_change(entries).unwrap_err(), ParseError::UnknownAction);
    let entries = r#"{"action":"edit"},{"action":"replace","line_number":1,"new_line":"x"}"#;
    assert_eq!(one_change(entries).unwrap_err(), ParseError::BadShape);
}

#[test]
fn escapes_in_strings_are_decoded() {
    let patch = one_change(r#"{"action":"add","line_number":0,"new_line":"a\tb \"q\" é\nc"}"#)
        .unwrap();
    assert_eq!(patch.files[0].changes[0].new_line, "a\tb \"q\" é\nc");
}

#[test]
fn action_names_decode() {
    assert_eq!(Action::from_name("edit"), Some(Action::Edit));
    assert_eq!(Action::from_name("add"), Some(Action::Add));
    assert_eq!(Action::from_name("remove"), Some(Action::Remove));
    assert_eq!(Action::from_name("delete"), None);
    assert_eq!(Action::from_name("edi"), None);
    assert_eq!(Action::from_name("edits"), None);
    assert_eq!(Action::from_name(""), None);
}

#[test]
fn a_change_from_its_parts() {
    let change = LineChange::from_parts("remove", 7, "gone").unwrap();
    assert_eq!(change.action, Action::Remove);
    assert_eq!(change.line_number, 7);
    assert_eq!(change.new_line, "gone");
    assert_eq!(LineChange::from_parts("move", 7, "x").unwrap_err(), ParseError::UnknownAction);
}

#[test]
fn values_are_read_member_by_member() {
    let document: serde_json::Value =
        serde_json::from_str(r#"{"file_name":"f.py","changes":[{"action":"add","line_number":2,"new_line":"n"}]}"#)
            .unwrap();
    let file = FileChange::from_value(&document).unwrap();
    assert_eq!(file.file_name, "f.py");
    assert_eq!(file.changes.len(), 1);
    assert_eq!(file.changes[0].action, Action::Add);
    let entry = &document["changes"][0];
    let change = LineChange::from_value(entry).unwrap();
    assert_eq!(change.line_number, 2);
    assert_eq!(change.new_line, "n");
    assert_eq!(PatchSet::from_value(&document).unwrap_err(), ParseError::BadShape);
    assert_eq!(LineChange::from_value(&document).unwrap_err(), ParseError::BadShape);
}
