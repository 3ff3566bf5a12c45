use fix::lines::LineSequence;

fn lines_of(text: &str) -> Vec<String> {
    LineSequence::from_text(text).lines
}

fn text_of(lines: &[&str]) -> String {
    LineSequence::from_lines(lines.iter().map(|line| line.to_string()).collect()).to_text()
}

#[test]
fn empty_text_has_no_lines() {
    assert!(lines_of("").is_empty());
}

#[test]
fn text_without_line_feed_is_one_line() {
    assert_eq!(lines_of("print(1)"), vec!["print(1)"]);
}

#[test]
fn line_feeds_separate_lines() {
    assert_eq!(lines_of("a\nb\nc"), vec!["a", "b", "c"]);
}

#[test]
fn a_final_line_feed_opens_no_line() {
    assert_eq!(lines_of("a\nb\n"), vec!["a", "b"]);
}

#[test]
fn a_lone_line_feed_is_one_empty_line() {
    assert_eq!(lines_of("\n"), vec![""]);
}

#[test]
fn empty_lines_in_the_middle_are_kept() {
    assert_eq!(lines_of("a\n\n\nb"), vec!["a", "", "", "b"]);
}

#[test]
fn carriage_return_before_line_feed_is_dropped() {
    assert_eq!(lines_of("a\r\nb\r\n"), vec!["a", "b"]);
}

#[test]
fn only_one_carriage_return_is_dropped() {
    assert_eq!(lines_of("a\r\r\nb"), vec!["a\r", "b"]);
}

#[test]
fn carriage_return_inside_a_line_is_kept() {
    assert_eq!(lines_of("a\rb\nc"), vec!["a\rb", "c"]);
}

#[test]
fn carriage_return_at_the_very_end_is_kept() {
    assert_eq!(lines_of("a\nb\r"), vec!["a", "b\r"]);
}

#[test]
fn splitting_agrees_with_the_standard_library() {
    let texts = ["", "\n", "a", "a\n", "a\r\n", "\r\n\r\n", "x\r\ry\n\nz", "é\nü\r\n"];
    for text in texts {
        let expected: Vec<String> = text.lines().map(|line| line.to_string()).collect();
        assert_eq!(lines_of(text), expected, "text {:?}", text);
    }
}

#[test]
fn no_lines_join_to_empty_text() {
    assert_eq!(text_of(&[]), "");
}

#[test]
fn one_line_joins_to_itself() {
    assert_eq!(text_of(&["a"]), "a");
}

#[test]
fn lines_join_with_line_feeds_between_them() {
    assert_eq!(text_of(&["a", "b", "c"]), "a\nb\nc");
}

#[test]
fn a_blank_last_line_leaves_a_final_line_feed() {
    assert_eq!(text_of(&["a", ""]), "a\n");
}

#[test]
fn written_lines_read_back_the_same() {
    let lines = vec!["def f():", "    return 1", "", "print(f())"];
    let store = LineSequence::from_lines(lines.iter().map(|line| line.to_string()).collect());
    let back = LineSequence::from_text(&store.to_text());
    assert_eq!(back.lines, lines);
}

#[test]
fn a_blank_last_line_does_not_read_back() {
    let store = LineSequence::from_lines(vec!["a".to_string(), "".to_string()]);
    let back = LineSequence::from_text(&store.to_text());
    assert_eq!(back.lines, vec!["a"]);
}

#[test]
fn line_access_by_index() {
    let store = LineSequence::from_text("a\nb");
    assert_eq!(store.len(), 2);
    assert!(!store.is_empty());
    assert_eq!(store.line(0), Some("a"));
    assert_eq!(store.line(1), Some("b"));
    assert_eq!(store.line(2), None);
}

#[test]
fn a_new_store_is_empty() {
    let store = LineSequence::new();
    assert_eq!(store.len(), 0);
    assert!(store.is_empty());
    assert_eq!(store.to_text(), "");
}
