use fix::chat::{persona, report, ChatMessage, OpenAIChat, Role};
use fix::text::same_text;

fn roles_and_contents(messages: &[ChatMessage]) -> Vec<(Role, String)> {
    messages.iter().map(|m| (m.role, m.content.clone())).collect()
}

#[test]
fn a_new_dialogue_holds_the_starter_alone() {
    let chat = OpenAIChat::new(ChatMessage::new(Role::System, "be brief".to_string()));
    assert_eq!(chat.len(), 1);
    assert_eq!(
        roles_and_contents(&chat.history()),
        vec![(Role::System, "be brief".to_string())]
    );
}

#[test]
fn submit_appends_the_user_message_and_returns_the_whole_dialogue() {
    let mut chat = OpenAIChat::new(ChatMessage::new(Role::System, "s".to_string()));
    let request = chat.submit("first question".to_string());
    assert_eq!(
        roles_and_contents(&request),
        vec![(Role::System, "s".to_string()), (Role::User, "first question".to_string())]
    );
    assert_eq!(roles_and_contents(&chat.history()), roles_and_contents(&request));
}

#[test]
fn complete_appends_the_reply_as_the_assistant() {
    let mut chat = OpenAIChat::new(ChatMessage::new(Role::System, "s".to_string()));
    chat.submit("q".to_string());
    let reply = chat.complete("a".to_string());
    assert_eq!(reply.role, Role::Assistant);
    assert_eq!(reply.content, "a");
    assert_eq!(
        roles_and_contents(&chat.history()),
        vec![
            (Role::System, "s".to_string()),
            (Role::User, "q".to_string()),
            (Role::Assistant, "a".to_string()),
        ]
    );
}

#[test]
fn the_dialogue_grows_in_order_and_is_sent_whole_every_time() {
    let mut chat = OpenAIChat::new(ChatMessage::new(Role::System, "s".to_string()));
    for round in 0..5 {
        let request = chat.submit(format!("q{}", round));
        assert_eq!(request.len(), 2 * round + 2);
        assert_eq!(request[0].content, "s");
        assert_eq!(request.last().unwrap().content, format!("q{}", round));
        for earlier in 0..round {
            assert_eq!(request[2 * earlier + 1].content, format!("q{}", earlier));
            assert_eq!(request[2 * earlier + 2].content, format!("a{}", earlier));
        }
        chat.complete(format!("a{}", round));
    }
    assert_eq!(chat.len(), 11);
}

#[test]
fn the_failure_report_quotes_diagnostic_and_program() {
    assert_eq!(
        report("ZeroDivisionError", "x = 1 / 0"),
        "I get this error\nZeroDivisionError\nWhen I run this code\nx = 1 / 0\n"
    );
}

#[test]
fn the_failure_report_of_nothing() {
    assert_eq!(report("", ""), "I get this error\n\nWhen I run this code\n\n");
}

#[test]
fn the_persona_names_the_language_and_the_format() {
    let text = persona("python");
    assert!(text.starts_with("You are a brilliant python programmer"));
    for member in ["\"intent\"", "\"explanation\"", "\"files\"", "\"file_name\"", "\"changes\"",
        "\"action\"", "\"line_number\"", "\"new_line\"", "\"edit\"", "\"add\"", "\"remove\""]
    {
        assert!(text.contains(member), "the persona does not name {}", member);
    }
    assert!(text.contains("no markdown fences"));
}

#[test]
fn the_example_in_the_persona_is_a_patch() {
    let text = persona("python");
    let start = text.find('{').unwrap();
    let end = text.rfind('}').unwrap();
    let patch = fix::parse::parse(&text[start..=end]).unwrap();
    assert_eq!(patch.files.len(), 1);
    assert_eq!(patch.files[0].changes.len(), 3);
}

#[test]
fn a_copy_of_a_message_is_equal_to_it() {
    let message = ChatMessage::new(Role::User, "hello".to_string());
    let copy = message.duplicate();
    assert_eq!(copy.role, message.role);
    assert_eq!(copy.content, message.content);
}

#[test]
fn texts_compare_by_their_characters() {
    assert!(same_text("", ""));
    assert!(same_text("abc", "abc"));
    assert!(same_text("é", "é"));
    assert!(!same_text("abc", "abd"));
    assert!(!same_text("abc", "ab"));
    assert!(!same_text("ab", "abc"));
    assert!(!same_text("", "a"));
}
