//! The conversation with the language-model service: an append-only log of
//! messages, and the texts that the repair run puts into it. Sending the log
//! and receiving the reply is the caller's work.

use vstd::prelude::*;
use vstd::string::StringExecFns;

verus! {

/// Who speaks in a message.
#[derive(Clone, Copy, Debug, PartialEq, Eq, Structural)]
pub enum Role {
    System,
    User,
    Assistant,
}

/// One turn of the dialogue.
#[derive(Debug)]
pub struct ChatMessage {
    pub role: Role,
    pub content: String,
}

/// A `ChatMessage` as a mathematical value.
pub struct ChatMessageView {
    pub role: Role,
    pub content: Seq<char>,
}

impl View for ChatMessage {
    type V = ChatMessageView;

    open spec fn view(&self) -> ChatMessageView {
        ChatMessageView { role: self.role, content: self.content@ }
    }
}

impl DeepView for ChatMessage {
    type V = ChatMessageView;

    open spec fn deep_view(&self) -> ChatMessageView {
        self@
    }
}

impl ChatMessage {
    /// A message of the given role.
    pub fn new(role: Role, content: String) -> (message: ChatMessage)
        ensures
            message@ == (ChatMessageView { role, content: content@ }),
    {
        ChatMessage { role, content }
    }

    /// A copy of this message.
    pub fn duplicate(&self) -> (copy: ChatMessage)
        ensures
            copy@ == self@,
    {
        ChatMessage { role: self.role, content: self.content.clone() }
    }
}

/// What opens the system message, before the language's name.
pub const PERSONA_HEAD: &'static str = "You are a brilliant ";

/// What follows the language's name in the system message: the task and the
/// format in which the model must answer.
pub const PERSONA_TAIL: &'static str = " programmer, one of the best in the world at finding and fixing bugs in code. You will be given a program that has one or more bugs in it, along with the error it produces when it is run. Your job is to fix the bugs and to return your changes in the exact format described here.\nReturn one JSON object that lists the changes line by line:\n{\n  \"intent\": \"what you think the program should do\",\n  \"explanation\": \"what went wrong and what the changes do\",\n  \"files\": [\n    {\n      \"file_name\": \"file_name.py\",\n      \"changes\": [\n        {\"action\": \"edit\", \"line_number\": 2, \"new_line\": \"print('hello world')\"},\n        {\"action\": \"add\", \"line_number\": 3, \"new_line\": \"print(1 + 2)\"},\n        {\"action\": \"remove\", \"line_number\": 4, \"new_line\": \"\"}\n      ]\n    }\n  ]\n}\nLines are counted from zero. In the \"action\" field use \"edit\" to replace the text of a line, \"remove\" to blank a line, and \"add\" to insert a new line at the given line number, which moves the line that stood there and all later lines down by one. Changes are applied from the highest line number to the lowest, so line numbers do not shift while the file is edited. Pay very close attention to indentation and whitespace. Return only the JSON object. Explain yourself nowhere but in the \"explanation\" field, and put no markdown fences and no other text around the object.";

/// What opens a failure report, before the diagnostic.
pub const REPORT_HEAD: &'static str = "I get this error\n";

/// What stands between the diagnostic and the program's text.
pub const REPORT_MIDDLE: &'static str = "\nWhen I run this code\n";

/// What closes a failure report.
pub const REPORT_TAIL: &'static str = "\n";

/// The system message for a repair run on a program in `language`.
pub open spec fn persona_text(language: Seq<char>) -> Seq<char> {
    PERSONA_HEAD@ + language + PERSONA_TAIL@
}

/// The user message that reports a failed run: the diagnostic, then the
/// program's text.
pub open spec fn report_text(diagnostic: Seq<char>, source: Seq<char>) -> Seq<char> {
    REPORT_HEAD@ + diagnostic + REPORT_MIDDLE@ + source + REPORT_TAIL@
}

/// Writes the system message for a repair run on a program in `language`.
pub fn persona(language: &str) -> (text: String)
    ensures
        text@ == persona_text(language@),
{
    let mut text = String::from_str(PERSONA_HEAD);
    text.append(language);
    text.append(PERSONA_TAIL);
    text
}

/// Writes the user message that reports a failed run.
pub fn report(diagnostic: &str, source: &str) -> (text: String)
    ensures
        text@ == report_text(diagnostic@, source@),
{
    let mut text = String::from_str(REPORT_HEAD);
    text.append(diagnostic);
    text.append(REPORT_MIDDLE);
    text.append(source);
    text.append(REPORT_TAIL);
    text
}

/// The dialogue of one repair run. Messages are only ever added at the end;
/// none is changed, moved or dropped.
#[derive(Debug)]
pub struct OpenAIChat {
    messages: Vec<ChatMessage>,
}

impl View for OpenAIChat {
    type V = Seq<ChatMessageView>;

    closed spec fn view(&self) -> Seq<ChatMessageView> {
        self.messages.deep_view()
    }
}

/// Copies a list of messages.
fn copy_messages(messages: &Vec<ChatMessage>) -> (copy: Vec<ChatMessage>)
    ensures
        copy.deep_view() == messages.deep_view(),
{
    let mut copy: Vec<ChatMessage> = Vec::new();
    let mut done: usize = 0;
    while done < messages.len()
        invariant
            done <= messages.len(),
            copy.len() == done,
            forall|i: int| 0 <= i < done ==> copy[i]@ == messages[i]@,
        decreases messages.len() - done,
    {
        copy.push(messages[done].duplicate());
        done += 1;
    }
    assert(copy.deep_view() =~= messages.deep_view());
    copy
}

impl OpenAIChat {
    /// Opens a dialogue with its first message, which by convention is the
    /// system message.
    pub fn new(starter_message: ChatMessage) -> (chat: OpenAIChat)
        ensures
            chat@ == seq![starter_message@],
    {
        let mut messages: Vec<ChatMessage> = Vec::new();
        messages.push(starter_message);
        let chat = OpenAIChat { messages };
        assert(chat@ =~= seq![starter_message@]);
        chat
    }

    /// First half of an exchange: adds the user's message to the log and
    /// returns the whole log, oldest message first, which is what must be
    /// sent to the service.
    pub fn submit(&mut self, user_message: String) -> (request: Vec<ChatMessage>)
        ensures
            final(self)@ == old(self)@.push(
                ChatMessageView { role: Role::User, content: user_message@ },
            ),
            request.deep_view() == final(self)@,
    {
        let ghost before = self@;
        self.messages.push(ChatMessage { role: Role::User, content: user_message });
        assert(self@ =~= before.push(
            ChatMessageView { role: Role::User, content: user_message@ },
        ));
        copy_messages(&self.messages)
    }

    /// Second half of an exchange: adds the service's reply to the log as the
    /// assistant's message and returns that message.
    pub fn complete(&mut self, reply: String) -> (message: ChatMessage)
        ensures
            final(self)@ == old(self)@.push(message@),
            message@ == (ChatMessageView { role: Role::Assistant, content: reply@ }),
    {
        let ghost before = self@;
        let message = ChatMessage { role: Role::Assistant, content: reply };
        let copy = message.duplicate();
        self.messages.push(message);
        assert(self@ =~= before.push(copy@));
        copy
    }

    /// The log so far, oldest message first.
    pub fn history(&self) -> (messages: Vec<ChatMessage>)
        ensures
            messages.deep_view() == self@,
    {
        copy_messages(&self.messages)
    }

    /// The number of messages in the log.
    pub fn len(&self) -> (count: usize)
        ensures
            count == self@.len(),
    {
        self.messages.len()
    }
}

} // verus!
