//! The repair loop as a state machine. The machine decides; the caller does
//! the outside work that each command names and reports back with an event.
//!
//! ```text
//! Running ──probe succeeded──▶ Succeeded
//! Running ──probe failed────▶ Failed ──▶ AwaitingPatch ──reply is a patch──▶ PatchApplied ──▶ Running
//!                               │              └────────reply is none─────▶ PatchSkipped ──▶ Running
//!                               └──no attempt left──▶ GaveUp
//! ```

use vstd::prelude::*;
use crate::apply::ApplyError;
use crate::chat::{
    persona, persona_text, report, report_text, ChatMessage, ChatMessageView, OpenAIChat, Role,
};
use crate::error::FixError;
use crate::parse::{parse, patch_of_text};
use crate::patch::{FileChange, FileChangeView};
use crate::probe::{Language, Outcome, OutcomeView};

verus! {

/// Where the repair loop stands.
#[derive(Clone, Copy, Debug, PartialEq, Eq, Structural)]
pub enum Phase {
    /// The target program is to be run, or is running.
    Running,
    /// The last run failed; its diagnostic is kept.
    Failed,
    /// A patch has been asked for and the reply is awaited.
    AwaitingPatch,
    /// The reply was a patch and has been handed out to be applied.
    PatchApplied,
    /// The reply was no patch; the file stays as it is.
    PatchSkipped,
    /// The program ran successfully. Nothing follows.
    Succeeded,
    /// The run was abandoned. Nothing follows.
    GaveUp,
}

/// What the caller reports to the machine.
#[derive(Debug)]
pub enum Event {
    /// The target program has been run.
    ProbeFinished(Outcome),
    /// The caller has nothing to report; the machine had asked for no work.
    Proceed,
    /// The service has answered with this text.
    ReplyArrived(String),
    /// The service could not be reached or refused the call.
    ServiceFailed,
    /// The patch handed out was written to the file, or was refused and the
    /// file left untouched.
    PatchSettled(Result<(), ApplyError>),
}

/// An `Event` as a mathematical value.
pub enum EventView {
    ProbeFinished(OutcomeView),
    Proceed,
    ReplyArrived(Seq<char>),
    ServiceFailed,
    PatchSettled(Result<(), ApplyError>),
}

impl View for Event {
    type V = EventView;

    open spec fn view(&self) -> EventView {
        match self {
            Event::ProbeFinished(outcome) => EventView::ProbeFinished(outcome@),
            Event::Proceed => EventView::Proceed,
            Event::ReplyArrived(text) => EventView::ReplyArrived(text@),
            Event::ServiceFailed => EventView::ServiceFailed,
            Event::PatchSettled(result) => EventView::PatchSettled(*result),
        }
    }
}

/// What the machine asks of the caller.
#[derive(Debug)]
pub enum Command {
    /// Run the target program and report `ProbeFinished`.
    RunProbe,
    /// Do nothing outside and report `Proceed`.
    Proceed,
    /// Send these messages, the whole dialogue so far, to the service and
    /// report `ReplyArrived` or `ServiceFailed`.
    RequestPatch(Vec<ChatMessage>),
    /// Load the file, apply this change, write the file back if that
    /// succeeded, and report `PatchSettled`.
    ApplyPatch(FileChange),
    /// The run is over.
    Stop,
}

/// A `Command` as a mathematical value.
pub enum CommandView {
    RunProbe,
    Proceed,
    RequestPatch(Seq<ChatMessageView>),
    ApplyPatch(FileChangeView),
    Stop,
}

impl View for Command {
    type V = CommandView;

    open spec fn view(&self) -> CommandView {
        match self {
            Command::RunProbe => CommandView::RunProbe,
            Command::Proceed => CommandView::Proceed,
            Command::RequestPatch(messages) => CommandView::RequestPatch(messages.deep_view()),
            Command::ApplyPatch(change) => CommandView::ApplyPatch(change@),
            Command::Stop => CommandView::Stop,
        }
    }
}

/// The state of one repair run.
#[derive(Debug)]
pub struct RepairLoop {
    phase: Phase,
    source: String,
    diagnostic: String,
    chat: OpenAIChat,
    attempts: u64,
    limit: Option<u64>,
    setback: FixError,
}

/// A `RepairLoop` as a mathematical value.
pub struct RepairLoopView {
    pub phase: Phase,
    /// The program's text as it was when the run began. Every failure report
    /// quotes this text, not the file as patched since.
    pub source: Seq<char>,
    /// The diagnostic of the last failed run.
    pub diagnostic: Seq<char>,
    /// The dialogue so far.
    pub history: Seq<ChatMessageView>,
    /// How many patches have been asked for.
    pub attempts: nat,
    /// How many patches may be asked for at most; `None` sets no bound.
    pub limit: Option<nat>,
    /// What stood in the way of success in the last iteration.
    pub setback: FixError,
}

impl View for RepairLoop {
    type V = RepairLoopView;

    closed spec fn view(&self) -> RepairLoopView {
        RepairLoopView {
            phase: self.phase,
            source: self.source@,
            diagnostic: self.diagnostic@,
            history: self.chat@,
            attempts: self.attempts as nat,
            limit: match self.limit {
                Some(most) => Some(most as nat),
                None => None,
            },
            setback: self.setback,
        }
    }
}

/// The state in which a run begins: the program is about to be run for the
/// first time and the dialogue holds the system message alone.
pub open spec fn initial(language: Language, source: Seq<char>, limit: Option<nat>) -> RepairLoopView {
    RepairLoopView {
        phase: Phase::Running,
        source,
        diagnostic: Seq::empty(),
        history: seq![
            ChatMessageView { role: Role::System, content: persona_text(language.name_text()) },
        ],
        attempts: 0,
        limit,
        setback: FixError::ExecutionFailure,
    }
}

/// Whether every patch that may be asked for has been asked for.
pub open spec fn exhausted(state: RepairLoopView) -> bool {
    state.limit matches Some(most) && state.attempts >= most
}

/// The count of attempts after one more; it stops at the largest `u64`.
pub open spec fn one_more(attempts: nat) -> nat {
    if attempts < u64::MAX {
        attempts + 1
    } else {
        attempts
    }
}

/// The change that a reply asks to apply: the first file of the patch it
/// states, if it states a patch and that patch names a file.
pub open spec fn staged(reply: Seq<char>) -> Option<FileChangeView> {
    match patch_of_text(reply) {
        Ok(patch) => if patch.files.len() > 0 {
            Some(patch.files[0])
        } else {
            None
        },
        Err(_) => None,
    }
}

/// The transition function: the state and the command that follow from a
/// state and an event, or `None` where the state does not await that event.
pub open spec fn next(state: RepairLoopView, event: EventView) -> Option<
    (RepairLoopView, CommandView),
> {
    match (state.phase, event) {
        (Phase::Running, EventView::ProbeFinished(OutcomeView::Success { .. })) => Some(
            (RepairLoopView { phase: Phase::Succeeded, ..state }, CommandView::Stop),
        ),
        (Phase::Running, EventView::ProbeFinished(OutcomeView::Failure { stderr })) => Some(
            (
                RepairLoopView { phase: Phase::Failed, diagnostic: stderr, ..state },
                CommandView::Proceed,
            ),
        ),
        (Phase::Failed, EventView::Proceed) => if exhausted(state) {
            Some((RepairLoopView { phase: Phase::GaveUp, ..state }, CommandView::Stop))
        } else {
            let history = state.history.push(
                ChatMessageView {
                    role: Role::User,
                    content: report_text(state.diagnostic, state.source),
                },
            );
            Some(
                (
                    RepairLoopView {
                        phase: Phase::AwaitingPatch,
                        history,
                        attempts: one_more(state.attempts),
                        ..state
                    },
                    CommandView::RequestPatch(history),
                ),
            )
        },
        (Phase::AwaitingPatch, EventView::ReplyArrived(reply)) => {
            let history = state.history.push(
                ChatMessageView { role: Role::Assistant, content: reply },
            );
            match staged(reply) {
                Some(change) => Some(
                    (
                        RepairLoopView { phase: Phase::PatchApplied, history, ..state },
                        CommandView::ApplyPatch(change),
                    ),
                ),
                None => Some(
                    (
                        RepairLoopView {
                            phase: Phase::PatchSkipped,
                            history,
                            setback: FixError::PatchParseFailure,
                            ..state
                        },
                        CommandView::Proceed,
                    ),
                ),
            }
        },
        (Phase::AwaitingPatch, EventView::ServiceFailed) => Some(
            (
                RepairLoopView {
                    phase: Phase::GaveUp,
                    setback: FixError::ServiceFailure,
                    ..state
                },
                CommandView::Stop,
            ),
        ),
        (Phase::PatchApplied, EventView::PatchSettled(result)) => Some(
            (
                RepairLoopView {
                    phase: Phase::Running,
                    setback: if result is Ok {
                        FixError::ExecutionFailure
                    } else {
                        FixError::PatchApplyFailure
                    },
                    ..state
                },
                CommandView::RunProbe,
            ),
        ),
        (Phase::PatchSkipped, EventView::Proceed) => Some(
            (RepairLoopView { phase: Phase::Running, ..state }, CommandView::RunProbe),
        ),
        _ => None,
    }
}

/// How a run has ended, if it has: well after `Succeeded`, and after
/// `GaveUp` with the last setback as the reason.
pub open spec fn ending(state: RepairLoopView) -> Option<Result<(), FixError>> {
    match state.phase {
        Phase::Succeeded => Some(Ok(())),
        Phase::GaveUp => Some(Err(state.setback)),
        _ => None,
    }
}

/// A run that is over stays over: `Succeeded` and `GaveUp` await no event.
pub proof fn lemma_terminal(state: RepairLoopView, event: EventView)
    requires
        state.phase == Phase::Succeeded || state.phase == Phase::GaveUp,
    ensures
        next(state, event) is None,
{
}

/// A program that runs successfully ends the loop on the spot: the machine
/// goes from `Running` to `Succeeded`, asks for nothing more, and the
/// dialogue and the count of attempts are as they were.
pub proof fn lemma_success_ends_run(state: RepairLoopView, stdout: Seq<char>)
    requires
        state.phase == Phase::Running,
    ensures
        next(state, EventView::ProbeFinished(OutcomeView::Success { stdout })) == Some(
            (RepairLoopView { phase: Phase::Succeeded, ..state }, CommandView::Stop),
        ),
{
}

/// No transition rewrites the past: the dialogue before it is the beginning
/// of the dialogue after it, and the program text quoted in failure reports
/// and the bound on attempts stay the same.
pub proof fn lemma_history_grows(state: RepairLoopView, event: EventView)
    ensures
        next(state, event) matches Some((after, _)) ==> {
            &&& state.history.is_prefix_of(after.history)
            &&& after.source == state.source
            &&& after.limit == state.limit
        },
{
}

/// The file is touched only on a reply that states a patch: the machine asks
/// to apply a change exactly when it is awaiting a patch and the reply that
/// arrives stages one.
pub proof fn lemma_patch_only_from_reply(state: RepairLoopView, event: EventView)
    ensures
        next(state, event) matches Some((_, CommandView::ApplyPatch(change))) ==> {
            &&& state.phase == Phase::AwaitingPatch
            &&& event matches EventView::ReplyArrived(reply)
            &&& staged(reply) == Some(change)
        },
{
}

/// Whether no more patches have been asked for than the bound allows.
pub open spec fn within_limit(state: RepairLoopView) -> bool {
    state.limit matches Some(most) ==> state.attempts <= most
}

/// A run never asks for more patches than its bound allows: it begins within
/// the bound, and no transition leaves it.
pub proof fn lemma_stays_within_limit(state: RepairLoopView, event: EventView)
    requires
        within_limit(state),
    ensures
        next(state, event) matches Some((after, _)) ==> within_limit(after),
{
}

/// A run begins within its bound.
pub proof fn lemma_begins_within_limit(language: Language, source: Seq<char>, limit: Option<nat>)
    ensures
        within_limit(initial(language, source, limit)),
{
}

/// While the bound is not reached, a failure leads to one more request: the
/// report of the failure joins the dialogue, the whole dialogue goes out to
/// the service, and the request is counted.
pub proof fn lemma_failure_asks_again(state: RepairLoopView)
    requires
        state.phase == Phase::Failed,
        !exhausted(state),
    ensures
        next(state, EventView::Proceed) matches Some((after, CommandView::RequestPatch(messages)))
            && after.phase == Phase::AwaitingPatch && after.attempts == one_more(state.attempts)
            && messages == after.history && after.history == state.history.push(
            ChatMessageView {
                role: Role::User,
                content: report_text(state.diagnostic, state.source),
            },
        ),
{
}

/// When the bound is reached, the next failure ends the run: from `Failed`
/// the machine goes to `GaveUp` and keeps the last setback as the reason.
pub proof fn lemma_gives_up_when_exhausted(state: RepairLoopView)
    requires
        state.phase == Phase::Failed,
        exhausted(state),
    ensures
        next(state, EventView::Proceed) == Some(
            (RepairLoopView { phase: Phase::GaveUp, ..state }, CommandView::Stop),
        ),
{
}

impl RepairLoop {
    /// Begins a run on a program in `language` whose text is `source`.
    /// At most `limit` patches will be asked for; `None` sets no bound. The
    /// machine starts in `Running`: the caller runs the program and reports.
    pub fn new(language: Language, source: String, limit: Option<u64>) -> (machine: RepairLoop)
        ensures
            machine@ == initial(
                language,
                source@,
                match limit {
                    Some(most) => Some(most as nat),
                    None => None,
                },
            ),
    {
        let starter = ChatMessage::new(Role::System, persona(language.name()));
        RepairLoop {
            phase: Phase::Running,
            source,
            diagnostic: String::new(),
            chat: OpenAIChat::new(starter),
            attempts: 0,
            limit,
            setback: FixError::ExecutionFailure,
        }
    }

    /// Takes one event and makes the one transition that it calls for. Returns
    /// the command for the caller, or `None`, with the machine unchanged,
    /// where the current phase does not await such an event.
    pub fn step(&mut self, event: Event) -> (command: Option<Command>)
        ensures
            match command {
                Some(command) => next(old(self)@, event@) == Some((final(self)@, command@)),
                None => next(old(self)@, event@) is None && final(self)@ == old(self)@,
            },
    {
        match (self.phase, event) {
            (Phase::Running, Event::ProbeFinished(Outcome::Success { stdout: _ })) => {
                self.phase = Phase::Succeeded;
                Some(Command::Stop)
            },
            (Phase::Running, Event::ProbeFinished(Outcome::Failure { stderr })) => {
                self.phase = Phase::Failed;
                self.diagnostic = stderr;
                Some(Command::Proceed)
            },
            (Phase::Failed, Event::Proceed) => {
                let spent = match self.limit {
                    Some(most) => self.attempts >= most,
                    None => false,
                };
                if spent {
                    self.phase = Phase::GaveUp;
                    Some(Command::Stop)
                } else {
                    let prompt = report(self.diagnostic.as_str(), self.source.as_str());
                    let request = self.chat.submit(prompt);
                    if self.attempts < u64::MAX {
                        self.attempts = self.attempts + 1;
                    }
                    self.phase = Phase::AwaitingPatch;
                    Some(Command::RequestPatch(request))
                }
            },
            (Phase::AwaitingPatch, Event::ReplyArrived(reply)) => {
                let parsed = parse(reply.as_str());
                let _ = self.chat.complete(reply);
                let first = match parsed {
                    Ok(patch) => patch.into_first_file(),
                    Err(_) => None,
                };
                match first {
                    Some(change) => {
                        self.phase = Phase::PatchApplied;
                        Some(Command::ApplyPatch(change))
                    },
                    None => {
                        self.phase = Phase::PatchSkipped;
                        self.setback = FixError::PatchParseFailure;
                        Some(Command::Proceed)
                    },
                }
            },
            (Phase::AwaitingPatch, Event::ServiceFailed) => {
                self.phase = Phase::GaveUp;
                self.setback = FixError::ServiceFailure;
                Some(Command::Stop)
            },
            (Phase::PatchApplied, Event::PatchSettled(result)) => {
                self.phase = Phase::Running;
                self.setback = match result {
                    Ok(_) => FixError::ExecutionFailure,
                    Err(_) => FixError::PatchApplyFailure,
                };
                Some(Command::RunProbe)
            },
            (Phase::PatchSkipped, Event::Proceed) => {
                self.phase = Phase::Running;
                Some(Command::RunProbe)
            },
            _ => None,
        }
    }

    /// Where the loop stands.
    pub fn phase(&self) -> (phase: Phase)
        ensures
            phase == self@.phase,
    {
        self.phase
    }

    /// Whether the run is over, for better or worse.
    pub fn is_finished(&self) -> (finished: bool)
        ensures
            finished == (self@.phase == Phase::Succeeded || self@.phase == Phase::GaveUp),
    {
        match self.phase {
            Phase::Succeeded | Phase::GaveUp => true,
            _ => false,
        }
    }

    /// How the run has ended: `None` while it is under way, `Ok` once the
    /// program has run successfully, and the reason once the run was given up.
    pub fn ending(&self) -> (ending: Option<Result<(), FixError>>)
        ensures
            ending == crate::repair::ending(self@),
    {
        match self.phase {
            Phase::Succeeded => Some(Ok(())),
            Phase::GaveUp => Some(Err(self.setback)),
            _ => None,
        }
    }

    /// How many patches have been asked for.
    pub fn attempts(&self) -> (attempts: u64)
        ensures
            attempts == self@.attempts,
    {
        self.attempts
    }

    /// What stood in the way of success in the last iteration. Once the run
    /// has been given up, this is the reason.
    pub fn setback(&self) -> (setback: FixError)
        ensures
            setback == self@.setback,
    {
        self.setback
    }

    /// The diagnostic of the last failed run.
    pub fn diagnostic(&self) -> (diagnostic: &str)
        ensures
            diagnostic@ == self@.diagnostic,
    {
        self.diagnostic.as_str()
    }

    /// The dialogue so far, oldest message first.
    pub fn history(&self) -> (messages: Vec<ChatMessage>)
        ensures
            messages.deep_view() == self@.history,
    {
        self.chat.history()
    }
}

} // verus!
