use fix::apply::ApplyError;
use fix::chat::{report, Role};
use fix::error::FixError;
use fix::probe::{Language, Outcome};
use fix::repair::{Command, Event, Phase, RepairLoop};

const SOURCE: &str = "x = 1 / 0\nprint(x)\n";

const PATCH: &str = r#"{"intent":"print","explanation":"no zero",
  "files":[{"file_name":"buggy.py","changes":[{"action":"edit","line_number":0,"new_line":"x = 1"}]}]}"#;

fn machine(limit: Option<u64>) -> RepairLoop {
    RepairLoop::new(Language::Python, SOURCE.to_string(), limit)
}

fn success() -> Event {
    Event::ProbeFinished(Outcome::classify(0, "1\n".to_string(), String::new()))
}

fn failure(diagnostic: &str) -> Event {
    Event::ProbeFinished(Outcome::classify(1, String::new(), diagnostic.to_string()))
}

/// Drives the machine from `Running` over a failed run to `AwaitingPatch`.
fn fail_and_ask(machine: &mut RepairLoop, diagnostic: &str) -> Command {
    assert!(matches!(machine.step(failure(diagnostic)), Some(Command::Proceed)));
    assert_eq!(machine.phase(), Phase::Failed);
    machine.step(Event::Proceed).unwrap()
}

#[test]
fn a_run_begins_in_running_with_the_system_message() {
    let machine = machine(None);
    assert_eq!(machine.phase(), Phase::Running);
    assert_eq!(machine.attempts(), 0);
    assert!(!machine.is_finished());
    assert_eq!(machine.ending(), None);
    let history = machine.history();
    assert_eq!(history.len(), 1);
    assert_eq!(history[0].role, Role::System);
    assert_eq!(history[0].content, fix::chat::persona("python"));
}

#[test]
fn a_program_that_works_ends_the_run_after_one_probe() {
    let mut machine = machine(None);
    let command = machine.step(success());
    assert!(matches!(command, Some(Command::Stop)));
    assert_eq!(machine.phase(), Phase::Succeeded);
    assert!(machine.is_finished());
    assert_eq!(machine.ending(), Some(Ok(())));
    assert_eq!(machine.attempts(), 0);
    assert_eq!(machine.history().len(), 1);
}

#[test]
fn a_failed_run_asks_for_a_patch_with_the_whole_dialogue() {
    let mut machine = machine(None);
    let command = fail_and_ask(&mut machine, "ZeroDivisionError");
    assert_eq!(machine.phase(), Phase::AwaitingPatch);
    assert_eq!(machine.attempts(), 1);
    assert_eq!(machine.diagnostic(), "ZeroDivisionError");
    match command {
        Command::RequestPatch(messages) => {
            assert_eq!(messages.len(), 2);
            assert_eq!(messages[0].role, Role::System);
            assert_eq!(messages[1].role, Role::User);
            assert_eq!(messages[1].content, report("ZeroDivisionError", SOURCE));
        }
        other => panic!("unexpected command {:?}", other),
    }
}

#[test]
fn a_reply_that_is_a_patch_is_handed_out_and_the_program_run_again() {
    let mut machine = machine(None);
    fail_and_ask(&mut machine, "ZeroDivisionError");
    let command = machine.step(Event::ReplyArrived(PATCH.to_string())).unwrap();
    assert_eq!(machine.phase(), Phase::PatchApplied);
    match command {
        Command::ApplyPatch(change) => {
            assert_eq!(change.file_name, "buggy.py");
            assert_eq!(change.changes.len(), 1);
            assert_eq!(change.changes[0].new_line, "x = 1");
        }
        other => panic!("unexpected command {:?}", other),
    }
    let history = machine.history();
    assert_eq!(history.len(), 3);
    assert_eq!(history[2].role, Role::Assistant);
    assert_eq!(history[2].content, PATCH);
    assert!(matches!(machine.step(Event::PatchSettled(Ok(()))), Some(Command::RunProbe)));
    assert_eq!(machine.phase(), Phase::Running);
    assert!(matches!(machine.step(success()), Some(Command::Stop)));
    assert_eq!(machine.phase(), Phase::Succeeded);
}

#[test]
fn an_unparsable_reply_applies_no_patch_and_runs_the_program_again() {
    let mut machine = machine(None);
    fail_and_ask(&mut machine, "boom");
    let command = machine.step(Event::ReplyArrived("Sure! Here is the fix.".to_string()));
    assert!(matches!(command, Some(Command::Proceed)));
    assert_eq!(machine.phase(), Phase::PatchSkipped);
    assert_eq!(machine.setback(), FixError::PatchParseFailure);
    assert_eq!(machine.history().len(), 3);
    assert!(matches!(machine.step(Event::Proceed), Some(Command::RunProbe)));
    assert_eq!(machine.phase(), Phase::Running);
}

#[test]
fn a_bounded_run_gives_up_on_unparsable_replies() {
    let mut machine = machine(Some(1));
    fail_and_ask(&mut machine, "boom");
    assert!(matches!(
        machine.step(Event::ReplyArrived("not json".to_string())),
        Some(Command::Proceed)
    ));
    assert!(matches!(machine.step(Event::Proceed), Some(Command::RunProbe)));
    assert!(matches!(machine.step(failure("boom")), Some(Command::Proceed)));
    assert!(matches!(machine.step(Event::Proceed), Some(Command::Stop)));
    assert_eq!(machine.phase(), Phase::GaveUp);
    assert!(machine.is_finished());
    assert_eq!(machine.ending(), Some(Err(FixError::PatchParseFailure)));
    assert_eq!(machine.setback(), FixError::PatchParseFailure);
    assert_eq!(machine.attempts(), 1);
    assert_eq!(machine.history().len(), 3);
}

#[test]
fn an_unbounded_run_keeps_asking() {
    let mut machine = machine(None);
    for round in 1..=20u64 {
        let command = fail_and_ask(&mut machine, "boom");
        assert!(matches!(command, Command::RequestPatch(_)));
        assert_eq!(machine.attempts(), round);
        machine.step(Event::ReplyArrived("still not json".to_string())).unwrap();
        machine.step(Event::Proceed).unwrap();
        assert_eq!(machine.phase(), Phase::Running);
    }
    assert_eq!(machine.history().len(), 41);
}

#[test]
fn every_report_quotes_the_program_as_it_first_was() {
    let mut machine = machine(None);
    for diagnostic in ["first", "second", "third"] {
        match fail_and_ask(&mut machine, diagnostic) {
            Command::RequestPatch(messages) => {
                assert_eq!(messages.last().unwrap().content, report(diagnostic, SOURCE));
            }
            other => panic!("unexpected command {:?}", other),
        }
        machine.step(Event::ReplyArrived(PATCH.to_string())).unwrap();
        machine.step(Event::PatchSettled(Ok(()))).unwrap();
    }
}

#[test]
fn a_bound_of_zero_gives_up_at_the_first_failure() {
    let mut machine = machine(Some(0));
    assert!(matches!(machine.step(failure("boom")), Some(Command::Proceed)));
    assert!(matches!(machine.step(Event::Proceed), Some(Command::Stop)));
    assert_eq!(machine.phase(), Phase::GaveUp);
    assert_eq!(machine.setback(), FixError::ExecutionFailure);
    assert_eq!(machine.attempts(), 0);
    assert_eq!(machine.history().len(), 1);
}

#[test]
fn a_bounded_run_asks_exactly_as_often_as_allowed() {
    let mut machine = machine(Some(3));
    let mut asked = 0;
    loop {
        match machine.step(failure("boom")).unwrap() {
            Command::Proceed => {}
            other => panic!("unexpected command {:?}", other),
        }
        match machine.step(Event::Proceed).unwrap() {
            Command::RequestPatch(_) => asked += 1,
            Command::Stop => break,
            other => panic!("unexpected command {:?}", other),
        }
        machine.step(Event::ReplyArrived(PATCH.to_string())).unwrap();
        machine.step(Event::PatchSettled(Ok(()))).unwrap();
    }
    assert_eq!(asked, 3);
    assert_eq!(machine.phase(), Phase::GaveUp);
    assert_eq!(machine.setback(), FixError::ExecutionFailure);
}

#[test]
fn a_patch_that_cannot_be_applied_is_a_setback_and_the_run_goes_on() {
    let mut machine = machine(Some(1));
    fail_and_ask(&mut machine, "boom");
    machine.step(Event::ReplyArrived(PATCH.to_string())).unwrap();
    let command = machine.step(Event::PatchSettled(Err(ApplyError::OutOfBounds)));
    assert!(matches!(command, Some(Command::RunProbe)));
    assert_eq!(machine.phase(), Phase::Running);
    assert_eq!(machine.setback(), FixError::PatchApplyFailure);
    machine.step(failure("boom")).unwrap();
    assert!(matches!(machine.step(Event::Proceed), Some(Command::Stop)));
    assert_eq!(machine.setback(), FixError::PatchApplyFailure);
}

#[test]
fn a_patch_without_files_is_skipped() {
    let mut machine = machine(None);
    fail_and_ask(&mut machine, "boom");
    let reply = r#"{"intent":"i","explanation":"e","files":[]}"#;
    let command = machine.step(Event::ReplyArrived(reply.to_string()));
    assert!(matches!(command, Some(Command::Proceed)));
    assert_eq!(machine.phase(), Phase::PatchSkipped);
}

#[test]
fn a_service_failure_ends_the_run() {
    let mut machine = machine(None);
    fail_and_ask(&mut machine, "boom");
    assert!(matches!(machine.step(Event::ServiceFailed), Some(Command::Stop)));
    assert_eq!(machine.phase(), Phase::GaveUp);
    assert_eq!(machine.setback(), FixError::ServiceFailure);
    assert_eq!(machine.history().len(), 2);
}

#[test]
fn events_that_are_not_awaited_change_nothing() {
    let mut machine = machine(None);
    assert!(machine.step(Event::Proceed).is_none());
    assert!(machine.step(Event::ReplyArrived(PATCH.to_string())).is_none());
    assert!(machine.step(Event::ServiceFailed).is_none());
    assert!(machine.step(Event::PatchSettled(Ok(()))).is_none());
    assert_eq!(machine.phase(), Phase::Running);
    assert_eq!(machine.history().len(), 1);
    machine.step(failure("boom")).unwrap();
    assert!(machine.step(success()).is_none());
    assert!(machine.step(Event::ReplyArrived(PATCH.to_string())).is_none());
    assert_eq!(machine.phase(), Phase::Failed);
    machine.step(Event::Proceed).unwrap();
    assert!(machine.step(Event::Proceed).is_none());
    assert!(machine.step(success()).is_none());
    assert!(machine.step(Event::PatchSettled(Ok(()))).is_none());
    assert_eq!(machine.phase(), Phase::AwaitingPatch);
    assert_eq!(machine.history().len(), 2);
    machine.step(Event::ReplyArrived(PATCH.to_string())).unwrap();
    assert!(machine.step(Event::Proceed).is_none());
    assert!(machine.step(success()).is_none());
    assert_eq!(machine.phase(), Phase::PatchApplied);
}

#[test]
fn a_finished_run_takes_no_more_events() {
    let mut machine = machine(None);
    machine.step(success()).unwrap();
    assert!(machine.step(success()).is_none());
    assert!(machine.step(failure("boom")).is_none());
    assert!(machine.step(Event::Proceed).is_none());
    assert!(machine.step(Event::ReplyArrived(PATCH.to_string())).is_none());
    assert!(machine.step(Event::ServiceFailed).is_none());
    assert!(machine.step(Event::PatchSettled(Ok(()))).is_none());
    assert_eq!(machine.phase(), Phase::Succeeded);
}
