use fix::error::FixError;
use fix::probe::{Language, Outcome};

#[test]
fn exit_code_zero_is_success_with_the_output() {
    let outcome = Outcome::classify(0, "hello\n".to_string(), "warning\n".to_string());
    assert!(outcome.is_success());
    assert!(matches!(outcome, Outcome::Success { stdout } if stdout == "hello\n"));
}

#[test]
fn exit_code_one_is_failure_with_the_diagnostic() {
    let outcome = Outcome::classify(1, "partial".to_string(), "Traceback".to_string());
    assert!(!outcome.is_success());
    assert!(matches!(outcome, Outcome::Failure { stderr } if stderr == "Traceback"));
}

#[test]
fn every_other_exit_code_is_failure() {
    for code in [2, 3, 127, 255, -1, i32::MAX, i32::MIN] {
        let outcome = Outcome::classify(code, "out".to_string(), "err".to_string());
        assert!(matches!(outcome, Outcome::Failure { stderr } if stderr == "err"), "code {}", code);
    }
}

#[test]
fn python_files_run_with_python() {
    let language = Language::from_extension("py").unwrap();
    assert_eq!(language, Language::Python);
    assert_eq!(language.interpreter(), "python");
    assert_eq!(language.name(), "python");
}

#[test]
fn other_extensions_are_refused() {
    for extension in ["rs", "", "PY", "pyc", "p", "js", ".py"] {
        assert_eq!(
            Language::from_extension(extension),
            Err(FixError::UnrecognizableFileExtension),
            "extension {:?}",
            extension
        );
    }
}

#[test]
fn errors_are_shown_by_name() {
    assert_eq!(
        FixError::UnrecognizableFileExtension.to_string(),
        "UnrecognizableFileExtension"
    );
    assert_eq!(FixError::ExecutionFailure.to_string(), "ExecutionFailure");
    assert_eq!(FixError::ServiceFailure.to_string(), "ServiceFailure");
    assert_eq!(FixError::PatchParseFailure.to_string(), "PatchParseFailure");
    assert_eq!(FixError::PatchApplyFailure.to_string(), "PatchApplyFailure");
}

#[test]
fn shown_text_matches_the_debug_form() {
    let all = [
        FixError::UnrecognizableFileExtension,
        FixError::ExecutionFailure,
        FixError::ServiceFailure,
        FixError::PatchParseFailure,
        FixError::PatchApplyFailure,
    ];
    for error in all {
        assert_eq!(error.to_string(), format!("{:#?}", error));
    }
}
