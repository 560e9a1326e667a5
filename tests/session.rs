use journal::{AppendFailure, Event, JournalError, Moment, Stage};

fn configured() -> Stage {
    Stage::Start.step(Event::Config {
        home: Some("/tmp/j".to_string()),
        format: Some("YYYY-MM-DD".to_string()),
    })
}

fn located() -> Stage {
    configured()
        .step(Event::HomeStatus { exists: true, is_dir: true })
        .step(Event::Arguments { args: vec!["went".to_string(), "running".to_string()] })
        .step(Event::Clock { now: Moment { year: 2024, month: 5, day: 3, hour: 14, minute: 7 } })
}

fn failure(stage: Stage) -> JournalError {
    match stage {
        Stage::Failed { error } => error,
        other => panic!("expected a failure, got {:?}", other),
    }
}

#[test]
fn entry_for_existing_dated_file() {
    let stage = located();
    match &stage {
        Stage::Located { path, line } => {
            assert_eq!(path, "/tmp/j/2024-05-03.md");
            assert_eq!(line, "JOURNAL CLI 14:07 \u{1F551} -> went running\n");
        }
        other => panic!("unexpected stage {:?}", other),
    }
    let stage = stage.step(Event::TargetStatus { exists: true });
    assert!(matches!(stage, Stage::Ready { .. }));
    let stage = stage.step(Event::Appended { outcome: Ok(()) });
    match stage {
        Stage::Done { path } => {
            assert_eq!(journal::success_message(&path), "\u{2713} Entry added to /tmp/j/2024-05-03.md");
        }
        other => panic!("unexpected stage {:?}", other),
    }
}

#[test]
fn missing_home_variable_stops_first() {
    let stage = Stage::Start.step(Event::Config { home: None, format: Some("YYYY".to_string()) });
    let error = failure(stage);
    assert!(matches!(error, JournalError::HomeUnset));
    assert_eq!(error.message(), "JOURNAL_HOME environment variable is not set");
}

#[test]
fn missing_format_variable_stops_first() {
    let stage = Stage::Start.step(Event::Config { home: Some("/tmp/j".to_string()), format: None });
    let error = failure(stage);
    assert!(matches!(error, JournalError::FormatUnset));
    assert_eq!(error.message(), "JOURNAL_FORMAT environment variable is not set");
}

#[test]
fn both_variables_missing_names_home() {
    let stage = Stage::Start.step(Event::Config { home: None, format: None });
    assert!(matches!(failure(stage), JournalError::HomeUnset));
}

#[test]
fn home_path_absent() {
    let error = failure(configured().step(Event::HomeStatus { exists: false, is_dir: false }));
    assert_eq!(error.message(), "JOURNAL_HOME path does not exist: /tmp/j");
}

#[test]
fn home_path_not_a_directory() {
    let error = failure(configured().step(Event::HomeStatus { exists: true, is_dir: false }));
    assert!(matches!(error, JournalError::HomeNotDirectory { .. }));
    assert_eq!(error.message(), "JOURNAL_HOME is not a directory: /tmp/j");
}

#[test]
fn no_arguments_is_a_usage_error() {
    let stage = configured()
        .step(Event::HomeStatus { exists: true, is_dir: true })
        .step(Event::Arguments { args: Vec::new() });
    let error = failure(stage);
    assert_eq!(error.message(), "No journal entry provided. Usage: journal <your entry text>");
}

#[test]
fn absent_target_file_is_never_written() {
    let error = failure(located().step(Event::TargetStatus { exists: false }));
    assert_eq!(error.message(), "Journal file does not exist: /tmp/j/2024-05-03.md");
}

#[test]
fn open_failure_names_path_and_reason() {
    let stage = located()
        .step(Event::TargetStatus { exists: true })
        .step(Event::Appended { outcome: Err(AppendFailure::Open { reason: "denied".to_string() }) });
    let error = failure(stage);
    assert_eq!(error.message(), "Failed to open journal file \"/tmp/j/2024-05-03.md\": denied");
}

#[test]
fn open_failure_escapes_path_as_debug_form() {
    let stage = Stage::Start
        .step(Event::Config { home: Some("/tmp/a\\b".to_string()), format: Some("x".to_string()) })
        .step(Event::HomeStatus { exists: true, is_dir: true })
        .step(Event::Arguments { args: vec!["e".to_string()] })
        .step(Event::Clock { now: Moment { year: 2024, month: 5, day: 3, hour: 14, minute: 7 } })
        .step(Event::TargetStatus { exists: true })
        .step(Event::Appended { outcome: Err(AppendFailure::Open { reason: "e".to_string() }) });
    let error = failure(stage);
    assert_eq!(error.message(), "Failed to open journal file \"/tmp/a\\\\b/x.md\": e");
}

#[test]
fn open_failure_message_from_shown_path() {
    assert_eq!(
        journal::open_failure_message("\"/a\\\\b\"", "denied"),
        "Failed to open journal file \"/a\\\\b\": denied"
    );
}

#[test]
fn write_failure_names_reason() {
    let stage = located()
        .step(Event::TargetStatus { exists: true })
        .step(Event::Appended { outcome: Err(AppendFailure::Write { reason: "disk full".to_string() }) });
    let error = failure(stage);
    assert_eq!(error.message(), "Failed to write to journal file: disk full");
}

#[test]
fn failed_stage_ignores_later_events() {
    let stage = Stage::Start.step(Event::Config { home: None, format: None });
    let stage = stage.step(Event::TargetStatus { exists: true });
    let stage = stage.step(Event::Appended { outcome: Ok(()) });
    assert!(matches!(failure(stage), JournalError::HomeUnset));
}

#[test]
fn clock_reading_is_in_range() {
    match Event::clock() {
        Event::Clock { now } => {
            assert!(now.hour < 24 && now.minute < 60);
            assert!((1..=12).contains(&now.month) && (1..=31).contains(&now.day));
        }
        other => panic!("unexpected event {:?}", other),
    }
}

#[test]
fn unrelated_event_leaves_stage_unchanged() {
    let stage = configured().step(Event::TargetStatus { exists: true });
    match stage {
        Stage::Configured { home, format } => {
            assert_eq!(home, "/tmp/j");
            assert_eq!(format, "YYYY-MM-DD");
        }
        other => panic!("unexpected stage {:?}", other),
    }
}
