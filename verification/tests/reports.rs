use cargo_valgrind::{
    advance, exit_code, parse_report, Action, Event, Failure, Frame, LeakEntry, MetadataError,
    ReportParseError, ResolveError, Stage,
};

fn frame(function: &str, file: Option<&str>, line: Option<u64>) -> Frame {
    Frame { function: function.to_string(), file: file.map(|name| name.to_string()), line }
}

fn entry(bytes: Option<u64>, functions: &[&str]) -> LeakEntry {
    LeakEntry {
        leaked_bytes: bytes,
        frames: functions.iter().map(|name| frame(name, None, None)).collect(),
    }
}

#[test]
fn empty_report_has_no_leaks() {
    let leaks = parse_report(&Vec::new()).unwrap();
    assert!(leaks.is_empty());
}

#[test]
fn one_entry_gives_one_leak() {
    let entries = vec![LeakEntry {
        leaked_bytes: Some(8),
        frames: vec![frame("malloc", None, None), frame("main", Some("main.rs"), Some(3))],
    }];
    let leaks = parse_report(&entries).unwrap();
    assert_eq!(leaks.len(), 1);
    assert_eq!(leaks[0].leaked_bytes(), 8);
    let stack = leaks[0].back_trace();
    assert_eq!(stack.len(), 2);
    assert_eq!(stack[0].function, "malloc");
    assert_eq!(stack[0].file, None);
    assert_eq!(stack[0].line, None);
    assert_eq!(stack[1].function, "main");
    assert_eq!(stack[1].file, Some("main.rs".to_string()));
    assert_eq!(stack[1].line, Some(3));
}

#[test]
fn many_entries_keep_their_order() {
    let entries = vec![
        entry(Some(32), &["z", "a", "a"]),
        entry(Some(0), &[]),
        entry(Some(u64::MAX), &["b", "a"]),
    ];
    let leaks = parse_report(&entries).unwrap();
    assert_eq!(leaks.len(), 3);
    let bytes: Vec<u64> = leaks.iter().map(|leak| leak.leaked_bytes()).collect();
    assert_eq!(bytes, vec![32, 0, u64::MAX]);
    let names: Vec<Vec<String>> = leaks
        .iter()
        .map(|leak| leak.back_trace().iter().map(|frame| frame.function.clone()).collect())
        .collect();
    assert_eq!(
        names,
        vec![
            vec!["z".to_string(), "a".to_string(), "a".to_string()],
            vec![],
            vec!["b".to_string(), "a".to_string()],
        ]
    );
}

#[test]
fn entry_without_byte_count_is_refused() {
    let entries = vec![entry(Some(4), &["f"]), entry(None, &["g"]), entry(Some(2), &["h"])];
    assert_eq!(parse_report(&entries).err(), Some(ReportParseError::MissingByteCount));
    assert_eq!(
        parse_report(&vec![entry(None, &[])]).err(),
        Some(ReportParseError::MissingByteCount)
    );
    assert_eq!(
        ReportParseError::MissingByteCount.message(),
        "Invalid report: a leak without its byte count"
    );
}

#[test]
fn stages_follow_one_another() {
    let mut stage = Stage::Start;
    let expected = [Stage::MetadataLoaded, Stage::TargetResolved, Stage::Built, Stage::Analyzed];
    for next in expected {
        assert!(!stage.finished());
        stage = advance(stage, Event::Done);
        assert_eq!(stage, next);
    }
    assert_eq!(advance(stage, Event::Done), Stage::Analyzed);
    assert_eq!(advance(stage, Event::Report(0)), Stage::Clean);
    assert_eq!(advance(stage, Event::Report(1)), Stage::HasLeaks);
    assert_eq!(advance(stage, Event::Report(7)), Stage::HasLeaks);
    assert_eq!(advance(Stage::Built, Event::Report(0)), Stage::Built);
}

#[test]
fn failures_end_the_run() {
    let stages = [Stage::Start, Stage::MetadataLoaded, Stage::TargetResolved, Stage::Built, Stage::Analyzed];
    for stage in stages {
        let failed = advance(stage, Event::Failed(Failure::BuildFailed));
        assert_eq!(failed, Stage::Failed(Failure::BuildFailed));
        assert!(failed.finished());
        assert_eq!(advance(failed, Event::Done), failed);
        assert_eq!(advance(failed, Event::Failed(Failure::Metadata)), failed);
    }
    assert_eq!(advance(Stage::Clean, Event::Failed(Failure::ReportParse)), Stage::Clean);
    assert_eq!(advance(Stage::HasLeaks, Event::Report(0)), Stage::HasLeaks);
}

#[test]
fn exit_codes_of_final_stages() {
    assert_eq!(exit_code(Stage::Clean), 0);
    assert_eq!(exit_code(Stage::HasLeaks), 1);
    assert_eq!(exit_code(Stage::Failed(Failure::TargetNotFound)), 1);
    assert_eq!(exit_code(Stage::Failed(Failure::AnalysisInvocation)), 1);
}

#[test]
fn each_stage_has_its_action() {
    assert_eq!(Stage::Start.action(), Action::LoadMetadata);
    assert_eq!(Stage::MetadataLoaded.action(), Action::ResolveTarget);
    assert_eq!(Stage::TargetResolved.action(), Action::BuildTarget);
    assert_eq!(Stage::Built.action(), Action::Analyze);
    assert_eq!(Stage::Analyzed.action(), Action::ReadReport);
    assert_eq!(Stage::Clean.action(), Action::Exit(0));
    assert_eq!(Stage::HasLeaks.action(), Action::Exit(1));
    assert_eq!(Stage::Failed(Failure::ManifestPath).action(), Action::Exit(1));
}

#[test]
fn errors_become_failures() {
    assert_eq!(Failure::of_metadata(MetadataError::Malformed), Failure::Metadata);
    assert_eq!(Failure::of_metadata(MetadataError::UnsupportedVersion), Failure::Metadata);
    assert_eq!(Failure::of_resolve(ResolveError::AmbiguousTarget), Failure::AmbiguousTarget);
    assert_eq!(Failure::of_resolve(ResolveError::TargetNotFound), Failure::TargetNotFound);
    assert_eq!(Failure::of_report(ReportParseError::MissingByteCount), Failure::ReportParse);
    assert_eq!(Failure::of_report(ReportParseError::Malformed), Failure::ReportParse);
}

#[test]
fn a_whole_run_with_leaks() {
    let events = [Event::Done, Event::Done, Event::Done, Event::Done, Event::Report(2)];
    let mut stage = Stage::Start;
    for event in events {
        stage = advance(stage, event);
    }
    assert_eq!(stage, Stage::HasLeaks);
    assert!(stage.finished());
    assert_eq!(exit_code(stage), 1);
}
