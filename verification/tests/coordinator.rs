use tarballin::coordinator::State;
use tarballin::coordinator::TriggerAction;
use tarballin::coverage::Coverage;
use tarballin::coverage::Stats;
use tarballin::coverage::Trace;
use tarballin::events::ReqId;
use tarballin::events::Report;
use tarballin::events::Severity;
use tarballin::events::Trigger;
use tarballin::ignore::Ignore;
use tarballin::report::Diagnostic;
use tarballin::report::build_diagnostics;
use tarballin::runner::Input;

fn trace(line: u32, hits: usize) -> Trace {
    Trace {
        line,
        address: vec![],
        length: 0,
        stats: Stats { line: hits },
        fn_name: None,
    }
}

fn state_with(rules: &[u8], workspaces: Vec<Vec<u8>>) -> State {
    State::new(
        b"demo".to_vec(),
        b"/tmp/target".to_vec(),
        workspaces,
        Ignore::parse(rules).unwrap(),
        None,
    )
}

#[test]
fn write_trigger_only_starts_a_run() {
    // Scenario: a save with no run in flight sends exactly one Run command
    // and produces no report until a status arrives.
    let state = state_with(b"", vec![]);
    let action = state.handle_trigger(Trigger::Write(b"/ws/src/lib.rs".to_vec()));
    assert!(matches!(action, TriggerAction::StartRun));
}

#[test]
fn open_trigger_asks_for_a_report() {
    let state = state_with(b"", vec![]);
    let action = state.handle_trigger(Trigger::Open(b"/ws/src/lib.rs".to_vec()));
    match action {
        TriggerAction::LoadAndReport(path) => assert_eq!(path, b"/ws/src/lib.rs".to_vec()),
        other => panic!("expected LoadAndReport, found {:?}", other),
    }
}

#[test]
fn open_trigger_uses_the_held_snapshot() {
    let mut state = state_with(b"", vec![]);
    state.coverage = Some(Coverage { traces: vec![] });
    let action = state.handle_trigger(Trigger::Open(b"/ws/src/lib.rs".to_vec()));
    match action {
        TriggerAction::ReportHeld(path) => assert_eq!(path, b"/ws/src/lib.rs".to_vec()),
        other => panic!("expected ReportHeld, found {:?}", other),
    }
}

#[test]
fn exit_trigger_shuts_down() {
    let state = state_with(b"", vec![]);
    let action = state.handle_trigger(Trigger::Exit(ReqId::Num(7)));
    match action {
        TriggerAction::ShutDown(id) => assert_eq!(id, ReqId::Num(7)),
        other => panic!("expected ShutDown, found {:?}", other),
    }
    let (report, input) = state.on_exit(ReqId::Num(7));
    assert!(matches!(report, Report::Exit(ReqId::Num(7))));
    assert_eq!(input, Input::Exit);
}

#[test]
fn reserved_triggers_are_deferred() {
    let state = state_with(b"", vec![]);
    assert!(matches!(
        state.handle_trigger(Trigger::WorkDiag(ReqId::Num(1))),
        TriggerAction::Defer
    ));
    assert!(matches!(
        state.handle_trigger(Trigger::WorkDiagRefresh(ReqId::Num(2))),
        TriggerAction::Defer
    ));
    assert!(matches!(
        state.handle_trigger(Trigger::DocDiag(ReqId::Num(3), b"/a".to_vec())),
        TriggerAction::Defer
    ));
}

#[test]
fn starting_clears_coverage_and_reports_info() {
    let mut state = state_with(b"", vec![]);
    state.coverage = Some(Coverage { traces: vec![] });
    let report = state.on_starting();
    assert!(state.coverage.is_none());
    match report {
        Report::Message(sev, text) => {
            assert_eq!(sev, Severity::Info);
            assert_eq!(text, "starting tarpaulin");
        }
        other => panic!("expected a message, found {:?}", other),
    }
}

#[test]
fn success_bumps_generation_and_installs_snapshot() {
    let mut state = state_with(b"", vec![]);
    assert_eq!(state.generation, 1);
    let loaded = Coverage {
        traces: vec![(b"/ws/src/lib.rs".to_vec(), vec![trace(5, 0)])],
    };
    state.on_success(Some(loaded));
    assert_eq!(state.generation, 2);
    assert!(state.coverage.is_some());
    state.on_success(None);
    assert_eq!(state.generation, 3);
    assert!(state.coverage.is_none());
}

#[test]
fn failure_and_reset_report_their_severity() {
    let state = state_with(b"", vec![]);
    match state.on_failure() {
        Report::Message(sev, text) => {
            assert_eq!(sev, Severity::Error);
            assert_eq!(text, "tarpaulin failed to run");
        }
        other => panic!("expected a message, found {:?}", other),
    }
    match state.on_reset() {
        Report::Message(sev, text) => {
            assert_eq!(sev, Severity::Warning);
            assert_eq!(text, "restarting tarpaulin run");
        }
        other => panic!("expected a message, found {:?}", other),
    }
}

#[test]
fn workspace_roots_are_stripped_before_matching() {
    let state = state_with(b"src/*.rs\n", vec![b"/ws".to_vec()]);
    assert_eq!(state.strip_workspaces(b"/ws/src/lib.rs"), b"src/lib.rs".to_vec());
    assert_eq!(state.strip_workspaces(b"/ws"), b"".to_vec());
    assert_eq!(state.strip_workspaces(b"/elsewhere/a.rs"), b"/elsewhere/a.rs".to_vec());

    // The rule matches the relative path, so the absolute one is suppressed.
    let report = state
        .report_for_path(b"/ws/src/lib.rs".to_vec(), b"fn a() {}\n", &vec![trace(1, 0)])
        .unwrap();
    match report {
        Report::Plain(path, kept) => {
            assert_eq!(path, b"/ws/src/lib.rs".to_vec());
            assert!(kept.is_empty());
        }
        other => panic!("expected a plain report, found {:?}", other),
    }
}

#[test]
fn uncovered_line_five_yields_one_diagnostic_on_index_four() {
    // Scenario: a report whose hit count is zero for line 5 of a file with
    // no matching ignore rule produces exactly one diagnostic on 0-based
    // line 4, spanning the trimmed content.
    let state = state_with(b"", vec![]);
    let content: &[u8] = b"\n\n\n\n    covered();\n";
    let traces = vec![trace(5, 0)];
    let report = state
        .report_for_path(b"/ws/src/lib.rs".to_vec(), content, &traces)
        .unwrap();
    let kept = match report {
        Report::Plain(_, kept) => kept,
        other => panic!("expected a plain report, found {:?}", other),
    };
    assert_eq!(kept.len(), 1);
    let diags = build_diagnostics(content, &kept);
    assert_eq!(
        diags,
        vec![Diagnostic { line: 4, begin_character: 4, end_character: 14 }]
    );
}

#[test]
fn covered_lines_yield_no_diagnostics() {
    let content: &[u8] = b"fn a() {}\n";
    let traces = vec![trace(1, 3)];
    let diags = build_diagnostics(content, &traces);
    assert!(diags.is_empty());
}

#[test]
fn blanket_rule_suppresses_but_still_reports_empty() {
    // Scenario: an ignore rule `tests/*.rs` with no queries suppresses every
    // trace for a matching path; the file still gets its (empty) report so
    // stale markers are cleared.
    let state = state_with(b"tests/*.rs\n", vec![]);
    let traces = vec![trace(1, 0), trace(2, 0), trace(3, 0)];
    let report = state
        .report_for_path(b"tests/foo.rs".to_vec(), b"fn t() {}\n", &traces)
        .unwrap();
    match report {
        Report::Plain(path, kept) => {
            assert_eq!(path, b"tests/foo.rs".to_vec());
            assert!(kept.is_empty());
            let diags = build_diagnostics(b"fn t() {}\n", &kept);
            assert!(diags.is_empty());
        }
        other => panic!("expected a plain report, found {:?}", other),
    }
}

#[test]
fn same_snapshot_filters_identically() {
    // Idempotence: loading the same coverage twice and filtering with the
    // same ruleset produces identical per-file reports.
    let rules: &[u8] = b"src/main.rs\n\t(function_item) @fn\n";
    let content: &[u8] = b"fn main() {\n}\nfn other() {\n}\n";
    let traces = vec![trace(1, 0), trace(3, 0), trace(9, 0)];

    let lines_of = |state: &State| -> Vec<u32> {
        match state
            .report_for_path(b"src/main.rs".to_vec(), content, &traces)
            .unwrap()
        {
            Report::Plain(_, kept) => kept.iter().map(|t| t.line).collect(),
            other => panic!("expected a plain report, found {:?}", other),
        }
    };

    let mut first = state_with(rules, vec![]);
    let mut second = state_with(rules, vec![]);
    first.on_success(Some(Coverage { traces: vec![] }));
    second.on_success(Some(Coverage { traces: vec![] }));
    let a = lines_of(&first);
    let b = lines_of(&second);
    assert_eq!(a, b);
    assert_eq!(a, lines_of(&first));
}

#[test]
fn snapshot_lookup_finds_recorded_paths() {
    let cov = Coverage {
        traces: vec![
            (b"/ws/a.rs".to_vec(), vec![trace(1, 0)]),
            (b"/ws/b.rs".to_vec(), vec![trace(2, 1)]),
        ],
    };
    let found = cov.find_traces(b"/ws/b.rs").unwrap();
    assert_eq!(found.len(), 1);
    assert_eq!(found[0].line, 2);
    assert!(cov.find_traces(b"/ws/c.rs").is_none());
}

#[test]
fn duplicated_traces_keep_their_fields() {
    let original = Trace {
        line: 12,
        address: vec![64, 128],
        length: 3,
        stats: Stats { line: 2 },
        fn_name: Some("helper".to_string()),
    };
    let copy = original.duplicate();
    assert_eq!(copy.line, 12);
    assert_eq!(copy.address, vec![64, 128]);
    assert_eq!(copy.length, 3);
    assert_eq!(copy.stats.line, 2);
    assert_eq!(copy.fn_name.as_deref(), Some("helper"));
}
