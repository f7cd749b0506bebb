use cargo_foreach::report::ExitStatus;
use cargo_foreach::run::COMPLETED_EXIT_CODE;
use cargo_foreach::run::DispatchOutcome;
use cargo_foreach::run::MISSING_COMMAND_EXIT_CODE;
use cargo_foreach::run::ScanRun;
use cargo_foreach::run::StderrRouting;
use cargo_foreach::run::child_stderr_routing;
use cargo_foreach::run::outcome_is_fatal;
use cargo_foreach::run::split_command;
use cargo_foreach::scan::Entry;

fn project(name: &str) -> Entry {
    Entry {
        name: name.to_string(),
        is_dir: true,
        has_manifest: true,
        has_internal_skip: false,
        has_sibling_skip: false,
    }
}

#[test]
fn no_command_is_detected() {
    assert!(split_command(Vec::new()).is_none());
    assert_eq!(MISSING_COMMAND_EXIT_CODE, 1);
}

#[test]
fn command_and_args_split() {
    let rest = vec!["echo".to_string(), "-n".to_string(), "hello".to_string()];
    let inv = split_command(rest).unwrap();
    assert_eq!(inv.command, "echo");
    assert_eq!(inv.args, vec!["-n", "hello"]);
}

#[test]
fn quiet_discards_child_stderr() {
    assert_eq!(child_stderr_routing(true), StderrRouting::Discard);
    assert_eq!(child_stderr_routing(false), StderrRouting::Inherit);
}

#[test]
fn only_spawn_failure_is_fatal() {
    assert!(outcome_is_fatal(&DispatchOutcome::SpawnFailed));
    let failed = DispatchOutcome::Completed(ExitStatus { success: false, code: Some(101) });
    assert!(!outcome_is_fatal(&failed));
    let signalled = DispatchOutcome::Completed(ExitStatus { success: false, code: None });
    assert!(!outcome_is_fatal(&signalled));
}

#[test]
fn run_hands_out_directories_in_scan_order() {
    let entries = vec![project("beta"), project("alpha"), project("gamma")];
    let mut run = ScanRun::new(entries, false, true);
    let mut seen: Vec<String> = Vec::new();
    let mut markers: Vec<String> = Vec::new();
    while let Some(dir) = run.next_dir() {
        if let Some(marker) = run.marker_line(&dir) {
            markers.push(marker);
        }
        seen.push(dir);
    }
    assert_eq!(seen, vec!["alpha", "beta", "gamma"]);
    assert_eq!(markers, vec![">> alpha", ">> beta", ">> gamma"]);
    assert_eq!(run.exit_code(), 0);
}

#[test]
fn quiet_run_prints_no_markers_and_no_diagnostics() {
    let entries = vec![project("one"), project("two")];
    let mut run = ScanRun::new(entries, true, false);
    while let Some(dir) = run.next_dir() {
        assert_eq!(run.marker_line(&dir), None);
        let failed = ExitStatus { success: false, code: Some(1) };
        assert_eq!(run.diagnostic(&failed), None);
    }
    assert_eq!(run.exit_code(), 0);
}

#[test]
fn all_successes_still_exit_zero_after_many_dispatches() {
    let entries = vec![project("a"), project("b"), project("c"), project("d")];
    let mut run = ScanRun::new(entries, false, false);
    let mut dispatched = 0;
    while let Some(_dir) = run.next_dir() {
        let ok = ExitStatus { success: true, code: Some(0) };
        assert_eq!(run.diagnostic(&ok), None);
        dispatched += 1;
    }
    assert_eq!(dispatched, 4);
    assert_eq!(run.exit_code(), COMPLETED_EXIT_CODE);
    assert_eq!(COMPLETED_EXIT_CODE, 0);
}

#[test]
fn failures_are_reported_but_do_not_stop_the_scan() {
    let entries = vec![project("bad"), project("good")];
    let mut run = ScanRun::new(entries, false, false);

    let first = run.next_dir().unwrap();
    assert_eq!(first, "bad");
    let failed = ExitStatus { success: false, code: Some(101) };
    assert_eq!(
        run.diagnostic(&failed),
        Some("process didn't exit successfully (exit code: 101)".to_string())
    );

    let second = run.next_dir().unwrap();
    assert_eq!(second, "good");
    let ok = ExitStatus { success: true, code: Some(0) };
    assert_eq!(run.diagnostic(&ok), None);

    assert!(run.next_dir().is_none());
    assert_eq!(run.exit_code(), 0);
}

#[test]
fn skipped_and_unmarked_mix_dispatches_only_eligible() {
    let entries = vec![
        Entry {
            name: "a".to_string(),
            is_dir: true,
            has_manifest: true,
            has_internal_skip: true,
            has_sibling_skip: false,
        },
        project("b"),
        Entry {
            name: "c".to_string(),
            is_dir: true,
            has_manifest: false,
            has_internal_skip: false,
            has_sibling_skip: false,
        },
    ];
    let mut run = ScanRun::new(entries, false, false);
    assert_eq!(run.next_dir(), Some("b".to_string()));
    assert_eq!(run.next_dir(), None);
    assert_eq!(run.exit_code(), 0);
}
