use minios::{
    decimal_string, error_line, failed_line, ok_line, running_line, test_panic_handler,
    test_runner, CaseOutcome, QemuExitCode, Testable,
};

#[test]
fn exit_codes_match_the_port_protocol() {
    assert_eq!(QemuExitCode::Success.code(), 0x10);
    assert_eq!(QemuExitCode::Failed.code(), 0x11);
}

#[test]
fn decimal_rendering_exact_values() {
    assert_eq!(decimal_string(0), "0");
    assert_eq!(decimal_string(7), "7");
    assert_eq!(decimal_string(10), "10");
    assert_eq!(decimal_string(42), "42");
    assert_eq!(decimal_string(100), "100");
    assert_eq!(decimal_string(65535), "65535");
}

#[test]
fn transcript_line_builders() {
    assert_eq!(running_line(12), "Running 12 tests");
    assert_eq!(ok_line("alpha"), "alpha...\t[ok]");
    assert_eq!(failed_line(), "[failed]");
    assert_eq!(error_line("oops"), "Error: oops");
}

#[test]
fn runner_with_three_cases_one_aborting() {
    let names = vec![
        String::from("first_case"),
        String::from("second_case"),
        String::from("third_case"),
    ];
    let outcomes = vec![
        CaseOutcome::Passed,
        CaseOutcome::Passed,
        CaseOutcome::Aborted { description: String::from("assertion failed: 1 == 2") },
    ];
    let report = test_runner(&names, &outcomes);
    assert_eq!(report.exit, QemuExitCode::Failed);
    assert_eq!(report.lines.len(), 5);
    assert_eq!(report.lines[0], "Running 3 tests");
    assert_eq!(report.lines[1], "first_case...\t[ok]");
    assert_eq!(report.lines[2], "second_case...\t[ok]");
    assert_eq!(report.lines[3], "[failed]");
    assert_eq!(report.lines[4], "Error: assertion failed: 1 == 2");
}

#[test]
fn runner_with_zero_cases_succeeds_immediately() {
    let names: Vec<String> = Vec::new();
    let outcomes: Vec<CaseOutcome> = Vec::new();
    let report = test_runner(&names, &outcomes);
    assert_eq!(report.exit, QemuExitCode::Success);
    assert_eq!(report.lines.len(), 1);
    assert_eq!(report.lines[0], "Running 0 tests");
}

#[test]
fn runner_with_all_cases_passing() {
    let names = vec![String::from("one"), String::from("two")];
    let outcomes = vec![CaseOutcome::Passed, CaseOutcome::Passed];
    let report = test_runner(&names, &outcomes);
    assert_eq!(report.exit, QemuExitCode::Success);
    assert_eq!(report.lines.len(), 3);
    assert_eq!(report.lines[0], "Running 2 tests");
    assert_eq!(report.lines[1], "one...\t[ok]");
    assert_eq!(report.lines[2], "two...\t[ok]");
}

#[test]
fn runner_stops_at_the_first_abort() {
    let names = vec![String::from("a"), String::from("b"), String::from("c")];
    let outcomes = vec![
        CaseOutcome::Aborted { description: String::from("boom") },
        CaseOutcome::Passed,
        CaseOutcome::Passed,
    ];
    let report = test_runner(&names, &outcomes);
    assert_eq!(report.exit, QemuExitCode::Failed);
    assert_eq!(report.lines.len(), 3);
    assert_eq!(report.lines[0], "Running 3 tests");
    assert_eq!(report.lines[1], "[failed]");
    assert_eq!(report.lines[2], "Error: boom");
}

#[test]
fn panic_handler_reports_failed_exit() {
    let report = test_panic_handler("panicked at 'broken'");
    assert_eq!(report.exit, QemuExitCode::Failed);
    assert_eq!(report.lines.len(), 2);
    assert_eq!(report.lines[0], "[failed]");
    assert_eq!(report.lines[1], "Error: panicked at 'broken'");
}

struct TrivialCase;

impl Testable for TrivialCase {
    fn run(&self) {
        minios::trivial_assertion();
    }
}

#[test]
fn a_testable_case_runs_to_completion() {
    TrivialCase.run();
}
