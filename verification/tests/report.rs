use shunit::capture::{CaptureResult, ExitOutcome};
use shunit::logline::LogLine;
use shunit::model::{Elapsed, Properties, Property, TestCase, TestError, TestSuite};
use shunit::report::{
    classify, exit_code_message, failure_body, outcome, spawn_failure, SpawnError, TestRun,
};
use shunit::timestamp::Timestamp;

fn line(secs: i64, text: &str) -> LogLine {
    LogLine::new(Timestamp::new(secs, 0), text.to_string())
}

fn captured(exit_status: ExitOutcome, stdout: Vec<LogLine>, stderr: Vec<LogLine>) -> CaptureResult {
    CaptureResult { exit_status, stdout, stderr }
}

fn spawn_error(message: &str) -> SpawnError {
    SpawnError::new(message.to_string())
}

#[test]
fn a_script_that_exits_with_zero_passes() {
    assert_eq!(classify(&captured(ExitOutcome::Code(0), vec![line(1, "fine\n")], vec![])), None);
    assert_eq!(classify(&captured(ExitOutcome::Success, vec![], vec![line(1, "noise\n")])), None);
}

#[test]
fn a_script_that_exits_with_seven_fails() {
    let failure = classify(&captured(ExitOutcome::Code(7), vec![], vec![])).unwrap();
    assert!(failure.message.contains("7"));
    assert_eq!(failure.message, "Non-zero exit-code: 7");
    assert_eq!(failure.error_type, "Assertion failed");
    assert_eq!(failure.body, "");
}

#[test]
fn a_script_ended_by_a_signal_fails_with_minus_one() {
    let failure = classify(&captured(ExitOutcome::Signal, vec![], vec![])).unwrap();
    assert_eq!(failure.message, "Non-zero exit-code: -1");
    assert_eq!(failure.error_type, "Assertion failed");
}

#[test]
fn exit_code_messages_are_exact() {
    assert_eq!(exit_code_message(1), "Non-zero exit-code: 1");
    assert_eq!(exit_code_message(127), "Non-zero exit-code: 127");
    assert_eq!(exit_code_message(-1), "Non-zero exit-code: -1");
    assert_eq!(exit_code_message(0), "Non-zero exit-code: 0");
    assert_eq!(exit_code_message(i32::MIN), "Non-zero exit-code: -2147483648");
}

#[test]
fn the_body_is_the_merged_and_joined_output() {
    let stdout = vec![line(1, "out 1\n"), line(3, "out 2\n")];
    let stderr = vec![line(2, "err 1\n"), line(4, "err 2\n")];
    assert_eq!(failure_body(&stdout, &stderr), "out 1\nerr 1\nout 2\nerr 2\n");
    let failure = classify(&captured(ExitOutcome::Code(2), stdout, stderr)).unwrap();
    assert_eq!(failure.body, "out 1\nerr 1\nout 2\nerr 2\n");
}

#[test]
fn the_body_merges_before_it_joins() {
    // The two halves of the line on standard output are apart in time, and
    // standard error writes in between.
    let stdout = vec![line(1, "be"), line(3, "gin\n")];
    let stderr = vec![line(2, "mid\n")];
    assert_eq!(failure_body(&stdout, &stderr), "bemid\ngin\n");
}

#[test]
fn the_body_puts_stdout_first_on_equal_times() {
    let stdout = vec![line(1, "x\n")];
    let stderr = vec![line(1, "y\n")];
    assert_eq!(failure_body(&stdout, &stderr), "x\ny\n");
    assert_eq!(failure_body(&[], &[]), "");
}

#[test]
fn a_script_that_cannot_be_run_is_an_io_error() {
    let failure = spawn_failure(&spawn_error("No such file or directory (os error 2)"));
    assert_eq!(
        failure,
        TestError {
            message: "No such file or directory (os error 2)".to_string(),
            error_type: "IO error".to_string(),
            body: String::new(),
        }
    );
}

#[test]
fn an_outcome_carries_names_time_and_failure() {
    let run = Ok(captured(ExitOutcome::Code(3), vec![line(1, "a\n")], vec![]));
    let case = outcome("t.sh".to_string(), "/abs/t.sh".to_string(), Elapsed::new(2, 500), &run);
    assert_eq!(
        case,
        TestCase {
            classname: "/abs/t.sh".to_string(),
            name: "t.sh".to_string(),
            time: Elapsed::new(2, 500),
            error: Some(TestError {
                message: "Non-zero exit-code: 3".to_string(),
                error_type: "Assertion failed".to_string(),
                body: "a\n".to_string(),
            }),
        }
    );
    let passed = Ok(captured(ExitOutcome::Success, vec![line(1, "a\n")], vec![]));
    let case = outcome("t.sh".to_string(), "/abs/t.sh".to_string(), Elapsed::zero(), &passed);
    assert_eq!(case.error, None);
    let missing = Err(spawn_error("not found"));
    let case = outcome("t.sh".to_string(), "t.sh".to_string(), Elapsed::zero(), &missing);
    assert_eq!(case.error.unwrap().error_type, "IO error");
}

#[test]
fn a_run_without_scripts_gives_an_empty_report() {
    let run = TestRun::new();
    assert_eq!(run.len(), 0);
    assert_eq!(run.errors(), 0);
    assert_eq!(run.failures(), 0);
    assert!(run.has_room());
    let suite = run.into_suite(None, Elapsed::zero(), Properties::default());
    assert_eq!(suite.tests, 0);
    assert_eq!(suite.errors, 0);
    assert_eq!(suite.failures, 0);
    assert!(suite.testcases.is_empty());
    assert_eq!(suite.system_out, "");
    assert_eq!(suite.system_err, "");
    assert_eq!(suite.name, "Unknown");
    assert_eq!(suite, TestSuite { name: "Unknown".to_string(), ..TestSuite::default() });
}

#[test]
fn a_script_that_cannot_be_run_does_not_stop_the_next() {
    let mut run = TestRun::new();
    run.record(
        "./nowhere.sh".to_string(),
        "./nowhere.sh".to_string(),
        Elapsed::new(0, 1000),
        Err(spawn_error("No such file or directory (os error 2)")),
    );
    run.record(
        "./ok.sh".to_string(),
        "/work/ok.sh".to_string(),
        Elapsed::new(1, 0),
        Ok(captured(ExitOutcome::Success, vec![line(5, "all good\n")], vec![])),
    );
    assert_eq!(run.len(), 2);
    let suite = run.into_suite(Some("/work".to_string()), Elapsed::new(1, 2000), Properties::default());
    assert_eq!(suite.tests, 2);
    assert_eq!(suite.errors, 1);
    assert_eq!(suite.failures, 0);
    assert_eq!(suite.testcases[0].error.as_ref().unwrap().error_type, "IO error");
    assert_eq!(
        suite.testcases[0].error.as_ref().unwrap().message,
        "No such file or directory (os error 2)"
    );
    assert_eq!(suite.testcases[0].error.as_ref().unwrap().body, "");
    assert_eq!(suite.testcases[1].error, None);
    assert_eq!(suite.testcases[1].name, "./ok.sh");
    assert_eq!(suite.testcases[1].classname, "/work/ok.sh");
    assert_eq!(suite.testcases[1].time, Elapsed::new(1, 0));
}

#[test]
fn a_script_without_an_absolute_path_is_an_io_error() {
    let mut run = TestRun::new();
    run.record_unresolved(
        "./gone.sh".to_string(),
        Elapsed::new(0, 7),
        spawn_error("No such file or directory (os error 2)"),
    );
    run.record(
        "./ok.sh".to_string(),
        "/work/ok.sh".to_string(),
        Elapsed::new(1, 0),
        Ok(captured(ExitOutcome::Success, vec![], vec![])),
    );
    let suite = run.into_suite(None, Elapsed::new(1, 7), Properties::default());
    assert_eq!(suite.tests, 2);
    assert_eq!(suite.errors, 1);
    assert_eq!(suite.failures, 0);
    assert_eq!(
        suite.testcases[0],
        TestCase {
            classname: "./gone.sh".to_string(),
            name: "./gone.sh".to_string(),
            time: Elapsed::new(0, 7),
            error: Some(TestError {
                message: "No such file or directory (os error 2)".to_string(),
                error_type: "IO error".to_string(),
                body: String::new(),
            }),
        }
    );
    assert_eq!(suite.testcases[1].error, None);
}

#[test]
fn a_report_counts_and_collects() {
    let mut run = TestRun::new();
    run.record(
        "a.sh".to_string(),
        "/w/a.sh".to_string(),
        Elapsed::new(1, 0),
        Ok(captured(ExitOutcome::Code(1), vec![line(1, "a out\n")], vec![line(2, "a err\n")])),
    );
    run.record(
        "b.sh".to_string(),
        "/w/b.sh".to_string(),
        Elapsed::new(2, 0),
        Ok(captured(ExitOutcome::Success, vec![line(3, "b out\n")], vec![])),
    );
    assert_eq!((run.len(), run.errors(), run.failures()), (2, 0, 1));
    run.record("c.sh".to_string(), "c.sh".to_string(), Elapsed::new(0, 5), Err(spawn_error("denied")));
    assert_eq!((run.len(), run.errors(), run.failures()), (3, 1, 1));
    run.record(
        "d.sh".to_string(),
        "/w/d.sh".to_string(),
        Elapsed::new(3, 0),
        Ok(captured(ExitOutcome::Signal, vec![], vec![line(4, "d err")])),
    );
    let properties = Properties::from_pairs(&[("HOME".to_string(), "/root".to_string())]);
    let suite = run.into_suite(Some("/w".to_string()), Elapsed::new(6, 5), properties.clone());
    assert_eq!(suite.tests, 4);
    assert_eq!(suite.failures, 2);
    assert_eq!(suite.errors, 1);
    assert_eq!(suite.name, "/w");
    assert_eq!(suite.time, Elapsed::new(6, 5));
    assert_eq!(suite.hostname, "");
    assert_eq!(suite.timestamp, "");
    assert_eq!(suite.properties, properties);
    assert_eq!(suite.system_out, "a out\nb out\n");
    assert_eq!(suite.system_err, "a err\nd err");
    let kinds: Vec<Option<&str>> = suite
        .testcases
        .iter()
        .map(|case| case.error.as_ref().map(|error| error.error_type.as_str()))
        .collect();
    assert_eq!(
        kinds,
        vec![Some("Assertion failed"), None, Some("IO error"), Some("Assertion failed")]
    );
    assert_eq!(suite.testcases[0].error.as_ref().unwrap().body, "a out\na err\n");
    assert_eq!(suite.testcases[3].error.as_ref().unwrap().message, "Non-zero exit-code: -1");
    assert_eq!(suite.testcases[3].error.as_ref().unwrap().body, "d err");
}

#[test]
fn properties_keep_pairs_in_order() {
    let pairs = vec![
        ("PATH".to_string(), "/bin".to_string()),
        ("EMPTY".to_string(), String::new()),
        ("PATH".to_string(), "again".to_string()),
    ];
    let properties = Properties::from_pairs(&pairs);
    assert_eq!(
        properties.properties,
        vec![
            Property { name: "PATH".to_string(), value: "/bin".to_string() },
            Property { name: "EMPTY".to_string(), value: String::new() },
            Property { name: "PATH".to_string(), value: "again".to_string() },
        ]
    );
    assert_eq!(Properties::from_pairs(&[]), Properties::default());
}

#[test]
fn defaults_are_empty() {
    assert_eq!(Property::default(), Property { name: String::new(), value: String::new() });
    assert_eq!(
        TestError::default(),
        TestError { message: String::new(), error_type: String::new(), body: String::new() }
    );
    let case = TestCase::default();
    assert_eq!(case.classname, "");
    assert_eq!(case.name, "");
    assert_eq!(case.time, Elapsed::zero());
    assert_eq!(case.error, None);
    let suite = TestSuite::default();
    assert_eq!(suite.tests, 0);
    assert_eq!(suite.errors, 0);
    assert_eq!(suite.failures, 0);
    assert!(suite.properties.properties.is_empty());
    assert!(suite.testcases.is_empty());
}

#[test]
fn copies_are_equal() {
    let error = TestError {
        message: "m".to_string(),
        error_type: "t".to_string(),
        body: "b".to_string(),
    };
    let case = TestCase {
        classname: "c".to_string(),
        name: "n".to_string(),
        time: Elapsed::new(1, 2),
        error: Some(error.clone()),
    };
    let suite = TestSuite {
        errors: 1,
        failures: 2,
        tests: 3,
        properties: Properties::from_pairs(&[("k".to_string(), "v".to_string())]),
        testcases: vec![case.clone(), TestCase::default()],
        ..TestSuite::default()
    };
    assert_eq!(error.clone(), error);
    assert_eq!(case.clone(), case);
    assert_eq!(suite.clone(), suite);
    assert_eq!(spawn_error("x").clone(), spawn_error("x"));
    assert_eq!(line(1, "l").clone(), line(1, "l"));
}
