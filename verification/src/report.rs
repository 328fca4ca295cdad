//! From captured runs to a report.
//!
//! A script passes when its process ends well. One that ends otherwise has
//! failed, and the report shows what it printed. One that could not be run
//! at all is an error of its own kind. Neither stops the run: every script
//! gets its outcome, and the report counts them.

use vstd::prelude::*;
use crate::capture::{CaptureResult, ExitOutcome};
use crate::decimal::{decimal, push_decimal};
use crate::join::{join_log_lines, joined, lemma_joined_keeps_text};
use crate::logline::{concat_lines, concat_texts, lemma_concat_texts_add, Fragment, LogLine};
use crate::merge::{merge_streams, merged};
use crate::model::{
    Elapsed, Properties, TestCase, TestCaseView, TestError, TestErrorView, TestSuite,
};

verus! {

/// Why a script could not be run: it was not found, could not be started,
/// or its output could not be read to the end.
#[derive(Debug, PartialEq, Eq)]
pub struct SpawnError {
    /// The error in words.
    pub message: String,
}

impl Clone for SpawnError {
    fn clone(&self) -> (copy: SpawnError)
        ensures
            copy == *self,
    {
        SpawnError { message: self.message.clone() }
    }
}

impl SpawnError {
    /// The error that `message` tells of.
    pub fn new(message: String) -> (error: SpawnError)
        ensures
            error.message == message,
    {
        SpawnError { message }
    }
}

/// The kind of failure of a script that could not be run.
pub open spec fn io_error_kind() -> Seq<char> {
    "IO error"@
}

/// The kind of failure of a script that ran and did not end well.
pub open spec fn assertion_kind() -> Seq<char> {
    "Assertion failed"@
}

/// The message for a script that ended with `code`.
pub open spec fn exit_message(code: int) -> Seq<char> {
    "Non-zero exit-code: "@ + decimal(code)
}

/// What a script printed, as one text: the fragments of both streams in
/// time order, glued into lines, the lines one after the other.
pub open spec fn transcript(stdout: Seq<Fragment>, stderr: Seq<Fragment>) -> Seq<char> {
    concat_texts(joined(merged(stdout, stderr)))
}

/// The failure of a script that ran and did not end well.
pub open spec fn assertion_failure(
    exit_status: ExitOutcome,
    stdout: Seq<Fragment>,
    stderr: Seq<Fragment>,
) -> TestErrorView {
    TestErrorView {
        message: exit_message(exit_status.reported_code()),
        error_type: assertion_kind(),
        body: transcript(stdout, stderr),
    }
}

/// The failure of a script that could not be run.
pub open spec fn io_failure(message: Seq<char>) -> TestErrorView {
    TestErrorView { message, error_type: io_error_kind(), body: Seq::empty() }
}

/// The failure that a run amounts to, if any: none where the script ran and
/// ended well.
pub open spec fn failure_of(run: Result<CaptureResult, SpawnError>) -> Option<TestErrorView> {
    match run {
        Ok(captured) => if captured.exit_status.succeeded() {
            None
        } else {
            Some(
                assertion_failure(
                    captured.exit_status,
                    captured.stdout.deep_view(),
                    captured.stderr.deep_view(),
                ),
            )
        },
        Err(error) => Some(io_failure(error.message@)),
    }
}

/// The outcome of a script, from its names, the time it took and its run.
pub open spec fn case_of(
    name: Seq<char>,
    classname: Seq<char>,
    time: Elapsed,
    run: Result<CaptureResult, SpawnError>,
) -> TestCaseView {
    TestCaseView { classname, name, time, error: failure_of(run) }
}

/// The name of a suite: the working directory, or "Unknown" where there is
/// none to be had.
pub open spec fn suite_name(working_dir: Option<String>) -> Seq<char> {
    match working_dir {
        Some(dir) => dir@,
        None => "Unknown"@,
    }
}

/// The two kinds of failure are told apart by their names.
pub proof fn lemma_kinds_differ()
    ensures
        io_error_kind() != assertion_kind(),
{
    reveal_strlit("IO error");
    reveal_strlit("Assertion failed");
    assert(io_error_kind().len() == 8);
    assert(assertion_kind().len() == 16);
}

/// The transcript is the text of the merged fragments: gluing them into
/// lines moves no character.
pub proof fn lemma_transcript_is_merged_text(stdout: Seq<Fragment>, stderr: Seq<Fragment>)
    ensures
        transcript(stdout, stderr) == concat_texts(merged(stdout, stderr)),
{
    lemma_joined_keeps_text(merged(stdout, stderr));
}

/// Writes the message for a script that ended with `code`.
pub fn exit_code_message(code: i32) -> (message: String)
    ensures
        message@ == exit_message(code as int),
{
    let mut message = String::from_str("Non-zero exit-code: ");
    push_decimal(&mut message, code);
    message
}

/// Puts together what a script printed: both streams merged in time order,
/// glued into lines, the lines one after the other.
pub fn failure_body(stdout: &[LogLine], stderr: &[LogLine]) -> (body: String)
    ensures
        body@ == transcript(stdout.deep_view(), stderr.deep_view()),
{
    let merged_lines = merge_streams(stdout, stderr);
    let lines = join_log_lines(merged_lines.as_slice());
    concat_lines(lines.as_slice())
}

/// Judges a run by how the process ended.
///
/// A process that ended well has no failure. Any other has one of the kind
/// "Assertion failed", with the exit code in its message and what the
/// script printed as its body.
pub fn classify(captured: &CaptureResult) -> (failure: Option<TestError>)
    ensures
        failure is None <==> captured.exit_status.succeeded(),
        failure matches Some(error) ==> error@ == assertion_failure(
            captured.exit_status,
            captured.stdout.deep_view(),
            captured.stderr.deep_view(),
        ),
{
    if captured.exit_status.is_success() {
        None
    } else {
        Some(
            TestError {
                message: exit_code_message(captured.exit_status.code()),
                error_type: String::from_str("Assertion failed"),
                body: failure_body(captured.stdout.as_slice(), captured.stderr.as_slice()),
            },
        )
    }
}

/// The failure of a script that could not be run: of the kind "IO error",
/// with the error's words as its message and an empty body.
pub fn spawn_failure(error: &SpawnError) -> (failure: TestError)
    ensures
        failure@ == io_failure(error.message@),
{
    TestError {
        message: error.message.clone(),
        error_type: String::from_str("IO error"),
        body: String::new(),
    }
}

/// Draws up the outcome of one script.
///
/// `name` is the script's path as given, `classname` its absolute path and
/// `time` how long the run took. The outcome carries a failure unless the
/// script ran and ended well.
pub fn outcome(
    name: String,
    classname: String,
    time: Elapsed,
    run: &Result<CaptureResult, SpawnError>,
) -> (case: TestCase)
    ensures
        case@ == case_of(name@, classname@, time, *run),
        case.error is None <==> (*run matches Ok(captured) && captured.exit_status.succeeded()),
{
    let error = match run {
        Ok(captured) => classify(captured),
        Err(error) => Some(spawn_failure(error)),
    };
    TestCase { classname, name, time, error }
}

/// The scripts run so far: their outcomes and what they printed.
pub struct TestRun {
    testcases: Vec<TestCase>,
    errors: u32,
    failures: u32,
    stdout_messages: Vec<LogLine>,
    stderr_messages: Vec<LogLine>,
}

/// What a `TestRun` stands for in contracts.
pub struct TestRunState {
    /// The outcomes, in the order of the scripts.
    pub cases: Seq<TestCaseView>,
    /// What the scripts that ran wrote to standard output.
    pub stdout: Seq<Fragment>,
    /// What the scripts that ran wrote to standard error.
    pub stderr: Seq<Fragment>,
}

/// The script could not be run.
pub open spec fn is_error(case: TestCaseView) -> bool {
    case.error matches Some(error) && error.error_type == io_error_kind()
}

/// The script ran and did not end well.
pub open spec fn is_failure(case: TestCaseView) -> bool {
    case.error matches Some(error) && error.error_type == assertion_kind()
}

impl TestRunState {
    /// No script run yet.
    pub open spec fn start() -> TestRunState {
        TestRunState { cases: Seq::empty(), stdout: Seq::empty(), stderr: Seq::empty() }
    }

    /// How many scripts could not be run.
    pub open spec fn errors(self) -> nat {
        self.cases.filter(|case: TestCaseView| is_error(case)).len()
    }

    /// How many scripts ran and did not end well.
    pub open spec fn failures(self) -> nat {
        self.cases.filter(|case: TestCaseView| is_failure(case)).len()
    }

    /// The state after one more script: its outcome comes last, and what it
    /// printed, if it ran, is added to what the others printed.
    pub open spec fn after(
        self,
        name: Seq<char>,
        classname: Seq<char>,
        time: Elapsed,
        run: Result<CaptureResult, SpawnError>,
    ) -> TestRunState {
        TestRunState {
            cases: self.cases.push(case_of(name, classname, time, run)),
            stdout: match run {
                Ok(captured) => self.stdout + captured.stdout.deep_view(),
                Err(_) => self.stdout,
            },
            stderr: match run {
                Ok(captured) => self.stderr + captured.stderr.deep_view(),
                Err(_) => self.stderr,
            },
        }
    }
}

proof fn lemma_filter_push<A>(s: Seq<A>, x: A, p: spec_fn(A) -> bool)
    ensures
        s.push(x).filter(p) == (if p(x) {
            s.filter(p).push(x)
        } else {
            s.filter(p)
        }),
{
    reveal(Seq::filter);
    assert(s.push(x).drop_last() =~= s);
}

/// The counts follow the outcomes: a script that could not be run adds one
/// error, one that ran and did not end well adds one failure, one that
/// passed adds neither; and there are never more of both than scripts.
pub proof fn lemma_counts(
    state: TestRunState,
    name: Seq<char>,
    classname: Seq<char>,
    time: Elapsed,
    run: Result<CaptureResult, SpawnError>,
)
    ensures
        state.errors() + state.failures() <= state.cases.len(),
        state.after(name, classname, time, run).errors() == state.errors() + (if run is Err {
            1nat
        } else {
            0nat
        }),
        state.after(name, classname, time, run).failures() == state.failures() + (if failure_of(
            run,
        ) is Some && run is Ok {
            1nat
        } else {
            0nat
        }),
{
    let case = case_of(name, classname, time, run);
    let errors = |case: TestCaseView| is_error(case);
    let failures = |case: TestCaseView| is_failure(case);
    lemma_kinds_differ();
    lemma_filter_push(state.cases, case, errors);
    lemma_filter_push(state.cases, case, failures);
    lemma_disjoint_counts(state.cases);
}

proof fn lemma_disjoint_counts(cases: Seq<TestCaseView>)
    ensures
        cases.filter(|case: TestCaseView| is_error(case)).len() + cases.filter(
            |case: TestCaseView| is_failure(case),
        ).len() <= cases.len(),
    decreases cases.len(),
{
    reveal(Seq::filter);
    if cases.len() > 0 {
        lemma_kinds_differ();
        lemma_disjoint_counts(cases.drop_last());
    }
}

/// What the scripts printed adds up: the text of a stream after a script is
/// the text before it followed by what the script wrote to that stream, and
/// a script that could not be run adds nothing.
pub proof fn lemma_output_adds_up(
    state: TestRunState,
    name: Seq<char>,
    classname: Seq<char>,
    time: Elapsed,
    run: Result<CaptureResult, SpawnError>,
)
    ensures
        concat_texts(state.after(name, classname, time, run).stdout) == concat_texts(state.stdout)
            + (match run {
            Ok(captured) => concat_texts(captured.stdout.deep_view()),
            Err(_) => Seq::empty(),
        }),
        concat_texts(state.after(name, classname, time, run).stderr) == concat_texts(state.stderr)
            + (match run {
            Ok(captured) => concat_texts(captured.stderr.deep_view()),
            Err(_) => Seq::empty(),
        }),
{
    if let Ok(captured) = run {
        lemma_concat_texts_add(state.stdout, captured.stdout.deep_view());
        lemma_concat_texts_add(state.stderr, captured.stderr.deep_view());
    }
}

/// A script has a failure exactly when it did not both run and end well.
pub proof fn lemma_failure_iff_not_passed(run: Result<CaptureResult, SpawnError>)
    ensures
        failure_of(run) is None <==> (run matches Ok(captured) && captured.exit_status.succeeded()),
        run is Err ==> failure_of(run)->0.error_type == io_error_kind(),
        (run matches Ok(captured) && !captured.exit_status.succeeded()) ==> failure_of(
            run,
        )->0.error_type == assertion_kind(),
{
}

/// A script's outcome is its own. Taking in a run leaves the outcomes
/// before it as they are, whatever they were, and the outcome that it adds
/// is that of the run alone: a script that ends well passes, also after
/// scripts that failed or could not be run.
pub proof fn lemma_outcomes_are_isolated(
    state: TestRunState,
    name: Seq<char>,
    classname: Seq<char>,
    time: Elapsed,
    run: Result<CaptureResult, SpawnError>,
)
    ensures
        state.after(name, classname, time, run).cases.len() == state.cases.len() + 1,
        forall|i: int|
            0 <= i < state.cases.len() ==> #[trigger] state.after(
                name,
                classname,
                time,
                run,
            ).cases[i] == state.cases[i],
        state.after(name, classname, time, run).cases.last() == case_of(
            name,
            classname,
            time,
            run,
        ),
        (run matches Ok(captured) && captured.exit_status.succeeded()) ==> state.after(
            name,
            classname,
            time,
            run,
        ).cases.last().error is None,
{
}

impl View for TestRun {
    type V = TestRunState;

    closed spec fn view(&self) -> TestRunState {
        TestRunState {
            cases: self.testcases.deep_view(),
            stdout: self.stdout_messages.deep_view(),
            stderr: self.stderr_messages.deep_view(),
        }
    }
}

impl TestRun {
    /// The counts are those of the outcomes, and the number of outcomes can
    /// be written in a report.
    #[verifier::type_invariant]
    spec fn well_formed(&self) -> bool {
        &&& self.errors == self@.errors()
        &&& self.failures == self@.failures()
        &&& self@.cases.len() <= u32::MAX
    }

    /// A run with no script yet.
    pub fn new() -> (run: TestRun)
        ensures
            run@ == TestRunState::start(),
    {
        let run = TestRun {
            testcases: Vec::new(),
            errors: 0,
            failures: 0,
            stdout_messages: Vec::new(),
            stderr_messages: Vec::new(),
        };
        proof {
            assert(run.testcases.deep_view() =~= Seq::<TestCaseView>::empty());
            assert(run.stdout_messages.deep_view() =~= Seq::<Fragment>::empty());
            assert(run.stderr_messages.deep_view() =~= Seq::<Fragment>::empty());
        }
        run
    }

    /// How many scripts have been taken in.
    pub fn len(&self) -> (n: usize)
        ensures
            n == self@.cases.len(),
    {
        self.testcases.len()
    }

    /// How many of the scripts taken in could not be run.
    pub fn errors(&self) -> (n: u32)
        ensures
            n == self@.errors(),
    {
        proof {
            use_type_invariant(self);
        }
        self.errors
    }

    /// How many of the scripts taken in ran and did not end well.
    pub fn failures(&self) -> (n: u32)
        ensures
            n == self@.failures(),
    {
        proof {
            use_type_invariant(self);
        }
        self.failures
    }

    /// Tells whether one more script can be taken in: the report counts
    /// scripts in 32 bits.
    pub fn has_room(&self) -> (r: bool)
        ensures
            r == (self@.cases.len() < u32::MAX),
    {
        self.testcases.len() < 0xFFFF_FFFFusize
    }

    /// The run with one more script taken in.
    fn with(
        self,
        name: String,
        classname: String,
        time: Elapsed,
        run: Result<CaptureResult, SpawnError>,
    ) -> (next: TestRun)
        requires
            self@.cases.len() < u32::MAX,
        ensures
            next@ == self@.after(name@, classname@, time, run),
    {
        let ghost before = self@;
        proof {
            use_type_invariant(&self);
            lemma_counts(before, name@, classname@, time, run);
        }
        let TestRun { testcases, errors, failures, stdout_messages, stderr_messages } = self;
        let mut testcases = testcases;
        let mut errors = errors;
        let mut failures = failures;
        let mut stdout_messages = stdout_messages;
        let mut stderr_messages = stderr_messages;
        let case = outcome(name, classname, time, &run);
        match run {
            Ok(captured) => {
                let mut captured = captured;
                stdout_messages.append(&mut captured.stdout);
                stderr_messages.append(&mut captured.stderr);
                if case.error.is_some() {
                    failures = failures + 1;
                }
            },
            Err(_) => {
                errors = errors + 1;
            },
        }
        testcases.push(case);
        proof {
            let after = before.after(name@, classname@, time, run);
            assert(testcases.deep_view() =~= after.cases);
            assert(stdout_messages.deep_view() =~= after.stdout);
            assert(stderr_messages.deep_view() =~= after.stderr);
        }
        TestRun { testcases, errors, failures, stdout_messages, stderr_messages }
    }

    /// Takes in the run of one more script: its outcome, as `outcome` draws
    /// it up, and what it printed.
    ///
    /// There must be room for it, see `has_room`.
    pub fn record(
        &mut self,
        name: String,
        classname: String,
        time: Elapsed,
        run: Result<CaptureResult, SpawnError>,
    )
        requires
            old(self)@.cases.len() < u32::MAX,
        ensures
            final(self)@ == old(self)@.after(name@, classname@, time, run),
    {
        let mut taken = TestRun::new();
        std::mem::swap(self, &mut taken);
        *self = taken.with(name, classname, time, run);
    }

    /// Takes in a script whose absolute path could not be found out. It
    /// counts as one that could not be run, and goes by the path as given
    /// in both places.
    ///
    /// There must be room for it, see `has_room`.
    pub fn record_unresolved(&mut self, name: String, time: Elapsed, error: SpawnError)
        requires
            old(self)@.cases.len() < u32::MAX,
        ensures
            final(self)@ == old(self)@.after(name@, name@, time, Err(error)),
    {
        let classname = name.clone();
        self.record(name, classname, time, Err(error));
    }

    /// Closes the run and writes its report.
    ///
    /// `working_dir` names the suite, `time` is how long the whole run took
    /// and `properties` is the environment it ran in. Host name and time
    /// stamp of the report are left empty.
    pub fn into_suite(
        self,
        working_dir: Option<String>,
        time: Elapsed,
        properties: Properties,
    ) -> (suite: TestSuite)
        ensures
            suite.tests == self@.cases.len(),
            suite.errors == self@.errors(),
            suite.failures == self@.failures(),
            suite.testcases.deep_view() == self@.cases,
            suite.system_out@ == concat_texts(self@.stdout),
            suite.system_err@ == concat_texts(self@.stderr),
            suite.name@ == suite_name(working_dir),
            suite.time == time,
            suite.properties == properties,
            suite.hostname@.len() == 0,
            suite.timestamp@.len() == 0,
    {
        let stdout = self.stdout_messages.as_slice();
        let stderr = self.stderr_messages.as_slice();
        proof {
            use_type_invariant(&self);
        }
        let system_out = concat_lines(stdout);
        let system_err = concat_lines(stderr);
        let name = match working_dir {
            Some(dir) => dir,
            None => String::from_str("Unknown"),
        };
        TestSuite {
            errors: self.errors,
            failures: self.failures,
            hostname: String::new(),
            name,
            tests: self.testcases.len() as u32,
            time,
            timestamp: String::new(),
            properties,
            system_out,
            system_err,
            testcases: self.testcases,
        }
    }
}

} // verus!
