//! The records of a test report.

use vstd::prelude::*;

verus! {

/// A name and its value, as found in the environment of the run.
#[derive(Debug, PartialEq, Eq)]
pub struct Property {
    pub name: String,
    pub value: String,
}

/// What a `Property` stands for in contracts.
pub struct PropertyView {
    pub name: Seq<char>,
    pub value: Seq<char>,
}

impl View for Property {
    type V = PropertyView;

    open spec fn view(&self) -> PropertyView {
        PropertyView { name: self.name@, value: self.value@ }
    }
}

impl DeepView for Property {
    type V = PropertyView;

    open spec fn deep_view(&self) -> PropertyView {
        self@
    }
}

impl Clone for Property {
    fn clone(&self) -> (copy: Property)
        ensures
            copy == *self,
    {
        Property { name: self.name.clone(), value: self.value.clone() }
    }
}

impl Default for Property {
    fn default() -> (property: Property)
        ensures
            property.name@.len() == 0,
            property.value@.len() == 0,
    {
        Property { name: String::new(), value: String::new() }
    }
}

/// The properties of a run, in the order they were found.
#[derive(Debug, PartialEq, Eq)]
pub struct Properties {
    pub properties: Vec<Property>,
}

impl Clone for Properties {
    fn clone(&self) -> (copy: Properties)
        ensures
            copy.properties.deep_view() == self.properties.deep_view(),
    {
        let mut properties: Vec<Property> = Vec::new();
        let mut i: usize = 0;
        while i < self.properties.len()
            invariant
                i <= self.properties.len(),
                properties.len() == i,
                forall|k: int| 0 <= k < i ==> properties[k] == self.properties[k],
            decreases self.properties.len() - i,
        {
            properties.push(self.properties[i].clone());
            i += 1;
        }
        Properties { properties }
    }
}

impl Default for Properties {
    fn default() -> (properties: Properties)
        ensures
            properties.properties@.len() == 0,
    {
        Properties { properties: Vec::new() }
    }
}

impl Properties {
    /// Makes properties of pairs of a name and a value, one of each pair
    /// and in the same order.
    pub fn from_pairs(pairs: &[(String, String)]) -> (properties: Properties)
        ensures
            properties.properties.len() == pairs.len(),
            forall|i: int|
                0 <= i < pairs.len() ==> {
                    &&& (#[trigger] properties.properties[i]).name@ == pairs[i].0@
                    &&& properties.properties[i].value@ == pairs[i].1@
                },
    {
        let mut properties: Vec<Property> = Vec::new();
        let mut i: usize = 0;
        while i < pairs.len()
            invariant
                i <= pairs.len(),
                properties.len() == i,
                forall|k: int|
                    0 <= k < i ==> {
                        &&& (#[trigger] properties[k]).name@ == pairs[k].0@
                        &&& properties[k].value@ == pairs[k].1@
                    },
            decreases pairs.len() - i,
        {
            let pair = &pairs[i];
            properties.push(Property { name: pair.0.clone(), value: pair.1.clone() });
            i += 1;
        }
        Properties { properties }
    }
}

/// Why a script did not pass.
#[derive(Debug, PartialEq, Eq)]
pub struct TestError {
    pub message: String,
    pub error_type: String,
    pub body: String,
}

/// What a `TestError` stands for in contracts.
pub struct TestErrorView {
    pub message: Seq<char>,
    pub error_type: Seq<char>,
    pub body: Seq<char>,
}

impl View for TestError {
    type V = TestErrorView;

    open spec fn view(&self) -> TestErrorView {
        TestErrorView { message: self.message@, error_type: self.error_type@, body: self.body@ }
    }
}

impl DeepView for TestError {
    type V = TestErrorView;

    open spec fn deep_view(&self) -> TestErrorView {
        self@
    }
}

impl Clone for TestError {
    fn clone(&self) -> (copy: TestError)
        ensures
            copy == *self,
    {
        TestError {
            message: self.message.clone(),
            error_type: self.error_type.clone(),
            body: self.body.clone(),
        }
    }
}

impl Default for TestError {
    fn default() -> (error: TestError)
        ensures
            error.message@.len() == 0,
            error.error_type@.len() == 0,
            error.body@.len() == 0,
    {
        TestError { message: String::new(), error_type: String::new(), body: String::new() }
    }
}

/// A span of wall-clock time: whole seconds and the nanoseconds beyond.
#[derive(Clone, Copy, Debug, PartialEq, Eq, Structural)]
pub struct Elapsed {
    pub secs: u64,
    pub nanos: u32,
}

impl Elapsed {
    /// A span of `secs` seconds and `nanos` nanoseconds.
    pub fn new(secs: u64, nanos: u32) -> (elapsed: Elapsed)
        ensures
            elapsed.secs == secs,
            elapsed.nanos == nanos,
    {
        Elapsed { secs, nanos }
    }

    /// No time at all.
    pub fn zero() -> (elapsed: Elapsed)
        ensures
            elapsed.secs == 0,
            elapsed.nanos == 0,
    {
        Elapsed { secs: 0, nanos: 0 }
    }
}

/// The outcome of one script.
#[derive(Debug, PartialEq, Eq)]
pub struct TestCase {
    /// The script's absolute path.
    pub classname: String,
    /// The script's path as it was given.
    pub name: String,
    /// How long the script took.
    pub time: Elapsed,
    /// Why the script did not pass; `None` where it did.
    pub error: Option<TestError>,
}

/// What a `TestCase` stands for in contracts.
pub struct TestCaseView {
    pub classname: Seq<char>,
    pub name: Seq<char>,
    pub time: Elapsed,
    pub error: Option<TestErrorView>,
}

impl View for TestCase {
    type V = TestCaseView;

    open spec fn view(&self) -> TestCaseView {
        TestCaseView {
            classname: self.classname@,
            name: self.name@,
            time: self.time,
            error: match self.error {
                Some(error) => Some(error@),
                None => None,
            },
        }
    }
}

impl DeepView for TestCase {
    type V = TestCaseView;

    open spec fn deep_view(&self) -> TestCaseView {
        self@
    }
}

impl Clone for TestCase {
    fn clone(&self) -> (copy: TestCase)
        ensures
            copy == *self,
    {
        TestCase {
            classname: self.classname.clone(),
            name: self.name.clone(),
            time: self.time,
            error: match &self.error {
                Some(error) => Some(error.clone()),
                None => None,
            },
        }
    }
}

impl Default for TestCase {
    fn default() -> (case: TestCase)
        ensures
            case.classname@.len() == 0,
            case.name@.len() == 0,
            case.time == (Elapsed { secs: 0, nanos: 0 }),
            case.error is None,
    {
        TestCase {
            classname: String::new(),
            name: String::new(),
            time: Elapsed::zero(),
            error: None,
        }
    }
}

/// The report of a run: its counts, its scripts' outcomes, its environment
/// and what the scripts printed.
#[derive(Debug, PartialEq, Eq)]
pub struct TestSuite {
    /// How many scripts could not be run.
    pub errors: u32,
    /// How many scripts ran and did not end well.
    pub failures: u32,
    pub hostname: String,
    pub name: String,
    /// How many scripts there were.
    pub tests: u32,
    /// How long the run took.
    pub time: Elapsed,
    pub timestamp: String,
    pub properties: Properties,
    /// What the scripts wrote to standard output.
    pub system_out: String,
    /// What the scripts wrote to standard error.
    pub system_err: String,
    pub testcases: Vec<TestCase>,
}

impl Clone for TestSuite {
    fn clone(&self) -> (copy: TestSuite)
        ensures
            copy.errors == self.errors,
            copy.failures == self.failures,
            copy.tests == self.tests,
            copy.hostname == self.hostname,
            copy.name == self.name,
            copy.time == self.time,
            copy.timestamp == self.timestamp,
            copy.properties.properties.deep_view() == self.properties.properties.deep_view(),
            copy.system_out == self.system_out,
            copy.system_err == self.system_err,
            copy.testcases.deep_view() == self.testcases.deep_view(),
    {
        let mut testcases: Vec<TestCase> = Vec::new();
        let mut i: usize = 0;
        while i < self.testcases.len()
            invariant
                i <= self.testcases.len(),
                testcases.len() == i,
                forall|k: int| 0 <= k < i ==> testcases[k] == self.testcases[k],
            decreases self.testcases.len() - i,
        {
            testcases.push(self.testcases[i].clone());
            i += 1;
        }
        TestSuite {
            errors: self.errors,
            failures: self.failures,
            hostname: self.hostname.clone(),
            name: self.name.clone(),
            tests: self.tests,
            time: self.time,
            timestamp: self.timestamp.clone(),
            properties: self.properties.clone(),
            system_out: self.system_out.clone(),
            system_err: self.system_err.clone(),
            testcases,
        }
    }
}

impl Default for TestSuite {
    fn default() -> (suite: TestSuite)
        ensures
            suite.errors == 0,
            suite.failures == 0,
            suite.tests == 0,
            suite.hostname@.len() == 0,
            suite.name@.len() == 0,
            suite.time == (Elapsed { secs: 0, nanos: 0 }),
            suite.timestamp@.len() == 0,
            suite.properties.properties@.len() == 0,
            suite.system_out@.len() == 0,
            suite.system_err@.len() == 0,
            suite.testcases@.len() == 0,
    {
        TestSuite {
            errors: 0,
            failures: 0,
            hostname: String::new(),
            name: String::new(),
            tests: 0,
            time: Elapsed::zero(),
            timestamp: String::new(),
            properties: Properties::default(),
            system_out: String::new(),
            system_err: String::new(),
            testcases: Vec::new(),
        }
    }
}

} // verus!
