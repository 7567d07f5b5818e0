//! The data model the parser produces and the execution primitive consumes:
//! test suites, test cases and per-test settings. Durations are carried as
//! whole milliseconds.

use vstd::prelude::*;
use crate::codec::TextFormat;

verus! {

/// Per-test settings: comparison, encoding and timing knobs.
#[derive(Clone, Copy, Debug)]
pub struct TestCaseSettings {
    /// Compare the response case-insensitively.
    pub ignore_case: bool,
    /// How the input content is encoded before sending.
    pub input_format: TextFormat,
    /// How received bytes are rendered before comparing.
    pub output_format: TextFormat,
    /// Milliseconds to wait before sending, if any.
    pub delay: Option<u64>,
    /// Read timeout in milliseconds.
    pub timeout: u64,
    /// How many times the test is run.
    pub repeat: u32,
}

/// The settings a test has when its source line names none.
pub open spec fn default_test_settings() -> TestCaseSettings {
    TestCaseSettings {
        ignore_case: false,
        input_format: TextFormat::Text,
        output_format: TextFormat::Text,
        delay: None,
        timeout: 1000,
        repeat: 1,
    }
}

impl Default for TestCaseSettings {
    fn default() -> (r: TestCaseSettings)
        ensures
            r == default_test_settings(),
    {
        TestCaseSettings {
            ignore_case: false,
            input_format: TextFormat::Text,
            output_format: TextFormat::Text,
            delay: None,
            timeout: 1000,
            repeat: 1,
        }
    }
}

/// One input/output/settings triple derived from a single source line.
#[derive(Debug)]
pub struct TestCase {
    pub name: String,
    pub input: String,
    pub output: String,
    pub settings: TestCaseSettings,
}

/// The mathematical content of a test case.
pub struct TestCaseView {
    pub name: Seq<char>,
    pub input: Seq<char>,
    pub output: Seq<char>,
    pub settings: TestCaseSettings,
}

impl View for TestCase {
    type V = TestCaseView;

    open spec fn view(&self) -> TestCaseView {
        TestCaseView {
            name: self.name@,
            input: self.input@,
            output: self.output@,
            settings: self.settings,
        }
    }
}

impl TestCase {
    /// A test case with default settings.
    pub fn new(name: String, input: String, output: String) -> (r: TestCase)
        ensures
            r@ == (TestCaseView {
                name: name@,
                input: input@,
                output: output@,
                settings: default_test_settings(),
            }),
    {
        TestCase { name, input, output, settings: TestCaseSettings::default() }
    }

    /// A test case with the given settings.
    pub fn new_with_settings(
        name: String,
        input: String,
        output: String,
        settings: TestCaseSettings,
    ) -> (r: TestCase)
        ensures
            r@ == (TestCaseView { name: name@, input: input@, output: output@, settings }),
    {
        TestCase { name, input, output, settings }
    }
}

/// An ordered group of test cases. The suite with the empty name is the
/// implicit suite holding tests that appear before any group header.
#[derive(Debug)]
pub struct TestSuite {
    pub name: String,
    pub tests: Vec<TestCase>,
}

/// The mathematical content of a test suite.
pub struct TestSuiteView {
    pub name: Seq<char>,
    pub tests: Seq<TestCaseView>,
}

impl View for TestSuite {
    type V = TestSuiteView;

    open spec fn view(&self) -> TestSuiteView {
        TestSuiteView {
            name: self.name@,
            tests: Seq::new(self.tests@.len(), |i: int| self.tests@[i]@),
        }
    }
}

impl TestSuite {
    /// An empty suite with the given name.
    pub fn new(name: String) -> (r: TestSuite)
        ensures
            r@.name == name@,
            r@.tests =~= Seq::<TestCaseView>::empty(),
    {
        TestSuite { name, tests: Vec::new() }
    }

    /// Appends a test; insertion order is execution order.
    pub fn push(&mut self, test: TestCase)
        ensures
            final(self)@.name == old(self)@.name,
            final(self)@.tests =~= old(self)@.tests.push(test@),
    {
        self.tests.push(test);
    }
}

} // verus!
