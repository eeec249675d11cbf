//! The run of a solution on one test case.

use crate::clash::TestCase;
use vstd::prelude::*;

verus! {

/// How a solution did on one test case.
#[derive(Debug, Clone)]
pub enum TestResult {
    Success,
    UnableToRun { error_msg: String },
    WrongOutput { stdout: String, stderr: String },
    RuntimeError { stdout: String, stderr: String },
    Timeout { stdout: String, stderr: String },
}

/// A test case together with how a solution did on it.
#[derive(Debug, Clone)]
pub struct TestRun<'a> {
    testcase: &'a TestCase,
    result: TestResult,
}

impl<'a> TestRun<'a> {
    /// The test case of this run.
    pub closed spec fn case(&self) -> TestCase {
        *self.testcase
    }

    /// How the run ended.
    pub closed spec fn outcome(&self) -> TestResult {
        self.result
    }

    /// What the solution wrote to its output: the expected output after a
    /// success, nothing where it could not be run, and what was captured
    /// otherwise.
    pub open spec fn actual_output(&self) -> Seq<char> {
        match self.outcome() {
            TestResult::Success => self.case()@.test_out,
            TestResult::UnableToRun { .. } => Seq::empty(),
            TestResult::WrongOutput { stdout, .. } => stdout@,
            TestResult::RuntimeError { stdout, .. } => stdout@,
            TestResult::Timeout { stdout, .. } => stdout@,
        }
    }

    /// The run of a solution on `testcase` that ended in `result`.
    pub fn new(testcase: &'a TestCase, result: TestResult) -> (run: Self)
        ensures
            run.case() == *testcase,
            run.outcome() == result,
    {
        Self { testcase, result }
    }

    /// The output that the test case asks for.
    pub fn expected(&self) -> (out: &str)
        ensures
            out@ == self.case()@.test_out,
    {
        self.testcase.expected_output()
    }

    /// The output that the solution gave.
    pub fn actual(&self) -> (out: &str)
        ensures
            out@ == self.actual_output(),
    {
        match &self.result {
            TestResult::Success => self.expected(),
            TestResult::UnableToRun { .. } => {
                proof {
                    reveal_strlit("");
                }
                assert(""@ =~= Seq::<char>::empty());
                ""
            },
            TestResult::RuntimeError { stdout, .. } => stdout.as_str(),
            TestResult::WrongOutput { stdout, .. } => stdout.as_str(),
            TestResult::Timeout { stdout, .. } => stdout.as_str(),
        }
    }

    /// Tells whether the solution gave the expected output.
    pub fn is_successful(&self) -> (yes: bool)
        ensures
            yes == (self.outcome() is Success),
    {
        matches!(self.result, TestResult::Success)
    }

    /// The test case of this run.
    pub fn testcase(&self) -> (testcase: &'a TestCase)
        ensures
            *testcase == self.case(),
    {
        self.testcase
    }

    /// How the run ended.
    pub fn result(&'a self) -> (result: &'a TestResult)
        ensures
            *result == self.outcome(),
    {
        &self.result
    }
}

} // verus!
