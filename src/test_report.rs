use vstd::prelude::*;

use crate::run_result::FunctionRunResult;

verus! {

/// A test whose output differed from the expected one.
#[derive(Debug)]
pub struct TestFailure {
    pub filename: String,
    pub expected_output: serde_json::Value,
    pub run_result: FunctionRunResult,
}

/// The tally of a test run.
#[derive(Debug)]
pub struct TestReport {
    successes: usize,
    failures: Vec<TestFailure>,
}

impl TestReport {
    /// The number of tests that passed.
    pub closed spec fn spec_successes(&self) -> usize {
        self.successes
    }

    /// The failures, in the order they came.
    pub closed spec fn spec_failures(&self) -> Seq<TestFailure> {
        self.failures@
    }

    /// A report of no test.
    pub fn new() -> (r: TestReport)
        ensures
            r.spec_successes() == 0,
            r.spec_failures().len() == 0,
    {
        TestReport { successes: 0, failures: Vec::new() }
    }

    /// Count a passing test.
    pub fn add_success(&mut self)
        requires
            old(self).spec_successes() < usize::MAX,
        ensures
            final(self).spec_successes() == old(self).spec_successes() + 1,
            final(self).spec_failures() == old(self).spec_failures(),
    {
        self.successes = self.successes + 1;
    }

    /// Record a failing test.
    pub fn add_failure(
        &mut self,
        filename: String,
        expected_output: serde_json::Value,
        run_result: FunctionRunResult,
    )
        ensures
            final(self).spec_successes() == old(self).spec_successes(),
            final(self).spec_failures() == old(self).spec_failures().push(
                TestFailure { filename, expected_output, run_result },
            ),
    {
        self.failures.push(TestFailure { filename, expected_output, run_result });
    }

    /// The number of tests that passed.
    pub fn successes(&self) -> (r: usize)
        ensures
            r == self.spec_successes(),
    {
        self.successes
    }

    /// The failures, in the order they came.
    pub fn failures(&self) -> (r: &Vec<TestFailure>)
        ensures
            r@ == self.spec_failures(),
    {
        &self.failures
    }

    /// Whether every test passed.
    pub fn passed(&self) -> (r: bool)
        ensures
            r == (self.spec_failures().len() == 0),
    {
        self.failures.len() == 0
    }
}

} // verus!
