//! Results of single test executions and the statistics of a run.

use vstd::prelude::*;
use vstd::string::*;

use crate::reporter::{FinalStatusLevel, StatusLevel};
use crate::trial::TestInfo;

verus! {

/// Information about a single execution of a test.
///
/// Times are whole milliseconds: `start_time` counts from the Unix epoch,
/// the other two are durations.
#[derive(Clone, Debug)]
pub struct ExecuteStatus {
    /// The failure message, if the test failed.
    pub output: Option<String>,
    /// The result of executing this test.
    pub result: ExecutionResult,
    /// The time at which the test started.
    pub start_time: u64,
    /// The time it took for the test to run.
    pub time_taken: u64,
    /// Whether this test counts as slow.
    pub is_slow: bool,
    /// The delay before the test started.
    pub delay_before_start: u64,
}

/// Whether a test passed, failed or timed out.
#[derive(Copy, Clone, Debug, Eq, PartialEq, Structural)]
pub enum ExecutionResult {
    /// The test passed.
    Pass,
    /// The test failed.
    Fail,
    /// The test was terminated due to timeout.
    Timeout,
}

/// Statistics for a test run.
#[derive(Copy, Clone, Default, Debug, Eq, PartialEq, Structural)]
pub struct RunStats {
    /// The number of tests that were expected to run at the beginning.
    pub initial_run_count: usize,
    /// The number of tests that finished running.
    pub finished_count: usize,
    /// The number of tests that passed, slow ones included.
    pub passed: usize,
    /// The number of slow tests that passed.
    pub passed_slow: usize,
    /// The number of tests that failed, slow ones included.
    pub failed: usize,
    /// The number of failed tests that were slow.
    pub failed_slow: usize,
    /// The number of tests that timed out.
    pub timed_out: usize,
    /// The number of tests that were skipped.
    pub skipped: usize,
}

impl RunStats {
    /// Statistics before anything is counted.
    pub open spec fn zero() -> RunStats {
        RunStats {
            initial_run_count: 0,
            finished_count: 0,
            passed: 0,
            passed_slow: 0,
            failed: 0,
            failed_slow: 0,
            timed_out: 0,
            skipped: 0,
        }
    }

    /// Statistics before anything is counted.
    pub fn new() -> (r: RunStats)
        ensures
            r == RunStats::zero(),
    {
        RunStats {
            initial_run_count: 0,
            finished_count: 0,
            passed: 0,
            passed_slow: 0,
            failed: 0,
            failed_slow: 0,
            timed_out: 0,
            skipped: 0,
        }
    }

    /// Returns true if any tests failed or timed out.
    pub fn any_failed(&self) -> (r: bool)
        ensures
            r == (self.failed > 0 || self.timed_out > 0),
    {
        self.failed > 0 || self.timed_out > 0
    }
}

/// A description of a test execution, to tell quickly whether it passed.
#[derive(Copy, Clone, Debug)]
pub enum ExecutionDescription<'a> {
    /// The test ran and passed.
    Success {
        /// The status of the test.
        status: &'a ExecuteStatus,
    },
    /// A fixture finished its setup in the given number of milliseconds.
    Setup { duration: u64 },
    /// The test ran and failed.
    Failure {
        /// The status of the test.
        status: &'a ExecuteStatus,
    },
}

impl<'a> ExecutionDescription<'a> {
    /// Returns the final status level for this description.
    pub fn final_status_level(&self) -> (r: FinalStatusLevel)
        ensures
            r == (match *self {
                ExecutionDescription::Success { status } => if status.is_slow {
                    FinalStatusLevel::Slow
                } else {
                    FinalStatusLevel::Pass
                },
                ExecutionDescription::Setup { .. } => FinalStatusLevel::Pass,
                ExecutionDescription::Failure { .. } => FinalStatusLevel::Fail,
            }),
    {
        match self {
            ExecutionDescription::Success { status } => {
                if status.is_slow {
                    FinalStatusLevel::Slow
                } else {
                    FinalStatusLevel::Pass
                }
            },
            ExecutionDescription::Setup { .. } => FinalStatusLevel::Pass,
            ExecutionDescription::Failure { .. } => FinalStatusLevel::Fail,
        }
    }

    /// Returns the status level for this description.
    pub fn status_level(&self) -> (r: StatusLevel)
        ensures
            r == (if self is Failure {
                StatusLevel::Fail
            } else {
                StatusLevel::Pass
            }),
    {
        match self {
            ExecutionDescription::Success { .. } | ExecutionDescription::Setup { .. } => {
                StatusLevel::Pass
            },
            ExecutionDescription::Failure { .. } => StatusLevel::Fail,
        }
    }
}

/// A single test, by name.
#[derive(Clone, Debug, Eq, PartialEq)]
pub struct TestInstance {
    /// The name of the test.
    pub name: String,
}

impl TestInstance {
    /// An equal copy of this instance.
    pub fn duplicate(&self) -> (r: TestInstance)
        ensures
            r == *self,
    {
        TestInstance { name: self.name.clone() }
    }
}

impl ExecuteStatus {
    /// An equal copy of this status.
    pub fn duplicate(&self) -> (r: ExecuteStatus)
        ensures
            r == *self,
    {
        let output = match &self.output {
            Some(o) => Some(o.clone()),
            None => None,
        };
        ExecuteStatus {
            output,
            result: self.result,
            start_time: self.start_time,
            time_taken: self.time_taken,
            is_slow: self.is_slow,
            delay_before_start: self.delay_before_start,
        }
    }

    /// Returns a description of this execution: a success exactly when the
    /// result is a pass.
    pub fn describe(&self) -> (r: ExecutionDescription<'_>)
        ensures
            self.result == ExecutionResult::Pass ==> r == (ExecutionDescription::Success {
                status: self,
            }),
            self.result != ExecutionResult::Pass ==> r == (ExecutionDescription::Failure {
                status: self,
            }),
    {
        if self.result == ExecutionResult::Pass {
            ExecutionDescription::Success { status: self }
        } else {
            ExecutionDescription::Failure { status: self }
        }
    }
}

/// The tests selected for a run, and the number of those left out.
#[derive(Clone, Debug)]
pub struct TestList {
    /// The tests that run.
    pub tests: Vec<TestInfo>,
    /// The number of tests that were skipped.
    pub skip_count: usize,
}

impl TestList {
    /// Returns the number of skipped tests.
    pub fn skip_count(&self) -> (r: usize)
        ensures
            r == self.skip_count,
    {
        self.skip_count
    }

    /// Returns the number of tests that are not skipped.
    pub fn run_count(&self) -> (r: usize)
        ensures
            r == self.tests@.len(),
    {
        self.tests.len()
    }
}

/// The reason why a test does not take part in a run.
#[derive(Copy, Clone, Debug, Eq, PartialEq, Structural)]
#[non_exhaustive]
pub enum MismatchReason {
    /// The test does not match the run-ignored option.
    Ignored,
    /// The test does not match the string filters.
    String,
    /// The test does not match an expression filter.
    Expression,
    /// The test is in a different partition.
    Partition,
}

/// The outcome of one execution of a test body.
#[derive(Clone, Debug)]
pub enum Outcome {
    /// The test passed.
    Passed,
    /// The test failed with this message.
    Failed(String),
}

impl Outcome {
    /// The outcome of a body that ended abnormally: the message it carried,
    /// or a fixed text when it carried none that can be read.
    pub fn from_abnormal_exit(payload: Option<String>) -> (r: Outcome)
        ensures
            payload matches Some(m) ==> (r matches Outcome::Failed(f) && f@ == m@),
            payload is None ==> (r matches Outcome::Failed(f) && f@ == "test panicked"@),
    {
        match payload {
            Some(m) => Outcome::Failed(m),
            None => Outcome::Failed(String::from_str("test panicked")),
        }
    }
}

} // verus!
