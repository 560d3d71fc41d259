//! The events that a run produces, in the order reporters consume them.

use vstd::prelude::*;

use crate::reporter::{CancelReason, TestOutputDisplay};
use crate::status::{ExecuteStatus, MismatchReason, RunStats, TestInstance, TestList};

verus! {

/// A test event. Times are whole milliseconds.
#[derive(Clone, Debug)]
#[allow(inconsistent_fields)]
pub enum TestEvent {
    /// The run started.
    RunStarted {
        /// The tests that will run.
        test_list: TestList,
    },
    /// A test started running.
    TestStarted {
        /// The test that started.
        test_instance: TestInstance,
        /// Run statistics so far.
        current_stats: RunStats,
        /// The number of tests running, this one included.
        running: usize,
        /// The cancel status of the run, if it is being canceled.
        cancel_state: Option<CancelReason>,
    },
    /// A test ran longer than the slow period, once more.
    TestSlow {
        /// The slow test.
        test_instance: TestInstance,
        /// The time since the test started.
        elapsed: u64,
        /// Whether the test is about to be terminated.
        will_terminate: bool,
    },
    /// A fixture finished its initialization.
    SetupFinished {
        /// The fixture, by name.
        test_instance: TestInstance,
        /// The time the initialization took.
        duration: u64,
        /// Run statistics so far.
        current_stats: RunStats,
        /// The number of tests running.
        running: usize,
    },
    /// A test finished running.
    TestFinished {
        /// The test that finished.
        test_instance: TestInstance,
        /// When to show the output of a passing test.
        success_output: TestOutputDisplay,
        /// When to show the output of a failing test.
        failure_output: TestOutputDisplay,
        /// Whether the report file keeps the output of a passing test.
        junit_store_success_output: bool,
        /// Whether the report file keeps the output of a failing test.
        junit_store_failure_output: bool,
        /// How the test ran.
        run_status: ExecuteStatus,
        /// Run statistics, this test counted.
        current_stats: RunStats,
        /// The number of tests still running.
        running: usize,
        /// The cancel status of the run, if it is being canceled.
        cancel_state: Option<CancelReason>,
    },
    /// A test was skipped.
    TestSkipped {
        /// The skipped test.
        test_instance: TestInstance,
        /// Why it was skipped.
        reason: MismatchReason,
    },
    /// A cancellation was requested.
    RunBeginCancel {
        /// The number of tests still running.
        running: usize,
        /// Why the run is canceled.
        reason: CancelReason,
    },
    /// The run was paused.
    RunPaused {
        /// The number of tests running.
        running: usize,
    },
    /// The run continues after a pause.
    RunContinued {
        /// The number of tests that continue.
        running: usize,
    },
    /// The run finished.
    RunFinished {
        /// When the run started, from the Unix epoch.
        start_time: u64,
        /// How long the run took.
        elapsed: u64,
        /// Statistics of the run.
        run_stats: RunStats,
    },
}

} // verus!
