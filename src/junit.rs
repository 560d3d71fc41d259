//! The structured report: one record per executed test, and one report for
//! the whole run, handed out when the run finishes.

use vstd::prelude::*;
use vstd::string::*;

use crate::event::TestEvent;
use crate::status::{ExecuteStatus, ExecutionResult};

verus! {

/// Where and how the structured report is written.
#[derive(Clone, Debug)]
pub struct NextestJunitConfig {
    /// The path of the report file.
    pub path: String,
    /// The name of the report.
    pub report_name: String,
    /// Whether the report keeps the output of passing tests. Each finished
    /// test's event carries the setting that applies to it.
    pub store_success_output: bool,
    /// Whether the report keeps the output of failing tests. Each finished
    /// test's event carries the setting that applies to it.
    pub store_failure_output: bool,
}

/// The record of one executed test.
#[derive(Clone, Debug)]
pub struct JunitCase {
    /// The name of the test.
    pub name: String,
    /// Whether the test passed.
    pub passed: bool,
    /// The kind of failure, for a test that did not pass.
    pub failure_type: Option<String>,
    /// When the test started, in milliseconds from the Unix epoch.
    pub timestamp: u64,
    /// How long the test took, in milliseconds.
    pub time: u64,
    /// The failure message, for a test that did not pass.
    pub description: Option<String>,
    /// The output, where the configuration keeps it.
    pub system_out: Option<String>,
}

/// The report of a run.
#[derive(Clone, Debug)]
pub struct JunitReport {
    /// The name of the report.
    pub name: String,
    /// The path of the report file.
    pub path: String,
    /// When the run started, in milliseconds from the Unix epoch.
    pub timestamp: u64,
    /// How long the run took, in milliseconds.
    pub time: u64,
    /// The name of the one suite.
    pub suite_name: String,
    /// The records of the executed tests, in the order they finished.
    pub cases: Vec<JunitCase>,
}

/// The record of a finished test.
pub open spec fn case_of(
    name: Seq<char>,
    status: ExecuteStatus,
    store_success: bool,
    store_failure: bool,
    c: JunitCase,
) -> bool {
    let passed = status.result == ExecutionResult::Pass;
    &&& c.name@ == name
    &&& c.passed == passed
    &&& c.timestamp == status.start_time
    &&& c.time == status.time_taken
    &&& (passed ==> c.failure_type is None && c.description is None)
    &&& (!passed ==> (c.failure_type matches Some(t) && t@ == if status.result
        == ExecutionResult::Timeout {
        "test timeout"@
    } else {
        "test failure"@
    }))
    &&& (!passed ==> c.description == status.output)
    &&& (if (store_success && passed) || (store_failure && !passed) {
        c.system_out == status.output
    } else {
        c.system_out is None
    })
}

/// Collects the records of a run for the structured report.
pub struct EventAggregator {
    junit: Option<(NextestJunitConfig, Vec<JunitCase>)>,
}

impl EventAggregator {
    /// The configuration, if a report is kept.
    pub closed spec fn spec_config(&self) -> Option<NextestJunitConfig> {
        match self.junit {
            Some((c, _)) => Some(c),
            None => None,
        }
    }

    /// The records so far.
    pub closed spec fn spec_cases(&self) -> Seq<JunitCase> {
        match self.junit {
            Some((_, v)) => v@,
            None => Seq::empty(),
        }
    }

    /// An aggregator that keeps a report.
    pub fn new_junit(config: NextestJunitConfig) -> (r: EventAggregator)
        ensures
            r.spec_config() == Some(config),
            r.spec_cases().len() == 0,
    {
        EventAggregator { junit: Some((config, Vec::new())) }
    }

    /// An aggregator that keeps nothing.
    pub fn new() -> (r: EventAggregator)
        ensures
            r.spec_config() is None,
            r.spec_cases().len() == 0,
    {
        EventAggregator { junit: None }
    }

    /// Takes in an event: a finished test adds its record; the end of the
    /// run hands out the report, with every record in the order the tests
    /// finished. Other events change nothing.
    pub fn write_event(&mut self, event: &TestEvent) -> (r: Option<JunitReport>)
        ensures
            final(self).spec_config() == old(self).spec_config(),
            old(self).spec_config() is None ==> r is None && final(self).spec_cases().len() == 0,
            old(self).spec_config() matches Some(cfg) ==> match *event {
                TestEvent::TestFinished { test_instance, run_status, junit_store_success_output, junit_store_failure_output, .. } => {
                    &&& r is None
                    &&& final(self).spec_cases().len() == old(self).spec_cases().len() + 1
                    &&& final(self).spec_cases().drop_last() == old(self).spec_cases()
                    &&& case_of(
                        test_instance.name@,
                        run_status,
                        junit_store_success_output,
                        junit_store_failure_output,
                        final(self).spec_cases().last(),
                    )
                },
                TestEvent::RunFinished { start_time, elapsed, .. } => r matches Some(rep) && rep.cases@
                    == old(self).spec_cases() && rep.name@ == cfg.report_name@ && rep.path@
                    == cfg.path@ && rep.timestamp == start_time && rep.time == elapsed
                    && rep.suite_name@ == "test"@ && final(self).spec_cases().len() == 0,
                _ => r is None && final(self).spec_cases() == old(self).spec_cases(),
            },
    {
        match &mut self.junit {
            None => None,
            Some((config, cases)) => match event {
                TestEvent::TestFinished {
                    test_instance,
                    run_status,
                    junit_store_success_output,
                    junit_store_failure_output,
                    ..
                } => {
                    let passed = run_status.result == ExecutionResult::Pass;
                    let failure_type = if passed {
                        None
                    } else if run_status.result == ExecutionResult::Timeout {
                        Some(String::from_str("test timeout"))
                    } else {
                        Some(String::from_str("test failure"))
                    };
                    let description = if passed {
                        None
                    } else {
                        copy_output(&run_status.output)
                    };
                    let store = *junit_store_success_output && passed
                        || *junit_store_failure_output && !passed;
                    let system_out = if store {
                        copy_output(&run_status.output)
                    } else {
                        None
                    };
                    cases.push(
                        JunitCase {
                            name: test_instance.name.clone(),
                            passed,
                            failure_type,
                            timestamp: run_status.start_time,
                            time: run_status.time_taken,
                            description,
                            system_out,
                        },
                    );
                    None
                },
                TestEvent::RunFinished { start_time, elapsed, .. } => {
                    let mut taken: Vec<JunitCase> = Vec::new();
                    taken.append(cases);
                    Some(
                        JunitReport {
                            name: config.report_name.clone(),
                            path: config.path.clone(),
                            timestamp: *start_time,
                            time: *elapsed,
                            suite_name: String::from_str("test"),
                            cases: taken,
                        },
                    )
                },
                _ => None,
            },
        }
    }
}

fn copy_output(o: &Option<String>) -> (r: Option<String>)
    ensures
        r == *o,
{
    match o {
        Some(s) => Some(s.clone()),
        None => None,
    }
}

} // verus!
