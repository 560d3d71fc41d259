use async_test::event::TestEvent;
use async_test::junit::{EventAggregator, NextestJunitConfig};
use async_test::reporter::{
    progress_bar_msg, status_str, update_progress_bar, write_summary_str, CancelReason,
    FinalStatusLevel, ReporterMode, RunningState, StatusLevel, TestOutputDisplay,
};
use async_test::status::{ExecuteStatus, ExecutionResult, TestInstance};
use async_test::style::Styles;
use async_test::text::{decimal_string, seconds_string};
use async_test::{Conclusion, Outcome, ReporterOutput, RunStats, TestList, TestReporterBuilder};

fn stats(passed: usize, failed: usize, skipped: usize) -> RunStats {
    RunStats {
        initial_run_count: passed + failed,
        finished_count: passed + failed,
        passed,
        passed_slow: 0,
        failed,
        failed_slow: 0,
        timed_out: 0,
        skipped,
    }
}

fn status(result: ExecutionResult, ms: u64, slow: bool, output: Option<&str>) -> ExecuteStatus {
    ExecuteStatus {
        output: output.map(|s| s.to_string()),
        result,
        start_time: 1_000,
        time_taken: ms,
        is_slow: slow,
        delay_before_start: 0,
    }
}

fn finished(name: &str, st: ExecuteStatus, current: RunStats) -> TestEvent {
    TestEvent::TestFinished {
        test_instance: TestInstance { name: name.to_string() },
        success_output: TestOutputDisplay::Never,
        failure_output: TestOutputDisplay::Immediate,
        junit_store_success_output: false,
        junit_store_failure_output: false,
        run_status: st,
        current_stats: current,
        running: 0,
        cancel_state: None,
    }
}

fn empty_list() -> TestList {
    TestList { tests: vec![], skip_count: 0 }
}

#[test]
fn numbers_and_durations() {
    assert_eq!(decimal_string(0), "0");
    assert_eq!(decimal_string(7), "7");
    assert_eq!(decimal_string(1234567890), "1234567890");
    assert_eq!(decimal_string(u64::MAX), "18446744073709551615");
    assert_eq!(seconds_string(34), "0.034");
    assert_eq!(seconds_string(1500), "1.500");
    assert_eq!(seconds_string(15000), "15.000");
    assert_eq!(seconds_string(5), "0.005");
    assert_eq!(seconds_string(120), "0.120");
}

#[test]
fn summary_counts() {
    let mut s = String::new();
    write_summary_str(&stats(2, 1, 3), &Styles::plain(), &mut s);
    assert_eq!(s, "2 passed, 1 failed, 3 skipped");
    let mut slow = stats(2, 0, 0);
    slow.passed_slow = 1;
    slow.timed_out = 4;
    let mut t = String::new();
    write_summary_str(&slow, &Styles::plain(), &mut t);
    assert_eq!(t, "2 passed (1 slow), 4 timed out, 0 skipped");
    assert_eq!(progress_bar_msg(&stats(1, 0, 0), 3, &Styles::plain()), "3 running, 1 passed, 0 skipped");
}

#[test]
fn colored_summary_uses_ansi_codes() {
    let mut styles = Styles::plain();
    styles.colorize();
    let mut s = String::new();
    write_summary_str(&stats(1, 0, 0), &styles, &mut s);
    assert_eq!(
        s,
        "\x1b[1m1\x1b[0m \x1b[32;1mpassed\x1b[0m, \x1b[1m0\x1b[0m \x1b[33;1mskipped\x1b[0m"
    );
}

#[test]
fn progress_prefix() {
    let styles = Styles::plain();
    assert_eq!(RunningState::new(None, &stats(1, 0, 0)).progress_bar_prefix(&styles), "     Running");
    assert_eq!(
        RunningState::new(Some(CancelReason::Signal), &stats(1, 0, 0)).progress_bar_prefix(&styles),
        "   Canceling"
    );
    let mut colored = Styles::plain();
    colored.colorize();
    assert_eq!(
        RunningState::new(None, &stats(0, 1, 0)).progress_bar_prefix(&colored),
        "\x1b[31;1m     Running\x1b[0m"
    );
    let e = finished("t", status(ExecutionResult::Pass, 1, false, None), stats(4, 1, 0));
    let u = update_progress_bar(&e, &styles).unwrap();
    assert_eq!(u.prefix, "     Running");
    assert_eq!(u.message.as_deref(), Some("0 running, 4 passed, 1 failed, 0 skipped"));
    assert_eq!(u.length, Some(5));
    assert_eq!(u.position, Some(5));
}

#[test]
fn status_lines_in_buffer_mode() {
    let mut r = TestReporterBuilder::new().build(&empty_list(), ReporterOutput::Buffer);
    assert_eq!(r.mode(), ReporterMode::Buffer);
    let started = TestEvent::RunStarted {
        test_list: TestList { tests: vec![], skip_count: 1 },
    };
    assert_eq!(r.report_event(&started).stderr, "    Starting 0 tests (1 skipped)\n");
    let pass = finished("module::name", status(ExecutionResult::Pass, 34, false, None), stats(1, 0, 0));
    let out = r.report_event(&pass);
    assert_eq!(out.stderr, "        PASS [   0.034s] test_suite module::name\n");
    assert_eq!(out.stdout, "");
    assert!(out.progress.is_none());
    let fail = finished("bad", status(ExecutionResult::Fail, 2500, false, Some("boom")), stats(1, 1, 0));
    assert_eq!(
        r.report_event(&fail).stderr,
        "        FAIL [   2.500s] test_suite bad\n\n--- STDOUT:              test_suite bad ---\nboom\n"
    );
    let slow = TestEvent::TestSlow {
        test_instance: TestInstance { name: "late".to_string() },
        elapsed: 15000,
        will_terminate: false,
    };
    assert_eq!(r.report_event(&slow).stderr, "        SLOW [> 15.000s] test_suite late\n");
    let slow_pass = finished("late", status(ExecutionResult::Pass, 16000, true, None), stats(2, 1, 0));
    r.report_event(&slow_pass);
    let end = TestEvent::RunFinished { start_time: 0, elapsed: 1500, run_stats: stats(2, 1, 0) };
    assert_eq!(
        r.report_event(&end).stderr,
        [
            "------------\n     Summary [   1.500s] 3 tests run: 2 passed, 1 failed, 0 skipped\n",
            "        SLOW [  16.000s] test_suite late\n",
            "        FAIL [   2.500s] test_suite bad\n",
        ]
        .concat()
    );
}

#[test]
fn colored_status_line() {
    let mut r = TestReporterBuilder::new().build(&empty_list(), ReporterOutput::Buffer);
    r.colorize();
    let pass = finished("m::t", status(ExecutionResult::Pass, 1, false, None), stats(1, 0, 0));
    assert_eq!(
        r.report_event(&pass).stderr,
        "\x1b[32;1m        PASS\x1b[0m [   0.001s] test_suite \x1b[36mm\x1b[0m\x1b[36m::\x1b[0m\x1b[34;1mt\x1b[0m\n"
    );
}

#[test]
fn standard_harness_lines() {
    let mut builder = TestReporterBuilder::new();
    builder.set_imitate_cargo(true);
    let mut r = builder.build(&empty_list(), ReporterOutput::Stderr);
    assert_eq!(r.mode(), ReporterMode::ImitateCargo);
    let a = r.report_event(&finished("a", status(ExecutionResult::Pass, 1, false, None), stats(1, 0, 0)));
    assert_eq!(a.stdout, "test a ... ok\n");
    r.report_event(&finished("b", status(ExecutionResult::Fail, 1, false, Some("m1")), stats(1, 1, 0)));
    r.report_event(&finished("c", status(ExecutionResult::Fail, 1, false, Some("m2")), stats(1, 2, 0)));
    let end = r.report_event(&TestEvent::RunFinished { start_time: 0, elapsed: 1, run_stats: stats(1, 2, 0) });
    assert_eq!(end.stdout, "\nfailures:\n\nfailures:\n    b\n    c\n");
    assert_eq!(end.stderr, "m1\n\nm2\n\n");
}

#[test]
fn progress_bar_mode() {
    let list = TestList { tests: vec![], skip_count: 0 };
    let mut r = TestReporterBuilder::new().build(&list, ReporterOutput::Stderr);
    assert_eq!(r.mode(), ReporterMode::StderrWithBar);
    assert_eq!(r.bar_length(), 0);
    let cancel = TestEvent::RunBeginCancel { running: 2, reason: CancelReason::Signal };
    let out = r.report_event(&cancel);
    assert_eq!(out.stderr, "   Canceling due to signal: 2 tests still running\n");
    assert_eq!(out.progress.unwrap().prefix, "   Canceling");
    let paused = r.report_event(&TestEvent::RunPaused { running: 1 });
    assert_eq!(paused.stderr, "     Pausing 1 running tests due to signal\n");
}

#[test]
fn small_enums() {
    assert_eq!(status_str(ExecutionResult::Fail), "FAIL");
    assert_eq!(status_str(ExecutionResult::Pass), "PASS");
    assert_eq!(status_str(ExecutionResult::Timeout), "TIMEOUT");
    assert!(TestOutputDisplay::Immediate.is_immediate());
    assert!(TestOutputDisplay::ImmediateFinal.is_final());
    assert!(!TestOutputDisplay::Never.is_final());
    assert!(!TestOutputDisplay::Final.is_immediate());
    let st = status(ExecutionResult::Pass, 1, true, None);
    assert_eq!(st.describe().final_status_level(), FinalStatusLevel::Slow);
    assert_eq!(st.describe().status_level(), StatusLevel::Pass);
    let f = status(ExecutionResult::Timeout, 1, false, None);
    assert_eq!(f.describe().final_status_level(), FinalStatusLevel::Fail);
    assert_eq!(f.describe().status_level(), StatusLevel::Fail);
    assert!(stats(0, 1, 0).any_failed());
    assert!(!stats(3, 0, 0).any_failed());
    assert!(StatusLevel::Skip.rank() > StatusLevel::Pass.rank());
    assert!(FinalStatusLevel::Pass.rank() > FinalStatusLevel::Skip.rank());
}

#[test]
fn abnormal_exit_outcome() {
    match Outcome::from_abnormal_exit(None) {
        Outcome::Failed(m) => assert_eq!(m, "test panicked"),
        Outcome::Passed => panic!("expected a failure"),
    }
    match Outcome::from_abnormal_exit(Some("uh oh".to_string())) {
        Outcome::Failed(m) => assert_eq!(m, "uh oh"),
        Outcome::Passed => panic!("expected a failure"),
    }
}

#[test]
fn conclusion_helpers() {
    let ok = Conclusion::empty();
    assert!(!ok.has_failed());
    assert_eq!(ok.exit_code(), 0);
    let bad = Conclusion { num_failed: 1, ..Conclusion::empty() };
    assert!(bad.has_failed());
    assert_eq!(bad.exit_code(), 101);
}

#[test]
fn report_records() {
    let config = NextestJunitConfig {
        path: "target/report.xml".to_string(),
        report_name: "report".to_string(),
        store_success_output: false,
        store_failure_output: true,
    };
    let mut agg = EventAggregator::new_junit(config);
    assert!(agg
        .write_event(&finished("a", status(ExecutionResult::Pass, 3, false, None), stats(1, 0, 0)))
        .is_none());
    assert!(agg
        .write_event(&finished("b", status(ExecutionResult::Fail, 4, false, Some("boom")), stats(1, 1, 0)))
        .is_none());
    let mut kept = finished("c", status(ExecutionResult::Fail, 5, false, Some("kept")), stats(1, 2, 0));
    if let TestEvent::TestFinished { junit_store_failure_output, .. } = &mut kept {
        *junit_store_failure_output = true;
    }
    assert!(agg.write_event(&kept).is_none());
    let report = agg
        .write_event(&TestEvent::RunFinished { start_time: 77, elapsed: 9, run_stats: stats(1, 1, 0) })
        .unwrap();
    assert_eq!(report.name, "report");
    assert_eq!(report.path, "target/report.xml");
    assert_eq!(report.timestamp, 77);
    assert_eq!(report.time, 9);
    assert_eq!(report.suite_name, "test");
    assert_eq!(report.cases.len(), 3);
    assert_eq!(report.cases[2].system_out.as_deref(), Some("kept"));
    assert!(report.cases[0].passed);
    assert_eq!(report.cases[0].failure_type, None);
    assert_eq!(report.cases[1].failure_type.as_deref(), Some("test failure"));
    assert_eq!(report.cases[1].description.as_deref(), Some("boom"));
    assert_eq!(report.cases[1].system_out, None);
    assert_eq!(report.cases[1].time, 4);
    let mut none = EventAggregator::new();
    assert!(none
        .write_event(&TestEvent::RunFinished { start_time: 0, elapsed: 0, run_stats: stats(0, 0, 0) })
        .is_none());
}
