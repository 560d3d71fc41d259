use async_test::args::name_matches_exec;
use async_test::event::TestEvent;
use async_test::fixture::{Claim, FixtureTable};
use async_test::scheduler::Phase;
use async_test::status::MismatchReason;
use async_test::{
    run, Action, Arguments, Conclusion, Host, Outcome, Scheduler, TestInfo, Tester, Trial,
};

fn info(name: &str, is_ignored: bool) -> TestInfo {
    TestInfo { name: name.to_string(), is_ignored, fixtures: vec![] }
}

fn filtered(args: &Arguments, name: &str) -> bool {
    args.is_filtered_out(&info(name, false)).is_some()
}

#[test]
fn substring_and_exact_matching() {
    assert!(name_matches_exec("barro", "bar", false));
    assert!(name_matches_exec("bar", "bar", false));
    assert!(!name_matches_exec("foo", "bar", false));
    assert!(name_matches_exec("anything", "", false));
    assert!(name_matches_exec("bar", "bar", true));
    assert!(!name_matches_exec("barro", "bar", true));
    assert!(!name_matches_exec("ba", "bar", false));
    assert!(name_matches_exec("xxbar", "bar", false));
}

#[test]
fn filter_then_skip_equals_combined_selection() {
    let names = ["foo", "bar", "barro", "xbar", "baz"];
    let by_filter = Arguments { filter: vec!["bar".to_string()], ..Arguments::default() };
    let by_skip = Arguments { skip: vec!["ro".to_string()], ..Arguments::default() };
    let both = Arguments {
        filter: vec!["bar".to_string()],
        skip: vec!["ro".to_string()],
        ..Arguments::default()
    };
    let mut stepwise = vec![];
    for n in names {
        if !filtered(&by_filter, n) && !filtered(&by_skip, n) {
            stepwise.push(n);
        }
    }
    let direct: Vec<&str> =
        names.iter().copied().filter(|n| n.contains("bar") && !n.contains("ro")).collect();
    let combined: Vec<&str> = names.iter().copied().filter(|n| !filtered(&both, n)).collect();
    assert_eq!(stepwise, vec!["bar", "xbar"]);
    assert_eq!(stepwise, direct);
    assert_eq!(combined, direct);
    let again: Vec<&str> = combined.iter().copied().filter(|n| !filtered(&both, n)).collect();
    assert_eq!(again, combined);
}

#[test]
fn exact_selection_is_within_substring_selection() {
    let names = ["bar", "barro", "foo", "xbar"];
    let sub = Arguments { filter: vec!["bar".to_string()], ..Arguments::default() };
    let exact = Arguments { exact: true, ..sub.clone() };
    let sub_set: Vec<&str> = names.iter().copied().filter(|n| !filtered(&sub, n)).collect();
    let exact_set: Vec<&str> = names.iter().copied().filter(|n| !filtered(&exact, n)).collect();
    assert_eq!(exact_set, vec!["bar"]);
    assert_eq!(sub_set, vec!["bar", "barro", "xbar"]);
    for n in &exact_set {
        assert!(sub_set.contains(n));
    }
}

#[test]
fn mismatch_reasons() {
    let only_ignored = Arguments { ignored: true, ..Arguments::default() };
    assert_eq!(
        only_ignored.is_filtered_out(&info("plain", false)),
        Some(MismatchReason::Ignored)
    );
    assert_eq!(only_ignored.is_filtered_out(&info("marked", true)), None);
    let named = Arguments { filter: vec!["x".to_string()], ..Arguments::default() };
    assert_eq!(named.is_filtered_out(&info("abc", false)), Some(MismatchReason::String));
    let skip = Arguments { skip: vec!["ab".to_string()], ..Arguments::default() };
    assert_eq!(skip.is_filtered_out(&info("abc", false)), Some(MismatchReason::String));
    let default = Arguments::default();
    assert_eq!(default.is_filtered_out(&info("marked", true)), Some(MismatchReason::Ignored));
    assert_eq!(default.is_filtered_out(&info("plain", false)), None);
    assert!(default.is_ignored(&info("marked", true)));
    assert!(!default.is_ignored(&info("plain", false)));
    let with_ignored = Arguments { include_ignored: true, ..Arguments::default() };
    assert!(!with_ignored.is_ignored(&info("marked", true)));
    assert_eq!(with_ignored.is_filtered_out(&info("marked", true)), None);
}

#[test]
fn missing_fixture_is_a_configuration_error() {
    let mut tester: Tester<u8> = Tester::new(2);
    assert!(tester.add(Trial::test("ok".to_string(), 0u8).with_fixture(1)).is_ok());
    let err = tester
        .add(Trial::test("bad".to_string(), 1u8).with_fixture(0).with_fixture(5).with_fixture(7))
        .unwrap_err();
    assert_eq!(err.test, "bad");
    assert_eq!(err.missing, vec![5, 7]);
    assert_eq!(tester.len(), 1);
}

#[test]
fn trial_accessors() {
    let t = Trial::test("name".to_string(), ()).with_ignored_flag(true);
    assert_eq!(t.name(), "name");
    assert!(t.has_ignored_flag());
}

#[test]
fn fixture_claimed_once_under_concurrency() {
    let mut tester: Tester<u8> = Tester::new(1);
    tester.add(Trial::test("a".to_string(), 0u8).with_fixture(0)).unwrap();
    tester.add(Trial::test("b".to_string(), 1u8).with_fixture(0).with_fixture(0)).unwrap();
    tester.add(Trial::test("c".to_string(), 2u8)).unwrap();
    let mut s: Scheduler<u8, String> = Scheduler::new(&Arguments::default(), tester, 2);
    assert!(matches!(s.run_started(), TestEvent::RunStarted { .. }));

    assert_eq!(s.next_action(), Action::InitFixture(0));
    // Test "c" needs no fixture and starts at once.
    assert_eq!(s.next_action(), Action::StartTest(2));
    // "a" and "b" wait on the fixture being initialized; nobody else may initialize it.
    assert_eq!(s.next_action(), Action::Wait);
    assert_eq!(s.next_action(), Action::Wait);

    let e = s.fixture_ready(0, "config".to_string(), "value".to_string(), 5);
    assert!(matches!(e, TestEvent::SetupFinished { duration: 5, .. }));
    assert_eq!(s.next_action(), Action::StartTest(0));
    // The budget of two is full.
    assert_eq!(s.next_action(), Action::Wait);
    s.test_finished(2, Outcome::Passed, 0, 1);
    assert_eq!(s.next_action(), Action::StartTest(1));
    assert_eq!(s.fixtures().get(0), Some(&"value".to_string()));

    s.test_finished(0, Outcome::Failed("bad".to_string()), 0, 1);
    s.test_finished(1, Outcome::Passed, 0, 1);
    assert_eq!(s.next_action(), Action::Done);
    let stats = s.stats();
    assert_eq!(stats.finished_count, 3);
    assert_eq!(stats.passed + stats.failed, stats.finished_count);
    assert_eq!(stats.initial_run_count, 3);
    match s.run_finished(10, 20) {
        TestEvent::RunFinished { run_stats, start_time: 10, elapsed: 20 } => {
            assert_eq!(run_stats.finished_count, 3);
            assert_eq!(run_stats.failed, 1);
        }
        _ => panic!("expected the end of the run"),
    }
}

#[test]
fn fixture_table_claims() {
    let mut t: FixtureTable<u32> = FixtureTable::new(2);
    assert_eq!(t.claim(1), Claim::Initialize);
    assert_eq!(t.claim(1), Claim::Wait);
    assert_eq!(t.get(1), None);
    t.fill(1, 42);
    assert_eq!(t.claim(1), Claim::Ready);
    assert_eq!(t.get(1), Some(&42));
    assert!(t.is_ready(1));
    assert!(t.is_empty_slot(0));
}

#[test]
fn slow_tests_are_counted() {
    let mut tester: Tester<u8> = Tester::new(0);
    tester.add(Trial::test("slow".to_string(), 0u8)).unwrap();
    let mut s: Scheduler<u8, ()> = Scheduler::new(&Arguments::default(), tester, 0);
    s.run_started();
    assert_eq!(s.next_action(), Action::StartTest(0));
    match s.test_slow(0, 1) {
        TestEvent::TestSlow { elapsed: 15000, will_terminate: false, test_instance } => {
            assert_eq!(test_instance.name, "slow")
        }
        _ => panic!("expected a slow event"),
    }
    match s.test_finished(0, Outcome::Passed, 7, 16000) {
        TestEvent::TestFinished { run_status, current_stats, running: 0, .. } => {
            assert!(run_status.is_slow);
            assert_eq!(run_status.time_taken, 16000);
            assert_eq!(run_status.start_time, 7);
            assert_eq!(current_stats.passed_slow, 1);
        }
        _ => panic!("expected the end of the test"),
    }
}

/// A host whose fixture initializer counts its calls, and whose test bodies
/// record the fixture value they see.
struct CountingHost {
    inits: usize,
    seen: Vec<(String, u64)>,
    events: Vec<TestEvent>,
}

impl Host<(), u64> for CountingHost {
    fn now_millis(&mut self) -> u64 {
        100
    }

    fn init_fixture(&mut self, _key: usize) -> u64 {
        self.inits += 1;
        4242
    }

    fn fixture_name(&mut self, _key: usize) -> String {
        "Config".to_string()
    }

    fn run_test(&mut self, info: &TestInfo, _runner: &(), fixtures: &FixtureTable<u64>) -> Outcome {
        let value = info.fixtures.first().map(|k| *fixtures.get(*k).unwrap()).unwrap_or(0);
        self.seen.push((info.name.clone(), value));
        Outcome::Passed
    }

    fn report(&mut self, event: TestEvent) {
        self.events.push(event);
    }
}

#[test]
fn fixture_initialized_once_and_shared() {
    let mut tester: Tester<()> = Tester::new(1);
    tester.add(Trial::test("first".to_string(), ()).with_fixture(0)).unwrap();
    tester.add(Trial::test("second".to_string(), ()).with_fixture(0)).unwrap();
    let mut host = CountingHost { inits: 0, seen: vec![], events: vec![] };
    let c = run(&Arguments::default(), tester, &mut host);
    assert_eq!(host.inits, 1);
    assert_eq!(host.seen, vec![("first".to_string(), 4242), ("second".to_string(), 4242)]);
    assert_eq!(c, Conclusion { num_filtered_out: 0, num_passed: 2, num_failed: 0, num_ignored: 0 });
    assert!(matches!(host.events.first(), Some(TestEvent::RunStarted { .. })));
    assert!(matches!(host.events.last(), Some(TestEvent::RunFinished { .. })));
    let setups =
        host.events.iter().filter(|e| matches!(e, TestEvent::SetupFinished { .. })).count();
    assert_eq!(setups, 1);
}

#[test]
fn ignored_test_skipped_by_default_and_run_on_request() {
    let make = || {
        let mut tester: Tester<()> = Tester::new(0);
        tester.add(Trial::test("plain".to_string(), ())).unwrap();
        tester.add(Trial::test("marked".to_string(), ()).with_ignored_flag(true)).unwrap();
        tester
    };
    let mut host = CountingHost { inits: 0, seen: vec![], events: vec![] };
    let c = run(&Arguments::default(), make(), &mut host);
    assert_eq!(c, Conclusion { num_filtered_out: 0, num_passed: 1, num_failed: 0, num_ignored: 1 });
    let stats_default = match host.events.last() {
        Some(TestEvent::RunFinished { run_stats, .. }) => *run_stats,
        _ => panic!("no end of run"),
    };

    let mut host2 = CountingHost { inits: 0, seen: vec![], events: vec![] };
    let with_ignored = Arguments { include_ignored: true, ..Arguments::default() };
    let c2 = run(&with_ignored, make(), &mut host2);
    assert_eq!(c2, Conclusion { num_filtered_out: 0, num_passed: 2, num_failed: 0, num_ignored: 0 });
    let stats_include = match host2.events.last() {
        Some(TestEvent::RunFinished { run_stats, .. }) => *run_stats,
        _ => panic!("no end of run"),
    };
    assert_eq!(stats_default.skipped, 1);
    assert_eq!(stats_include.skipped, 0);
    assert_eq!(stats_include.passed, stats_default.passed + 1);
    assert_eq!(host.seen.len(), 1);
    assert_eq!(host2.seen.len(), 2);
}

#[test]
fn scheduler_phases_after_construction() {
    let mut tester: Tester<()> = Tester::new(0);
    tester.add(Trial::test("a".to_string(), ())).unwrap();
    tester.add(Trial::test("b".to_string(), ())).unwrap();
    let args = Arguments { filter: vec!["a".to_string()], ..Arguments::default() };
    let mut s: Scheduler<(), ()> = Scheduler::new(&args, tester, 4);
    assert_eq!(s.len(), 2);
    assert_eq!(s.num_filtered_out(), 1);
    assert_eq!(s.num_ignored(), 0);
    match s.run_started() {
        TestEvent::RunStarted { test_list } => {
            assert_eq!(test_list.run_count(), 1);
            assert_eq!(test_list.skip_count(), 1);
        }
        _ => panic!("expected the start of the run"),
    }
    let skipped = s.skipped_events();
    assert_eq!(skipped.len(), 1);
    assert!(matches!(&skipped[0], TestEvent::TestSkipped { reason: MismatchReason::String, .. }));
}

#[test]
fn empty_test_set() {
    let mut host = CountingHost { inits: 0, seen: vec![], events: vec![] };
    let c = run(&Arguments::default(), Tester::new(3), &mut host);
    assert_eq!(c, Conclusion::empty());
    assert_eq!(host.inits, 0);
    assert_eq!(host.events.len(), 2);
    match host.events.last() {
        Some(TestEvent::RunFinished { run_stats, .. }) => {
            assert_eq!(run_stats.finished_count, 0);
            assert_eq!(run_stats.initial_run_count, 0);
        }
        _ => panic!("no end of run"),
    }
}

#[test]
fn unused_fixture_is_never_initialized() {
    let mut tester: Tester<()> = Tester::new(2);
    tester.add(Trial::test("needs".to_string(), ()).with_fixture(1)).unwrap();
    tester.add(Trial::test("skipped".to_string(), ()).with_fixture(0)).unwrap();
    let args = Arguments { skip: vec!["skipped".to_string()], ..Arguments::default() };
    let mut host = CountingHost { inits: 0, seen: vec![], events: vec![] };
    let c = run(&args, tester, &mut host);
    assert_eq!(host.inits, 1);
    assert_eq!(c, Conclusion { num_filtered_out: 1, num_passed: 1, num_failed: 0, num_ignored: 0 });
}

#[test]
fn option_decisions() {
    let default = Arguments::default();
    assert_eq!(default.thread_count(8), 8);
    assert_eq!(default.task_budget(8), 8);
    let threads = Arguments { test_threads: Some(1), ..Arguments::default() };
    assert_eq!(threads.thread_count(8), 1);
    assert_eq!(threads.task_budget(8), 1);
    let tasks = Arguments { test_threads: Some(2), test_tasks: Some(50), ..Arguments::default() };
    assert_eq!(tasks.task_budget(8), 50);
    let zero = Arguments { test_threads: Some(0), test_tasks: Some(0), ..Arguments::default() };
    assert_eq!(zero.task_budget(3), 3);

    assert!(default.colorize(true));
    assert!(!default.colorize(false));
    let logged = Arguments { logfile: Some("log.txt".to_string()), ..Arguments::default() };
    assert!(!logged.colorize(true));
    assert_eq!(logged.reporter_output(), async_test::ReporterOutput::Buffer);
    assert_eq!(default.reporter_output(), async_test::ReporterOutput::Stderr);
    let always = Arguments { color: Some(async_test::ColorSetting::Always), ..logged.clone() };
    assert!(always.colorize(false));
    let never = Arguments { color: Some(async_test::ColorSetting::Never), ..Arguments::default() };
    assert!(!never.colorize(true));
}

#[test]
fn list_run_runs_nothing() {
    let mut tester: Tester<()> = Tester::new(1);
    tester.add(Trial::test("a".to_string(), ()).with_fixture(0)).unwrap();
    tester.add(Trial::test("b".to_string(), ())).unwrap();
    let args = Arguments { list: true, ..Arguments::default() };
    let mut host = CountingHost { inits: 0, seen: vec![], events: vec![] };
    let c = run(&args, tester, &mut host);
    assert_eq!(c, Conclusion::empty());
    assert!(host.seen.is_empty());
    assert_eq!(host.inits, 0);
    assert!(host.events.is_empty());
}

#[test]
fn finished_run_records_phases_and_conclusion() {
    let mut tester: Tester<()> = Tester::new(0);
    tester.add(Trial::test("foo".to_string(), ())).unwrap();
    tester.add(Trial::test("bar".to_string(), ())).unwrap();
    tester.add(Trial::test("barro".to_string(), ())).unwrap();
    let args = Arguments { filter: vec!["bar".to_string()], ..Arguments::default() };
    let mut host = CountingHost { inits: 0, seen: vec![], events: vec![] };
    let s: Scheduler<(), u64> = async_test::runner::run_to_end(&args, tester, &mut host);
    assert_eq!(s.phase(0), Phase::Skipped);
    assert_eq!(s.phase(1), Phase::Passed);
    assert_eq!(s.phase(2), Phase::Passed);
    assert_eq!(s.conclusion(), Conclusion { num_filtered_out: 1, num_passed: 2, num_failed: 0, num_ignored: 0 });
    assert_eq!(s.stats().skipped, 1);
}
