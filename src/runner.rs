//! Running a whole test set, one action at a time.

use vstd::prelude::*;

use crate::args::{count_filtered_out, count_held_back, selected, Arguments};
use crate::event::TestEvent;
use crate::fixture::FixtureTable;
use crate::scheduler::{
    count, history, history_ok, lemma_finished_within_initial, lemma_stats_agree, work_left, Action, Phase,
    Scheduler, Step,
};
use crate::status::Outcome;
use crate::trial::{FixtureKey, TestInfo, Tester};

verus! {

/// What a run came to.
#[derive(Clone, Debug, PartialEq, Eq, Structural)]
pub struct Conclusion {
    /// The number of tests that the filters left out.
    pub num_filtered_out: usize,
    /// The number of tests that passed.
    pub num_passed: usize,
    /// The number of tests that failed.
    pub num_failed: usize,
    /// The number of tests held back because they are marked ignored.
    pub num_ignored: usize,
}

impl Conclusion {
    /// Returns whether any test failed.
    pub fn has_failed(&self) -> (r: bool)
        ensures
            r == (self.num_failed > 0),
    {
        self.num_failed > 0
    }

    /// The conclusion of a run in which nothing ran.
    pub open spec fn empty_spec() -> Conclusion {
        Conclusion { num_filtered_out: 0, num_passed: 0, num_failed: 0, num_ignored: 0 }
    }

    /// The conclusion of a run in which nothing ran.
    pub fn empty() -> (r: Conclusion)
        ensures
            r == Conclusion::empty_spec(),
    {
        Conclusion { num_filtered_out: 0, num_passed: 0, num_failed: 0, num_ignored: 0 }
    }

    /// The process exit status that reports this conclusion: zero when no
    /// test failed, 101 otherwise.
    pub fn exit_code(&self) -> (r: i32)
        ensures
            r == (if self.num_failed > 0 {
                101i32
            } else {
                0i32
            }),
    {
        if self.has_failed() {
            101
        } else {
            0
        }
    }
}

/// The work that a run needs done: the clock, the fixture initializers, the
/// test bodies, and the consumers of events. Test bodies run one at a time.
pub trait Host<F, V> {
    /// The current time, in milliseconds from the Unix epoch.
    fn now_millis(&mut self) -> u64;

    /// Runs the initializer of fixture `key` and returns its value.
    fn init_fixture(&mut self, key: FixtureKey) -> V;

    /// The name of fixture `key`.
    fn fixture_name(&mut self, key: FixtureKey) -> String;

    /// Runs the body of a test with the fixtures that are stored, catching
    /// an abnormal exit of the body as a failure.
    fn run_test(&mut self, info: &TestInfo, runner: &F, fixtures: &FixtureTable<V>) -> Outcome;

    /// Hands an event to the reporters.
    fn report(&mut self, event: TestEvent);
}

/// The time from `from` to `to`, or zero if the clock went back.
pub fn elapsed_millis(from: u64, to: u64) -> (r: u64)
    ensures
        r == if to >= from {
            to - from
        } else {
            0
        },
{
    if to >= from {
        to - from
    } else {
        0
    }
}

/// `s` is how a run of `tests` under `args` ends: every test has reached a
/// terminal state, exactly the tests that the options leave out are
/// skipped, the log starts with the run's start and ends with its end, with
/// each test's start, slow reports and finish in between, and the
/// statistics count the tests in each state.
pub open spec fn run_ended<F, V>(args: Arguments, tests: Seq<TestInfo>, s: Scheduler<F, V>) -> bool {
    &&& s.is_done()
    &&& s.spec_tests() == tests
    &&& s.phases().len() == tests.len()
    &&& forall|i: int|
        0 <= i < tests.len() ==> ((#[trigger] s.phases()[i] == Phase::Skipped) <==> !selected(
            args,
            tests[i].name@,
            tests[i].is_ignored,
        ))
    &&& s.log().len() >= 2
    &&& s.log()[0] == Step::RunStarted
    &&& s.log().last() == Step::RunFinished
    &&& forall|i: int|
        0 <= i < tests.len() ==> history_ok(history(s.log(), i as usize), i as usize, #[trigger] s.phases()[i])
    &&& s.spec_stats().passed == count(s.phases(), Phase::Passed)
    &&& s.spec_stats().failed == count(s.phases(), Phase::Failed)
    &&& s.spec_stats().skipped == count(s.phases(), Phase::Skipped)
    &&& s.spec_stats().finished_count == s.spec_stats().passed + s.spec_stats().failed
    &&& s.spec_stats().finished_count == s.spec_stats().initial_run_count
    &&& s.spec_stats().initial_run_count + s.spec_stats().skipped == tests.len()
    &&& s.spec_filtered_out() == count_filtered_out(args, tests)
    &&& s.spec_ignored() == count_held_back(args, tests)
    &&& s.spec_filtered_out() + s.spec_ignored() == s.spec_stats().skipped
}

/// Runs every test of `tester` that the options select, one at a time,
/// initializing each fixture the first time a test needs it, reports every
/// event to the host, and returns the final state of the run.
pub fn run_to_end<F, V, H: Host<F, V>>(args: &Arguments, tester: Tester<F>, host: &mut H) -> (s: Scheduler<F, V>)
    requires
        tester.wf(),
    ensures
        run_ended(*args, tester.spec_infos(), s),
{
    let start = host.now_millis();
    let mut sched: Scheduler<F, V> = Scheduler::new(args, tester, 1);
    host.report(sched.run_started());
    let mut skipped = sched.skipped_events();
    while skipped.len() > 0
        decreases skipped@.len(),
    {
        let e = skipped.remove(0);
        host.report(e);
    }
    proof {
        lemma_stats_agree(sched);
    }
    loop
        invariant
            sched.wf(),
            sched.spec_running() == 0,
            sched.spec_budget() == 1,
            sched.spec_filtered_out() == count_filtered_out(*args, tester.spec_infos()),
            sched.spec_ignored() == count_held_back(*args, tester.spec_infos()),
            sched.spec_tests() == tester.spec_infos(),
            sched.phases().len() == tester.spec_infos().len(),
            sched.log().len() > 0,
            sched.log().last() != Step::RunFinished,
            forall|i: int|
                0 <= i < sched.phases().len() ==> ((#[trigger] sched.phases()[i] == Phase::Skipped) <==> !selected(
                    *args,
                    tester.spec_infos()[i].name@,
                    tester.spec_infos()[i].is_ignored,
                )),
            forall|k: int|
                0 <= k < sched.spec_fixtures().slots().len() ==> !(#[trigger] sched.spec_fixtures().slots()[k] is Initializing),
        ensures
            sched.wf(),
            sched.is_done(),
            sched.spec_filtered_out() == count_filtered_out(*args, tester.spec_infos()),
            sched.spec_ignored() == count_held_back(*args, tester.spec_infos()),
            sched.spec_tests() == tester.spec_infos(),
            sched.phases().len() == tester.spec_infos().len(),
            sched.log().len() > 0,
            sched.log().last() != Step::RunFinished,
            forall|i: int|
                0 <= i < sched.phases().len() ==> ((#[trigger] sched.phases()[i] == Phase::Skipped) <==> !selected(
                    *args,
                    tester.spec_infos()[i].name@,
                    tester.spec_infos()[i].is_ignored,
                )),
        decreases work_left(sched),
    {
        let ghost before = sched.phases();
        let action = sched.next_action();
        match action {
            Action::InitFixture(k) => {
                let t0 = host.now_millis();
                let value = host.init_fixture(k);
                let name = host.fixture_name(k);
                let t1 = host.now_millis();
                let e = sched.fixture_ready(k, name, value, elapsed_millis(t0, t1));
                host.report(e);
            },
            Action::StartTest(i) => {
                host.report(sched.test_started(i));
                let t0 = host.now_millis();
                let outcome = host.run_test(sched.test_info(i), sched.runner(i), sched.fixtures());
                let t1 = host.now_millis();
                let e = sched.test_finished(i, outcome, t0, elapsed_millis(t0, t1));
                host.report(e);
                proof {
                    assert forall|j: int| 0 <= j < sched.phases().len() implies ((#[trigger] sched.phases()[j]
                        == Phase::Skipped) <==> before[j] == Phase::Skipped) by {
                        if j != i {
                        }
                    }
                }
            },
            Action::Wait => {
                proof {
                    let w = choose|m: int|
                        0 <= m < sched.phases().len() && #[trigger] sched.phases()[m]
                            == crate::scheduler::Phase::Waiting && sched.blocked_on_init(m);
                    assert(0 <= w < sched.spec_tests().len()) by {
                        lemma_finished_within_initial(sched);
                    }
                    let j = choose|j: int|
                        0 <= j < sched.spec_tests()[w].fixtures@.len() && (#[trigger] sched.spec_fixtures().slots()[sched.spec_tests()[w].fixtures@[j] as int]) is Initializing;
                    let k = sched.spec_tests()[w].fixtures@[j] as int;
                    assert(0 <= k < sched.spec_fixtures().slots().len()) by {
                        sched.lemma_registered(w, j);
                    }
                    assert(!(sched.spec_fixtures().slots()[k] is Initializing));
                }
            },
            Action::Done => {
                break;
            },
        }
    }
    let t_end = host.now_millis();
    proof {
        lemma_finished_within_initial(sched);
    }
    let ghost before = sched;
    host.report(sched.run_finished(start, elapsed_millis(start, t_end)));
    proof {
        lemma_stats_agree(sched);
        lemma_finished_within_initial(sched);
        lemma_stats_agree(before);
        assert(sched.log()[0] == before.log()[0]);
    }
    sched
}

/// Runs every test of `tester` that the options select, one at a time, and
/// returns the counts of the run: every test is filtered out, held back as
/// ignored, passed or failed, and the passed and failed counts are those of
/// the run's final statistics. With `--list` nothing runs and the
/// conclusion is empty: listing is the work of `write_list`.
pub fn run<F, V, H: Host<F, V>>(args: &Arguments, tester: Tester<F>, host: &mut H) -> (c: Conclusion)
    requires
        tester.wf(),
    ensures
        args.list ==> c == Conclusion::empty_spec(),
        !args.list ==> exists|s: Scheduler<F, V>|
            #[trigger] run_ended(*args, tester.spec_infos(), s) && c == s.spec_conclusion(),
        !args.list ==> c.num_filtered_out == count_filtered_out(*args, tester.spec_infos()),
        !args.list ==> c.num_ignored == count_held_back(*args, tester.spec_infos()),
        !args.list ==> c.num_filtered_out + c.num_ignored + c.num_passed + c.num_failed
            == tester.spec_infos().len(),
{
    if args.list {
        return Conclusion::empty();
    }
    let s: Scheduler<F, V> = run_to_end(args, tester, host);
    let c = s.conclusion();
    assert(run_ended(*args, tester.spec_infos(), s) && c == s.spec_conclusion());
    c
}

} // verus!
