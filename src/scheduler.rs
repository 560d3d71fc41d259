//! The scheduler: the state machine that drives every test of a run from
//! waiting, through its fixtures and the concurrency budget, to a terminal
//! state, and keeps the run statistics.
//!
//! The scheduler decides; its host acts. The host asks for the next action,
//! performs it (runs an initializer, runs a test body), and reports back.
//! A host may perform several actions at once: the scheduler admits at most
//! `budget` tests to run at the same time.

use vstd::prelude::*;

use crate::args::{count_filtered_out, count_held_back, filter_reason, selected, Arguments};
use crate::fixture::{claim_step, Claim, FixtureTable, Slot};
use crate::trial::{requirements_registered, FixtureKey, TestInfo, Tester};
use crate::event::TestEvent;
use crate::runner::Conclusion;
use crate::reporter::TestOutputDisplay;
use crate::status::{ExecuteStatus, ExecutionResult, MismatchReason, Outcome, RunStats, TestInstance, TestList};

verus! {

/// Where a test stands in the run.
#[derive(Copy, Clone, Debug, PartialEq, Eq, Structural)]
pub enum Phase {
    /// The test does not run: the options leave it out.
    Skipped,
    /// The test waits for its fixtures or for a place in the budget.
    Waiting,
    /// The test body is executing.
    Running,
    /// The test passed.
    Passed,
    /// The test failed.
    Failed,
}

impl Phase {
    /// A test in this phase has reached the end of its life.
    pub open spec fn is_terminal(self) -> bool {
        self == Phase::Skipped || self == Phase::Passed || self == Phase::Failed
    }
}

/// The number of tests of `s` in phase `ph`.
pub open spec fn count(s: Seq<Phase>, ph: Phase) -> nat
    decreases s.len(),
{
    if s.len() == 0 {
        0
    } else {
        count(s.drop_last(), ph) + if s.last() == ph {
            1nat
        } else {
            0nat
        }
    }
}

proof fn lemma_count_push(s: Seq<Phase>, x: Phase, ph: Phase)
    ensures
        count(s.push(x), ph) == count(s, ph) + if x == ph {
            1nat
        } else {
            0nat
        },
{
    assert(s.push(x).drop_last() == s);
}

proof fn lemma_count_update(s: Seq<Phase>, i: int, x: Phase, ph: Phase)
    requires
        0 <= i < s.len(),
    ensures
        count(s.update(i, x), ph) + (if s[i] == ph {
            1int
        } else {
            0int
        }) == count(s, ph) + if x == ph {
            1int
        } else {
            0int
        },
    decreases s.len(),
{
    if i == s.len() - 1 {
        assert(s.update(i, x).drop_last() == s.drop_last());
    } else {
        lemma_count_update(s.drop_last(), i, x, ph);
        assert(s.update(i, x).drop_last() == s.drop_last().update(i, x));
    }
}

proof fn lemma_count_total(s: Seq<Phase>)
    ensures
        count(s, Phase::Skipped) + count(s, Phase::Waiting) + count(s, Phase::Running) + count(
            s,
            Phase::Passed,
        ) + count(s, Phase::Failed) == s.len(),
    decreases s.len(),
{
    if s.len() > 0 {
        lemma_count_total(s.drop_last());
    }
}

proof fn lemma_count_zero(s: Seq<Phase>, ph: Phase, i: int)
    requires
        count(s, ph) == 0,
        0 <= i < s.len(),
    ensures
        s[i] != ph,
    decreases s.len(),
{
    if i < s.len() - 1 {
        lemma_count_zero(s.drop_last(), ph, i);
    }
}

proof fn lemma_count_positive(s: Seq<Phase>, ph: Phase) -> (w: int)
    requires
        count(s, ph) > 0,
    ensures
        0 <= w < s.len(),
        s[w] == ph,
    decreases s.len(),
{
    if s.last() == ph {
        s.len() - 1
    } else {
        lemma_count_positive(s.drop_last(), ph)
    }
}

/// Why the options leave a test out of the run, if they do: a filter, or
/// the ignored mark.
pub open spec fn skip_reason_of(args: Arguments, t: TestInfo) -> Option<MismatchReason> {
    filter_reason(args, t.name@, t.is_ignored)
}

/// The skipped tests of `tests`, by name, with their reasons, in order.
pub open spec fn skipped_list(tests: Seq<TestInfo>, reasons: Seq<Option<MismatchReason>>) -> Seq<
    (Seq<char>, MismatchReason),
>
    decreases tests.len(),
{
    if tests.len() == 0 || reasons.len() != tests.len() {
        Seq::empty()
    } else {
        skipped_list(tests.drop_last(), reasons.drop_last()) + match reasons.last() {
            Some(r) => seq![(tests.last().name@, r)],
            None => Seq::empty(),
        }
    }
}

/// The tests of `tests` that run, in order.
pub open spec fn run_list(tests: Seq<TestInfo>, reasons: Seq<Option<MismatchReason>>) -> Seq<TestInfo>
    decreases tests.len(),
{
    if tests.len() == 0 || reasons.len() != tests.len() {
        Seq::empty()
    } else {
        run_list(tests.drop_last(), reasons.drop_last()) + if reasons.last() is None {
            seq![tests.last()]
        } else {
            Seq::empty()
        }
    }
}

/// What the host must do next.
#[derive(Copy, Clone, Debug, PartialEq, Eq, Structural)]
pub enum Action {
    /// Run the initializer of this fixture, then report its value.
    InitFixture(FixtureKey),
    /// Run the body of the test at this index, then report its outcome.
    StartTest(usize),
    /// Nothing can start before an action in progress completes.
    Wait,
    /// Every test has reached a terminal state.
    Done,
}

/// The length of a slow period, in milliseconds: a running test is
/// reported slow each time another period passes.
pub const SLOW_PERIOD_MS: u64 = 15000;

/// A step in the life of a run, as the scheduler records it.
#[derive(Copy, Clone, Debug, PartialEq, Eq, Structural)]
pub enum Step {
    /// The run started.
    RunStarted,
    /// The test at this index started running.
    Started(usize),
    /// The test at this index was reported slow.
    Slow(usize),
    /// The test at this index finished.
    Finished(usize),
    /// The run finished.
    RunFinished,
}

impl Step {
    /// The test the step is about, if any.
    pub open spec fn test(self) -> Option<usize> {
        match self {
            Step::Started(i) => Some(i),
            Step::Slow(i) => Some(i),
            Step::Finished(i) => Some(i),
            _ => None,
        }
    }
}

/// The step is about test `i`.
pub open spec fn about(i: usize) -> spec_fn(Step) -> bool {
    |s: Step| s.test() == Some(i)
}

/// The steps of `log` about test `i`, in order.
pub open spec fn history(log: Seq<Step>, i: usize) -> Seq<Step> {
    log.filter(about(i))
}

/// The history of test `i` fits its phase: nothing before it starts; once
/// running, its start followed only by slow reports; once finished, the
/// same, then its finish.
pub open spec fn history_ok(h: Seq<Step>, i: usize, ph: Phase) -> bool {
    match ph {
        Phase::Skipped | Phase::Waiting => h.len() == 0,
        Phase::Running => h.len() >= 1 && h[0] == Step::Started(i) && forall|k: int|
            1 <= k < h.len() ==> #[trigger] h[k] == Step::Slow(i),
        Phase::Passed | Phase::Failed => h.len() >= 2 && h[0] == Step::Started(i) && h.last()
            == Step::Finished(i) && forall|k: int| 1 <= k < h.len() - 1 ==> #[trigger] h[k] == Step::Slow(i),
    }
}

/// The log of a run is in order: the run's start comes first, its end
/// comes last, and each test's steps fit its phase.
pub open spec fn log_ok(log: Seq<Step>, phases: Seq<Phase>) -> bool {
    &&& log.len() > 0 ==> log[0] == Step::RunStarted
    &&& forall|p: int| 0 < p < log.len() ==> #[trigger] log[p] != Step::RunStarted
    &&& forall|p: int| 0 <= p < log.len() - 1 ==> #[trigger] log[p] != Step::RunFinished
    &&& forall|i: int| 0 <= i < phases.len() ==> history_ok(history(log, i as usize), i as usize, #[trigger] phases[i])
    &&& forall|p: int| 0 <= p < log.len() ==> ((#[trigger] log[p]).test() matches Some(i) ==> i < phases.len())
}

proof fn lemma_history_push(log: Seq<Step>, e: Step, i: usize)
    ensures
        history(log.push(e), i) == if e.test() == Some(i) {
            history(log, i).push(e)
        } else {
            history(log, i)
        },
{
    log.lemma_filter_push(e, about(i));
}

/// Appending a step about test `i` that moves it to phase `p1` keeps the log
/// in order, when the step extends the test's history as its new phase asks.
proof fn lemma_log_test_step(log: Seq<Step>, phases: Seq<Phase>, i: int, p1: Phase, e: Step)
    requires
        log_ok(log, phases),
        0 <= i < phases.len(),
        phases.len() <= usize::MAX,
        e.test() == Some(i as usize),
        history_ok(history(log, i as usize).push(e), i as usize, p1),
        log.len() > 0,
        log.last() != Step::RunFinished,
    ensures
        log_ok(log.push(e), phases.update(i, p1)),
{
    let l2 = log.push(e);
    let ph2 = phases.update(i, p1);
    assert forall|j: int| 0 <= j < ph2.len() implies history_ok(
        history(l2, j as usize),
        j as usize,
        #[trigger] ph2[j],
    ) by {
        lemma_history_push(log, e, j as usize);
        if j == i {
            assert(ph2[j] == p1);
        } else {
            assert(j as usize != i as usize);
            assert(ph2[j] == phases[j]);
            assert(history(l2, j as usize) == history(log, j as usize));
        }
    }
    assert forall|p: int| 0 < p < l2.len() implies #[trigger] l2[p] != Step::RunStarted by {
        if p < log.len() {
            assert(l2[p] == log[p]);
        }
    }
    assert forall|p: int| 0 <= p < l2.len() - 1 implies #[trigger] l2[p] != Step::RunFinished by {
        assert(l2[p] == log[p]);
    }
    assert forall|p: int| 0 <= p < l2.len() implies ((#[trigger] l2[p]).test() matches Some(k) ==> k
        < ph2.len()) by {
        if p < log.len() {
            assert(l2[p] == log[p]);
        }
    }
}

/// Appending the start or the end of the run keeps the log in order: the
/// start only to an empty log, the end only once.
proof fn lemma_log_run_step(log: Seq<Step>, phases: Seq<Phase>, e: Step)
    requires
        log_ok(log, phases),
        e == Step::RunStarted ==> log.len() == 0,
        e == Step::RunFinished ==> log.len() > 0 && log.last() != Step::RunFinished,
        e == Step::RunStarted || e == Step::RunFinished,
    ensures
        log_ok(log.push(e), phases),
{
    let l2 = log.push(e);
    assert forall|j: int| 0 <= j < phases.len() implies history_ok(
        history(l2, j as usize),
        j as usize,
        #[trigger] phases[j],
    ) by {
        lemma_history_push(log, e, j as usize);
    }
    assert forall|p: int| 0 < p < l2.len() implies #[trigger] l2[p] != Step::RunStarted by {
        if p < log.len() {
            assert(l2[p] == log[p]);
        }
    }
    assert forall|p: int| 0 <= p < l2.len() - 1 implies #[trigger] l2[p] != Step::RunFinished by {
        assert(l2[p] == log[p]);
    }
    assert forall|p: int| 0 <= p < l2.len() implies ((#[trigger] l2[p]).test() matches Some(k) ==> k
        < phases.len()) by {
        if p < log.len() {
            assert(l2[p] == log[p]);
        }
    }
}

/// A test with a step in the log has a non-empty log behind it.
proof fn lemma_history_in_log(log: Seq<Step>, i: usize)
    ensures
        history(log, i).len() <= log.len(),
{
    log.lemma_filter_len(about(i));
}

/// The state of a run.
pub struct Scheduler<F, V> {
    tests: Vec<TestInfo>,
    runners: Vec<F>,
    phases: Vec<Phase>,
    reasons: Vec<Option<MismatchReason>>,
    slow: Vec<bool>,
    fixtures: FixtureTable<V>,
    stats: RunStats,
    running: usize,
    budget: usize,
    filtered_out: usize,
    ignored: usize,
    log: Ghost<Seq<Step>>,
}

impl<F, V> Scheduler<F, V> {
    /// The steps of the run so far.
    pub closed spec fn log(&self) -> Seq<Step> {
        self.log@
    }

    /// The tests of the run, in order.
    pub closed spec fn spec_tests(&self) -> Seq<TestInfo> {
        self.tests@
    }

    /// The phase of each test.
    pub closed spec fn phases(&self) -> Seq<Phase> {
        self.phases@
    }

    /// Whether each test has been reported slow.
    pub closed spec fn slow_flags(&self) -> Seq<bool> {
        self.slow@
    }

    /// The fixture table.
    pub closed spec fn spec_fixtures(&self) -> FixtureTable<V> {
        self.fixtures
    }

    /// The run statistics.
    pub closed spec fn spec_stats(&self) -> RunStats {
        self.stats
    }

    /// The number of tests running.
    pub closed spec fn spec_running(&self) -> nat {
        self.running as nat
    }

    /// The number of tests that may run at the same time.
    pub closed spec fn spec_budget(&self) -> nat {
        self.budget as nat
    }

    /// The number of tests that the filters left out.
    pub closed spec fn spec_filtered_out(&self) -> nat {
        self.filtered_out as nat
    }

    /// The number of tests held back as ignored.
    pub closed spec fn spec_ignored(&self) -> nat {
        self.ignored as nat
    }

    /// Why each skipped test is skipped; nothing for the others.
    pub closed spec fn skip_reasons(&self) -> Seq<Option<MismatchReason>> {
        self.reasons@
    }

    /// The runner of each test.
    pub closed spec fn spec_runners(&self) -> Seq<F> {
        self.runners@
    }

    /// The statistics agree with the phases of the tests, the running tests
    /// fit the budget, and every test requires registered fixtures only.
    pub closed spec fn wf(&self) -> bool {
        let ph = self.phases@;
        &&& self.tests@.len() == ph.len()
        &&& self.runners@.len() == ph.len()
        &&& self.reasons@.len() == ph.len()
        &&& forall|i: int| 0 <= i < ph.len() ==> (ph[i] == Phase::Skipped <==> #[trigger] self.reasons@[i] is Some)
        &&& self.slow@.len() == ph.len()
        &&& self.fixtures.wf()
        &&& forall|i: int|
            0 <= i < ph.len() ==> requirements_registered(
                #[trigger] self.tests@[i],
                self.fixtures.slots().len(),
            )
        &&& self.stats.passed == count(ph, Phase::Passed)
        &&& self.stats.failed == count(ph, Phase::Failed)
        &&& self.stats.finished_count == self.stats.passed + self.stats.failed
        &&& self.stats.skipped == count(ph, Phase::Skipped)
        &&& self.stats.initial_run_count + self.stats.skipped == ph.len()
        &&& self.stats.timed_out == 0
        &&& self.stats.passed_slow <= self.stats.passed
        &&& self.stats.failed_slow <= self.stats.failed
        &&& self.running == count(ph, Phase::Running)
        &&& 1 <= self.budget
        &&& self.running <= self.budget
        &&& self.filtered_out + self.ignored == self.stats.skipped
        &&& log_ok(self.log@, ph)
        &&& (self.log@.len() > 0 && self.log@.last() == Step::RunFinished ==> forall|i: int|
            0 <= i < ph.len() ==> (#[trigger] ph[i]).is_terminal())
    }

    /// Every test has reached a terminal state.
    pub open spec fn is_done(&self) -> bool {
        forall|i: int| 0 <= i < self.phases().len() ==> (#[trigger] self.phases()[i]).is_terminal()
    }

    /// Starts a run of the tests of `tester` under the options `args`, with
    /// at most `tasks` tests running at the same time (one, if `tasks` is
    /// zero). A test that the options leave out is skipped; every other test
    /// waits. No fixture is initialized yet.
    pub fn new(args: &Arguments, tester: Tester<F>, tasks: usize) -> (r: Scheduler<F, V>)
        requires
            tester.wf(),
        ensures
            r.wf(),
            r.spec_tests() == tester.spec_infos(),
            r.spec_runners() == tester.spec_runners(),
            r.spec_fixtures().slots().len() == tester.spec_fixture_count(),
            forall|k: int|
                0 <= k < tester.spec_fixture_count() ==> #[trigger] r.spec_fixtures().slots()[k] is Empty,
            forall|i: int|
                0 <= i < r.phases().len() ==> #[trigger] r.phases()[i] == if selected(
                    *args,
                    r.spec_tests()[i].name@,
                    r.spec_tests()[i].is_ignored,
                ) {
                    Phase::Waiting
                } else {
                    Phase::Skipped
                },
            forall|i: int| 0 <= i < r.phases().len() ==> !#[trigger] r.slow_flags()[i],
            forall|i: int|
                0 <= i < r.phases().len() ==> #[trigger] r.skip_reasons()[i] == skip_reason_of(
                    *args,
                    r.spec_tests()[i],
                ),
            r.spec_running() == 0,
            r.spec_budget() == if tasks == 0 {
                1
            } else {
                tasks
            },
            r.spec_filtered_out() == count_filtered_out(*args, tester.spec_infos()),
            r.spec_ignored() == count_held_back(*args, tester.spec_infos()),
            r.spec_stats().finished_count == 0,
            r.log().len() == 0,
            r.spec_stats().passed_slow == 0,
            r.spec_stats().failed_slow == 0,
    {
        let fixture_count = tester.fixture_count();
        let (tests, runners) = tester.finish();
        let mut phases: Vec<Phase> = Vec::new();
        let mut reasons: Vec<Option<MismatchReason>> = Vec::new();
        let mut slow: Vec<bool> = Vec::new();
        let mut stats = RunStats::new();
        let mut filtered_out: usize = 0;
        let mut ignored: usize = 0;
        let mut i: usize = 0;
        while i < tests.len()
            invariant
                i <= tests@.len(),
                phases@.len() == i,
                reasons@.len() == i,
                slow@.len() == i,
                forall|m: int| 0 <= m < i ==> !#[trigger] slow@[m],
                forall|m: int| 0 <= m < i ==> #[trigger] reasons@[m] == skip_reason_of(*args, tests@[m]),
                forall|m: int| 0 <= m < i ==> (phases@[m] == Phase::Skipped <==> #[trigger] reasons@[m] is Some),
                forall|m: int|
                    0 <= m < i ==> #[trigger] phases@[m] == if selected(
                        *args,
                        tests@[m].name@,
                        tests@[m].is_ignored,
                    ) {
                        Phase::Waiting
                    } else {
                        Phase::Skipped
                    },
                count(phases@, Phase::Passed) == 0,
                count(phases@, Phase::Failed) == 0,
                count(phases@, Phase::Running) == 0,
                stats == (RunStats {
                    initial_run_count: stats.initial_run_count,
                    skipped: stats.skipped,
                    ..RunStats::zero()
                }),
                stats.skipped == count(phases@, Phase::Skipped),
                stats.initial_run_count + stats.skipped == i,
                filtered_out == count_filtered_out(*args, tests@.subrange(0, i as int)),
                ignored == count_held_back(*args, tests@.subrange(0, i as int)),
                filtered_out + ignored == stats.skipped,
            decreases tests@.len() - i,
        {
            let t = &tests[i];
            let reason = args.is_filtered_out(t);
            let held = args.is_ignored(t) && !args.name_filtered_out(t.name.as_str());
            proof {
                let s = tests@.subrange(0, i + 1);
                assert(s.drop_last() == tests@.subrange(0, i as int));
                assert(s.last() == tests@[i as int]);
            }
            let ghost before = phases@;
            if held {
                phases.push(Phase::Skipped);
                reasons.push(reason);
                stats.skipped = stats.skipped + 1;
                ignored = ignored + 1;
            } else if reason.is_some() {
                phases.push(Phase::Skipped);
                reasons.push(reason);
                stats.skipped = stats.skipped + 1;
                filtered_out = filtered_out + 1;
            } else {
                phases.push(Phase::Waiting);
                reasons.push(None);
                stats.initial_run_count = stats.initial_run_count + 1;
            }
            proof {
                let x = phases@.last();
                assert(phases@ == before.push(x));
                lemma_count_push(before, x, Phase::Passed);
                lemma_count_push(before, x, Phase::Failed);
                lemma_count_push(before, x, Phase::Running);
                lemma_count_push(before, x, Phase::Skipped);
            }
            slow.push(false);
            i += 1;
        }
        assert(tests@.subrange(0, i as int) == tests@);
        let fixtures = FixtureTable::new(fixture_count);
        let budget = if tasks == 0 {
            1
        } else {
            tasks
        };
        Scheduler {
            tests,
            runners,
            phases,
            reasons,
            slow,
            fixtures,
            stats,
            running: 0,
            budget,
            filtered_out,
            ignored,
            log: Ghost(Seq::empty()),
        }
    }

    /// Every fixture that test `i` requires is stored.
    pub open spec fn fixtures_ready(&self, i: int) -> bool {
        forall|j: int|
            0 <= j < self.spec_tests()[i].fixtures@.len() ==> (#[trigger] self.spec_fixtures().slots()[self.spec_tests()[i].fixtures@[j] as int]) is Ready
    }

    /// Some fixture that test `i` requires has not been claimed yet; `k` is
    /// one of them.
    pub open spec fn needs_init(&self, i: int, k: FixtureKey) -> bool {
        &&& exists|j: int|
            0 <= j < self.spec_tests()[i].fixtures@.len() && #[trigger] self.spec_tests()[i].fixtures@[j] == k
        &&& self.spec_fixtures().slots()[k as int] is Empty
    }

    /// Every fixture that test `i` requires has been claimed.
    pub open spec fn no_unclaimed(&self, i: int) -> bool {
        forall|j: int|
            0 <= j < self.spec_tests()[i].fixtures@.len() ==> !((#[trigger] self.spec_fixtures().slots()[self.spec_tests()[i].fixtures@[j] as int]) is Empty)
    }

    /// Test `i` waits on a fixture whose initializer is running, and on no
    /// fixture that nobody has claimed.
    pub open spec fn blocked_on_init(&self, i: int) -> bool {
        &&& forall|j: int|
            0 <= j < self.spec_tests()[i].fixtures@.len() ==> !((#[trigger] self.spec_fixtures().slots()[self.spec_tests()[i].fixtures@[j] as int]) is Empty)
        &&& exists|j: int|
            0 <= j < self.spec_tests()[i].fixtures@.len() && (#[trigger] self.spec_fixtures().slots()[self.spec_tests()[i].fixtures@[j] as int]) is Initializing
    }

    /// The action that the state calls for: the first waiting test that
    /// needs a fixture nobody has claimed asks for its initialization; the
    /// first waiting test with all its fixtures stored starts, if the budget
    /// allows; otherwise the host waits, or the run is done.
    pub open spec fn plan_spec(&self, a: Action) -> bool {
        match a {
            Action::InitFixture(k) => exists|i: int|
                0 <= i < self.phases().len() && #[trigger] self.phases()[i] == Phase::Waiting
                    && self.needs_init(i, k),
            Action::StartTest(i) => i < self.phases().len() && self.phases()[i as int]
                == Phase::Waiting && self.fixtures_ready(i as int) && self.spec_running()
                < self.spec_budget(),
            Action::Wait => (self.spec_running() > 0 || exists|i: int|
                0 <= i < self.phases().len() && #[trigger] self.phases()[i] == Phase::Waiting
                    && self.blocked_on_init(i)) && !self.is_done() && forall|i: int|
                0 <= i < self.phases().len() && #[trigger] self.phases()[i] == Phase::Waiting
                    ==> self.no_unclaimed(i) && (!self.fixtures_ready(i) || self.spec_running()
                    >= self.spec_budget()),
            Action::Done => self.is_done(),
        }
    }

    /// Whether the fixtures of test `i` are all stored; if not, a fixture
    /// that nobody has claimed, if there is one.
    fn readiness(&self, i: usize) -> (r: (bool, Option<FixtureKey>))
        requires
            self.wf(),
            i < self.phases().len(),
        ensures
            r.0 <==> self.fixtures_ready(i as int),
            r.1 matches Some(k) ==> self.needs_init(i as int, k) && k < self.spec_fixtures().slots().len(),
            r.1 is None && !r.0 ==> self.blocked_on_init(i as int),
    {
        let reqs = &self.tests[i].fixtures;
        proof {
            assert(requirements_registered(self.tests@[i as int], self.fixtures.slots().len()));
        }
        let mut all_ready = true;
        let mut j: usize = 0;
        while j < reqs.len()
            invariant
                self.wf(),
                i < self.phases().len(),
                reqs == &self.tests@[i as int].fixtures,
                requirements_registered(self.tests@[i as int], self.fixtures.slots().len()),
                j <= reqs@.len(),
                all_ready <==> forall|m: int|
                    0 <= m < j ==> (#[trigger] self.fixtures.slots()[reqs@[m] as int]) is Ready,
                forall|m: int|
                    0 <= m < j ==> !((#[trigger] self.fixtures.slots()[reqs@[m] as int]) is Empty),
            decreases reqs@.len() - j,
        {
            let k = reqs[j];
            assert(k < self.fixtures.slots().len());
            if self.fixtures.is_empty_slot(k) {
                return (false, Some(k));
            }
            if !self.fixtures.is_ready(k) {
                all_ready = false;
            }
            j += 1;
        }
        (all_ready, None)
    }

    /// Every fixture that a test requires is a key of the fixture table.
    pub proof fn lemma_registered(&self, i: int, j: int)
        requires
            self.wf(),
            0 <= i < self.phases().len(),
            0 <= j < self.spec_tests()[i].fixtures@.len(),
        ensures
            self.spec_tests()[i].fixtures@[j] < self.spec_fixtures().slots().len(),
    {
        assert(requirements_registered(self.tests@[i], self.fixtures.slots().len()));
    }

    /// The action that the state calls for, without changing anything.
    pub fn plan(&self) -> (a: Action)
        requires
            self.wf(),
        ensures
            self.plan_spec(a),
    {
        let mut blocked = false;
        let mut i: usize = 0;
        while i < self.phases.len()
            invariant
                self.wf(),
                i <= self.phases@.len(),
                blocked ==> exists|m: int|
                    0 <= m < self.phases().len() && #[trigger] self.phases()[m] == Phase::Waiting
                        && self.blocked_on_init(m),
                !blocked ==> forall|m: int|
                    0 <= m < i ==> #[trigger] self.phases@[m] != Phase::Waiting
                        || self.running >= self.budget,
                forall|m: int|
                    0 <= m < i && #[trigger] self.phases()[m] == Phase::Waiting ==> self.no_unclaimed(m)
                        && (!self.fixtures_ready(m) || self.running >= self.budget),
            decreases self.phases@.len() - i,
        {
            if self.phases[i] == Phase::Waiting {
                let (ready, claimable) = self.readiness(i);
                match claimable {
                    Some(k) => {
                        return Action::InitFixture(k);
                    },
                    None => {},
                }
                if ready && self.running < self.budget {
                    return Action::StartTest(i);
                }
                if !ready {
                    blocked = true;
                }
            }
            i += 1;
        }
        if self.running > 0 || blocked {
            proof {
                if self.running > 0 {
                    let w = lemma_count_positive(self.phases@, Phase::Running);
                    assert(!self.phases()[w].is_terminal());
                } else {
                    let w = choose|m: int|
                        0 <= m < self.phases().len() && #[trigger] self.phases()[m] == Phase::Waiting
                            && self.blocked_on_init(m);
                    assert(!self.phases()[w].is_terminal());
                }
            }
            return Action::Wait;
        }
        proof {
            assert forall|m: int| 0 <= m < self.phases().len() implies (#[trigger] self.phases()[m]).is_terminal() by {
                lemma_count_zero(self.phases@, Phase::Running, m);
            }
        }
        Action::Done
    }

    /// Applies the action that the state calls for: claims the fixture to
    /// initialize, or admits the test to start. Waiting and done change
    /// nothing.
    pub fn next_action(&mut self) -> (a: Action)
        requires
            old(self).wf(),
            old(self).log().len() > 0,
        ensures
            final(self).wf(),
            old(self).plan_spec(a),
            a matches Action::InitFixture(k) ==> k < old(self).spec_fixtures().slots().len()
                && claim_step(old(self).spec_fixtures(), k as int, final(self).spec_fixtures(), Claim::Initialize)
                && final(self).phases() == old(self).phases()
                && final(self).log() == old(self).log()
                && final(self).spec_stats() == old(self).spec_stats()
                && final(self).spec_running() == old(self).spec_running(),
            a matches Action::StartTest(i) ==> final(self).phases() == old(self).phases().update(i as int, Phase::Running)
                && final(self).log() == old(self).log().push(Step::Started(i))
                && final(self).spec_fixtures() == old(self).spec_fixtures()
                && final(self).spec_stats() == old(self).spec_stats()
                && final(self).spec_running() == old(self).spec_running() + 1,
            a is Wait || a is Done ==> *final(self) == *old(self),
            a is InitFixture || a is StartTest ==> work_left(*final(self)) + 1 == work_left(*old(self)),
            final(self).spec_tests() == old(self).spec_tests(),
            final(self).spec_runners() == old(self).spec_runners(),
            final(self).slow_flags() == old(self).slow_flags(),
            final(self).spec_budget() == old(self).spec_budget(),
            final(self).spec_filtered_out() == old(self).spec_filtered_out(),
            final(self).spec_ignored() == old(self).spec_ignored(),
    {
        let a = self.plan();
        match a {
            Action::InitFixture(k) => {
                proof {
                    crate::fixture::lemma_count_empty_update(self.fixtures.slots(), k as int, Slot::Initializing);
                }
                self.fixtures.claim(k);
            },
            Action::StartTest(i) => {
                proof {
                    lemma_count_update(self.phases@, i as int, Phase::Running, Phase::Running);
                    lemma_count_update(self.phases@, i as int, Phase::Running, Phase::Passed);
                    lemma_count_update(self.phases@, i as int, Phase::Running, Phase::Failed);
                    lemma_count_update(self.phases@, i as int, Phase::Running, Phase::Skipped);
                    lemma_count_update(self.phases@, i as int, Phase::Running, Phase::Waiting);
                    let h = history(self.log@, i);
                    assert(history_ok(h, i, Phase::Waiting));
                    assert(h.push(Step::Started(i)) =~= seq![Step::Started(i)]);
                    assert(!self.phases@[i as int].is_terminal());
                    assert(self.phases.len() == self.phases@.len());
                    lemma_log_test_step(self.log@, self.phases@, i as int, Phase::Running, Step::Started(i));
                }
                self.log = Ghost(self.log@.push(Step::Started(i)));
                self.phases.set(i, Phase::Running);
                self.running = self.running + 1;
            },
            _ => {},
        }
        a
    }

    /// The test's name, as a test instance.
    fn instance(&self, i: usize) -> (r: TestInstance)
        requires
            i < self.spec_tests().len(),
        ensures
            r.name == self.spec_tests()[i as int].name,
    {
        TestInstance { name: self.tests[i].name.clone() }
    }

    /// The start-of-run event for the current state.
    fn start_event(&self) -> (e: TestEvent)
        requires
            self.wf(),
        ensures
            e matches TestEvent::RunStarted { test_list } && test_list.tests@.len()
                == self.spec_stats().initial_run_count && test_list.skip_count
                == self.spec_stats().skipped && test_list.tests@.len() == run_list(
                self.spec_tests(),
                self.skip_reasons(),
            ).len() && forall|m: int|
                0 <= m < test_list.tests@.len() ==> (#[trigger] test_list.tests@[m]).same_as(
                    run_list(self.spec_tests(), self.skip_reasons())[m],
                ),
    {
        let mut tests: Vec<TestInfo> = Vec::new();
        let mut i: usize = 0;
        while i < self.phases.len()
            invariant
                self.wf(),
                i <= self.phases@.len(),
                tests@.len() + count(self.phases@.subrange(0, i as int), Phase::Skipped) == i,
                tests@.len() == run_list(
                    self.tests@.subrange(0, i as int),
                    self.reasons@.subrange(0, i as int),
                ).len(),
                forall|m: int|
                    0 <= m < tests@.len() ==> (#[trigger] tests@[m]).same_as(
                        run_list(self.tests@.subrange(0, i as int), self.reasons@.subrange(0, i as int))[m],
                    ),
            decreases self.phases@.len() - i,
        {
            proof {
                let s = self.phases@.subrange(0, i + 1);
                assert(s == self.phases@.subrange(0, i as int).push(self.phases@[i as int]));
                lemma_count_push(self.phases@.subrange(0, i as int), self.phases@[i as int], Phase::Skipped);
                let t = self.tests@.subrange(0, i + 1);
                let r = self.reasons@.subrange(0, i + 1);
                assert(t.drop_last() == self.tests@.subrange(0, i as int));
                assert(r.drop_last() == self.reasons@.subrange(0, i as int));
                assert(t.last() == self.tests@[i as int]);
                assert(r.last() == self.reasons@[i as int]);
            }
            if self.phases[i] != Phase::Skipped {
                tests.push(self.tests[i].duplicate());
            }
            i += 1;
        }
        assert(self.phases@.subrange(0, i as int) == self.phases@);
        assert(self.tests@.subrange(0, i as int) == self.tests@);
        assert(self.reasons@.subrange(0, i as int) == self.reasons@);
        TestEvent::RunStarted { test_list: TestList { tests, skip_count: self.stats.skipped } }
    }

    /// Starts the run: records its start and returns the event that
    /// announces it, with the tests that will run, in order, and the number
    /// skipped; the two add up to the number of tests.
    pub fn run_started(&mut self) -> (e: TestEvent)
        requires
            old(self).wf(),
            old(self).log().len() == 0,
        ensures
            final(self).wf(),
            final(self).log() == seq![Step::RunStarted],
            final(self).phases() == old(self).phases(),
            final(self).spec_fixtures() == old(self).spec_fixtures(),
            final(self).spec_stats() == old(self).spec_stats(),
            final(self).spec_running() == old(self).spec_running(),
            final(self).spec_tests() == old(self).spec_tests(),
            final(self).spec_runners() == old(self).spec_runners(),
            final(self).slow_flags() == old(self).slow_flags(),
            final(self).skip_reasons() == old(self).skip_reasons(),
            final(self).spec_budget() == old(self).spec_budget(),
            final(self).spec_filtered_out() == old(self).spec_filtered_out(),
            final(self).spec_ignored() == old(self).spec_ignored(),
            old(self).spec_stats().initial_run_count + old(self).spec_stats().skipped
                == old(self).spec_tests().len(),
            e matches TestEvent::RunStarted { test_list } && test_list.tests@.len()
                == old(self).spec_stats().initial_run_count && test_list.skip_count
                == old(self).spec_stats().skipped && test_list.tests@.len() == run_list(
                old(self).spec_tests(),
                old(self).skip_reasons(),
            ).len() && forall|m: int|
                0 <= m < test_list.tests@.len() ==> (#[trigger] test_list.tests@[m]).same_as(
                    run_list(old(self).spec_tests(), old(self).skip_reasons())[m],
                ),
    {
        let e = self.start_event();
        proof {
            lemma_log_run_step(self.log@, self.phases@, Step::RunStarted);
            assert(self.log@.push(Step::RunStarted) =~= seq![Step::RunStarted]);
        }
        self.log = Ghost(self.log@.push(Step::RunStarted));
        e
    }

    /// The events that announce the skipped tests, in the order of the
    /// tests, each with its reason.
    pub fn skipped_events(&self) -> (r: Vec<TestEvent>)
        requires
            self.wf(),
        ensures
            r@.len() == self.spec_stats().skipped,
            r@.len() == skipped_list(self.spec_tests(), self.skip_reasons()).len(),
            forall|m: int|
                0 <= m < r@.len() ==> (#[trigger] r@[m] matches TestEvent::TestSkipped { test_instance, reason }
                    && (test_instance.name@, reason) == skipped_list(self.spec_tests(), self.skip_reasons())[m]),
    {
        let mut events: Vec<TestEvent> = Vec::new();
        let mut i: usize = 0;
        while i < self.phases.len()
            invariant
                self.wf(),
                i <= self.phases@.len(),
                events@.len() == count(self.phases@.subrange(0, i as int), Phase::Skipped),
                events@.len() == skipped_list(
                    self.tests@.subrange(0, i as int),
                    self.reasons@.subrange(0, i as int),
                ).len(),
                forall|m: int|
                    0 <= m < events@.len() ==> (#[trigger] events@[m] matches TestEvent::TestSkipped { test_instance, reason }
                        && (test_instance.name@, reason) == skipped_list(
                        self.tests@.subrange(0, i as int),
                        self.reasons@.subrange(0, i as int),
                    )[m]),
            decreases self.phases@.len() - i,
        {
            proof {
                let s = self.phases@.subrange(0, i + 1);
                assert(s == self.phases@.subrange(0, i as int).push(self.phases@[i as int]));
                lemma_count_push(self.phases@.subrange(0, i as int), self.phases@[i as int], Phase::Skipped);
                let t = self.tests@.subrange(0, i + 1);
                let r = self.reasons@.subrange(0, i + 1);
                assert(t.drop_last() == self.tests@.subrange(0, i as int));
                assert(r.drop_last() == self.reasons@.subrange(0, i as int));
                assert(t.last() == self.tests@[i as int]);
                assert(r.last() == self.reasons@[i as int]);
            }
            match self.reasons[i] {
                Some(reason) => {
                    events.push(TestEvent::TestSkipped { test_instance: self.instance(i), reason });
                },
                None => {},
            }
            i += 1;
        }
        assert(self.phases@.subrange(0, i as int) == self.phases@);
        assert(self.tests@.subrange(0, i as int) == self.tests@);
        assert(self.reasons@.subrange(0, i as int) == self.reasons@);
        events
    }

    /// Stores the value that the initializer of fixture `key`, called
    /// `name`, produced in `duration` milliseconds, and returns the event
    /// that reports it.
    pub fn fixture_ready(&mut self, key: FixtureKey, name: String, value: V, duration: u64) -> (e: TestEvent)
        requires
            old(self).wf(),
            key < old(self).spec_fixtures().slots().len(),
            old(self).spec_fixtures().slots()[key as int] is Initializing,
        ensures
            final(self).wf(),
            final(self).spec_fixtures().slots() == old(self).spec_fixtures().slots().update(key as int, Slot::Ready(value)),
            final(self).spec_fixtures().inits() == old(self).spec_fixtures().inits(),
            work_left(*final(self)) == work_left(*old(self)),
            final(self).log() == old(self).log(),
            final(self).phases() == old(self).phases(),
            final(self).spec_stats() == old(self).spec_stats(),
            final(self).spec_running() == old(self).spec_running(),
            final(self).spec_tests() == old(self).spec_tests(),
            final(self).spec_runners() == old(self).spec_runners(),
            final(self).slow_flags() == old(self).slow_flags(),
            final(self).spec_budget() == old(self).spec_budget(),
            final(self).spec_filtered_out() == old(self).spec_filtered_out(),
            final(self).spec_ignored() == old(self).spec_ignored(),
            e == (TestEvent::SetupFinished {
                test_instance: TestInstance { name },
                duration,
                current_stats: old(self).spec_stats(),
                running: old(self).spec_running() as usize,
            }),
    {
        proof {
            crate::fixture::lemma_count_empty_update(self.fixtures.slots(), key as int, Slot::Ready(value));
        }
        self.fixtures.fill(key, value);
        TestEvent::SetupFinished {
            test_instance: TestInstance { name },
            duration,
            current_stats: self.stats,
            running: self.running,
        }
    }

    /// The event that reports the start of running test `i`.
    pub fn test_started(&self, i: usize) -> (e: TestEvent)
        requires
            self.wf(),
            i < self.phases().len(),
            self.phases()[i as int] == Phase::Running,
        ensures
            e matches TestEvent::TestStarted { test_instance, current_stats, running, cancel_state }
                && test_instance.name == self.spec_tests()[i as int].name
                && current_stats == self.spec_stats()
                && running == self.spec_running()
                && cancel_state is None,
    {
        TestEvent::TestStarted {
            test_instance: self.instance(i),
            current_stats: self.stats,
            running: self.running,
            cancel_state: None,
        }
    }

    /// Records that running test `i` has run past `periods` slow periods,
    /// and returns the event that reports it, with the elapsed time of those
    /// periods. The test goes on running.
    pub fn test_slow(&mut self, i: usize, periods: u64) -> (e: TestEvent)
        requires
            old(self).wf(),
            i < old(self).phases().len(),
            old(self).phases()[i as int] == Phase::Running,
            1 <= periods <= u64::MAX / SLOW_PERIOD_MS,
        ensures
            final(self).wf(),
            final(self).slow_flags() == old(self).slow_flags().update(i as int, true),
            final(self).log() == old(self).log().push(Step::Slow(i)),
            final(self).phases() == old(self).phases(),
            final(self).spec_fixtures() == old(self).spec_fixtures(),
            final(self).spec_stats() == old(self).spec_stats(),
            final(self).spec_running() == old(self).spec_running(),
            final(self).spec_tests() == old(self).spec_tests(),
            final(self).spec_runners() == old(self).spec_runners(),
            final(self).spec_budget() == old(self).spec_budget(),
            final(self).spec_filtered_out() == old(self).spec_filtered_out(),
            final(self).spec_ignored() == old(self).spec_ignored(),
            e matches TestEvent::TestSlow { test_instance, elapsed, will_terminate }
                && test_instance.name == old(self).spec_tests()[i as int].name
                && elapsed == periods * SLOW_PERIOD_MS && !will_terminate,
    {
        proof {
            let h = history(self.log@, i);
            assert(history_ok(h, i, Phase::Running));
            let h2 = h.push(Step::Slow(i));
            assert forall|k: int| 1 <= k < h2.len() implies #[trigger] h2[k] == Step::Slow(i) by {
                if k < h.len() {
                    assert(h2[k] == h[k]);
                }
            }
            lemma_history_in_log(self.log@, i);
            assert(self.phases.len() == self.phases@.len());
            lemma_log_test_step(self.log@, self.phases@, i as int, Phase::Running, Step::Slow(i));
            assert(self.phases@.update(i as int, Phase::Running) == self.phases@);
        }
        self.log = Ghost(self.log@.push(Step::Slow(i)));
        self.slow.set(i, true);
        let elapsed = periods * SLOW_PERIOD_MS;
        TestEvent::TestSlow { test_instance: self.instance(i), elapsed, will_terminate: false }
    }

    /// Records the outcome of running test `i`, which started at
    /// `start_time` and took `time_taken` milliseconds, and returns the event
    /// that reports it.
    pub fn test_finished(&mut self, i: usize, outcome: Outcome, start_time: u64, time_taken: u64) -> (e: TestEvent)
        requires
            old(self).wf(),
            i < old(self).phases().len(),
            old(self).phases()[i as int] == Phase::Running,
        ensures
            final(self).wf(),
            finish_step(*old(self), i as int, outcome, *final(self)),
            final(self).log() == old(self).log().push(Step::Finished(i)),
            work_left(*final(self)) == work_left(*old(self)),
            e matches TestEvent::TestFinished {
                test_instance,
                success_output,
                failure_output,
                junit_store_success_output,
                junit_store_failure_output,
                run_status,
                current_stats,
                running,
                cancel_state,
            } && test_instance.name == old(self).spec_tests()[i as int].name
                && success_output == TestOutputDisplay::Never
                && failure_output == TestOutputDisplay::Immediate
                && !junit_store_success_output && !junit_store_failure_output
                && run_status.result == (if outcome is Passed { ExecutionResult::Pass } else { ExecutionResult::Fail })
                && (outcome matches Outcome::Failed(m) ==> run_status.output == Some(m))
                && (outcome is Passed ==> run_status.output is None)
                && run_status.start_time == start_time
                && run_status.time_taken == time_taken
                && run_status.is_slow == old(self).slow_flags()[i as int]
                && current_stats == final(self).spec_stats()
                && running == final(self).spec_running()
                && cancel_state is None,
    {
        let slow = self.slow[i];
        let ghost ph = self.phases@;
        proof {
            lemma_count_total(ph);
            let h = history(self.log@, i);
            assert(history_ok(h, i, Phase::Running));
            let h2 = h.push(Step::Finished(i));
            assert forall|k: int| 1 <= k < h2.len() - 1 implies #[trigger] h2[k] == Step::Slow(i) by {
                assert(h2[k] == h[k]);
            }
            lemma_history_in_log(self.log@, i);
            assert(self.phases.len() == self.phases@.len());
            let p1 = if outcome is Passed { Phase::Passed } else { Phase::Failed };
            lemma_log_test_step(self.log@, self.phases@, i as int, p1, Step::Finished(i));
        }
        self.log = Ghost(self.log@.push(Step::Finished(i)));
        let (result, output) = match outcome {
            Outcome::Passed => {
                proof {
                    lemma_count_update(ph, i as int, Phase::Passed, Phase::Running);
                    lemma_count_update(ph, i as int, Phase::Passed, Phase::Passed);
                    lemma_count_update(ph, i as int, Phase::Passed, Phase::Failed);
                    lemma_count_update(ph, i as int, Phase::Passed, Phase::Skipped);
                    lemma_count_update(ph, i as int, Phase::Passed, Phase::Waiting);
                }
                self.phases.set(i, Phase::Passed);
                self.stats.passed = self.stats.passed + 1;
                if slow {
                    self.stats.passed_slow = self.stats.passed_slow + 1;
                }
                (ExecutionResult::Pass, None)
            },
            Outcome::Failed(m) => {
                proof {
                    lemma_count_update(ph, i as int, Phase::Failed, Phase::Running);
                    lemma_count_update(ph, i as int, Phase::Failed, Phase::Passed);
                    lemma_count_update(ph, i as int, Phase::Failed, Phase::Failed);
                    lemma_count_update(ph, i as int, Phase::Failed, Phase::Skipped);
                    lemma_count_update(ph, i as int, Phase::Failed, Phase::Waiting);
                }
                self.phases.set(i, Phase::Failed);
                self.stats.failed = self.stats.failed + 1;
                if slow {
                    self.stats.failed_slow = self.stats.failed_slow + 1;
                }
                (ExecutionResult::Fail, Some(m))
            },
        };
        self.stats.finished_count = self.stats.finished_count + 1;
        self.running = self.running - 1;
        TestEvent::TestFinished {
            test_instance: self.instance(i),
            success_output: TestOutputDisplay::Never,
            failure_output: TestOutputDisplay::Immediate,
            junit_store_success_output: false,
            junit_store_failure_output: false,
            run_status: ExecuteStatus {
                output,
                result,
                start_time,
                time_taken,
                is_slow: slow,
                delay_before_start: 0,
            },
            current_stats: self.stats,
            running: self.running,
            cancel_state: None,
        }
    }

    /// Ends the run, once every test has reached a terminal state: records
    /// the end and returns the event with the final statistics.
    pub fn run_finished(&mut self, start_time: u64, elapsed: u64) -> (e: TestEvent)
        requires
            old(self).wf(),
            old(self).is_done(),
            old(self).log().len() > 0,
            old(self).log().last() != Step::RunFinished,
        ensures
            final(self).wf(),
            final(self).log() == old(self).log().push(Step::RunFinished),
            final(self).phases() == old(self).phases(),
            final(self).spec_stats() == old(self).spec_stats(),
            final(self).spec_tests() == old(self).spec_tests(),
            final(self).skip_reasons() == old(self).skip_reasons(),
            final(self).spec_filtered_out() == old(self).spec_filtered_out(),
            final(self).spec_ignored() == old(self).spec_ignored(),
            e == (TestEvent::RunFinished { start_time, elapsed, run_stats: old(self).spec_stats() }),
            old(self).spec_stats().finished_count == old(self).spec_stats().passed + old(self).spec_stats().failed,
            old(self).spec_stats().finished_count == old(self).spec_stats().initial_run_count,
    {
        proof {
            lemma_done_counts(*self);
            lemma_log_run_step(self.log@, self.phases@, Step::RunFinished);
        }
        self.log = Ghost(self.log@.push(Step::RunFinished));
        TestEvent::RunFinished { start_time, elapsed, run_stats: self.stats }
    }

    /// The conclusion of the run: the tests filtered out, passed, failed
    /// and held back as ignored.
    pub open spec fn spec_conclusion(&self) -> Conclusion {
        Conclusion {
            num_filtered_out: self.spec_filtered_out() as usize,
            num_passed: self.spec_stats().passed,
            num_failed: self.spec_stats().failed,
            num_ignored: self.spec_ignored() as usize,
        }
    }

    /// The conclusion of the run so far.
    pub fn conclusion(&self) -> (r: Conclusion)
        ensures
            r == self.spec_conclusion(),
    {
        Conclusion {
            num_filtered_out: self.filtered_out,
            num_passed: self.stats.passed,
            num_failed: self.stats.failed,
            num_ignored: self.ignored,
        }
    }

    /// The phase of test `i`.
    pub fn phase(&self, i: usize) -> (r: Phase)
        requires
            self.wf(),
            i < self.phases().len(),
        ensures
            r == self.phases()[i as int],
    {
        self.phases[i]
    }

    /// The run statistics.
    pub fn stats(&self) -> (r: RunStats)
        ensures
            r == self.spec_stats(),
    {
        self.stats
    }

    /// The number of tests.
    pub fn len(&self) -> (r: usize)
        requires
            self.wf(),
        ensures
            r == self.phases().len(),
    {
        self.phases.len()
    }

    /// The information of test `i`.
    pub fn test_info(&self, i: usize) -> (r: &TestInfo)
        requires
            self.wf(),
            i < self.phases().len(),
        ensures
            *r == self.spec_tests()[i as int],
    {
        &self.tests[i]
    }

    /// The runner of test `i`.
    pub fn runner(&self, i: usize) -> (r: &F)
        requires
            self.wf(),
            i < self.phases().len(),
        ensures
            *r == self.spec_runners()[i as int],
    {
        &self.runners[i]
    }

    /// The fixture table, from which running tests read their fixtures.
    pub fn fixtures(&self) -> (r: &FixtureTable<V>)
        ensures
            *r == self.spec_fixtures(),
    {
        &self.fixtures
    }

    /// The number of tests that the filters left out.
    pub fn num_filtered_out(&self) -> (r: usize)
        ensures
            r == self.spec_filtered_out(),
    {
        self.filtered_out
    }

    /// The number of tests held back as ignored.
    pub fn num_ignored(&self) -> (r: usize)
        ensures
            r == self.spec_ignored(),
    {
        self.ignored
    }
}

/// What recording the outcome of running test `i` does to the state `s0`,
/// giving `s1`: the test reaches the terminal state of its outcome, the
/// statistics count it, and nothing else changes.
pub open spec fn finish_step<F, V>(s0: Scheduler<F, V>, i: int, outcome: Outcome, s1: Scheduler<F, V>) -> bool {
    let passed = outcome is Passed;
    let slow = s0.slow_flags()[i];
    &&& s1.phases() == s0.phases().update(i, if passed { Phase::Passed } else { Phase::Failed })
    &&& s1.spec_stats() == (RunStats {
        finished_count: (s0.spec_stats().finished_count + 1) as usize,
        passed: (s0.spec_stats().passed + if passed { 1int } else { 0int }) as usize,
        passed_slow: (s0.spec_stats().passed_slow + if passed && slow { 1int } else { 0int }) as usize,
        failed: (s0.spec_stats().failed + if passed { 0int } else { 1int }) as usize,
        failed_slow: (s0.spec_stats().failed_slow + if !passed && slow { 1int } else { 0int }) as usize,
        ..s0.spec_stats()
    })
    &&& s1.spec_running() + 1 == s0.spec_running()
    &&& s1.spec_fixtures() == s0.spec_fixtures()
    &&& s1.spec_tests() == s0.spec_tests()
    &&& s1.spec_runners() == s0.spec_runners()
    &&& s1.slow_flags() == s0.slow_flags()
    &&& s1.spec_budget() == s0.spec_budget()
    &&& s1.spec_filtered_out() == s0.spec_filtered_out()
    &&& s1.spec_ignored() == s0.spec_ignored()
}

/// Every test ends in exactly one terminal state: when the run is done, no
/// test waits or runs, each is skipped, passed or failed, and the three
/// counts add up to the number of tests.
pub proof fn lemma_one_terminal_state<F, V>(done: Scheduler<F, V>)
    requires
        done.wf(),
        done.is_done(),
    ensures
        forall|j: int| 0 <= j < done.phases().len() ==> (#[trigger] done.phases()[j]).is_terminal(),
        count(done.phases(), Phase::Waiting) == 0,
        count(done.phases(), Phase::Running) == 0,
        count(done.phases(), Phase::Skipped) + count(done.phases(), Phase::Passed) + count(
            done.phases(),
            Phase::Failed,
        ) == done.phases().len(),
{
    lemma_done_counts(done);
    lemma_count_total(done.phases());
}

/// A terminal state is final: recording an outcome moves the running test
/// to the terminal state of that outcome and moves no test out of a
/// terminal state.
pub proof fn lemma_terminal_states_stay<F, V>(
    s0: Scheduler<F, V>,
    i: int,
    outcome: Outcome,
    s1: Scheduler<F, V>,
)
    requires
        s0.wf(),
        0 <= i < s0.phases().len(),
        s0.phases()[i] == Phase::Running,
        finish_step(s0, i, outcome, s1),
    ensures
        s1.phases()[i] == if outcome is Passed {
            Phase::Passed
        } else {
            Phase::Failed
        },
        forall|j: int|
            0 <= j < s0.phases().len() && (#[trigger] s0.phases()[j]).is_terminal() ==> s1.phases()[j]
                == s0.phases()[j],
{
}

/// A failing test does not stop the others: recording a failure changes the
/// phase of that test alone and leaves every fixture as it was, so every
/// other test can still run to its end.
pub proof fn lemma_failure_is_local<F, V>(
    s0: Scheduler<F, V>,
    i: int,
    message: String,
    s1: Scheduler<F, V>,
)
    requires
        s0.wf(),
        0 <= i < s0.phases().len(),
        s0.phases()[i] == Phase::Running,
        finish_step(s0, i, Outcome::Failed(message), s1),
    ensures
        s1.phases()[i] == Phase::Failed,
        forall|j: int| 0 <= j < s0.phases().len() && j != i ==> #[trigger] s1.phases()[j] == s0.phases()[j],
        s1.spec_fixtures() == s0.spec_fixtures(),
        s1.spec_stats().failed == s0.spec_stats().failed + 1,
        s1.spec_stats().passed == s0.spec_stats().passed,
{
    lemma_count_total(s0.phases());
    lemma_count_update(s0.phases(), i, Phase::Failed, Phase::Running);
    assert(s0.phases.len() == s0.phases@.len());
}

/// The finished count is the number of passed and failed tests, and never
/// exceeds the number of tests that were to run; when the run is done, the
/// two are equal.
pub proof fn lemma_finished_within_initial<F, V>(s: Scheduler<F, V>)
    requires
        s.wf(),
    ensures
        s.spec_stats().finished_count == s.spec_stats().passed + s.spec_stats().failed,
        s.spec_stats().finished_count <= s.spec_stats().initial_run_count,
        s.is_done() ==> s.spec_stats().finished_count == s.spec_stats().initial_run_count,
        s.spec_filtered_out() + s.spec_ignored() + s.spec_stats().initial_run_count
            == s.phases().len(),
        s.spec_tests().len() == s.phases().len(),
{
    lemma_count_total(s.phases());
    if s.is_done() {
        lemma_done_counts(s);
    }
}

/// The statistics of a well-formed run count the phases of its tests, the
/// skipped tests are those filtered out or held back as ignored, and the
/// log of the run is in order.
pub proof fn lemma_stats_agree<F, V>(s: Scheduler<F, V>)
    requires
        s.wf(),
    ensures
        s.spec_stats().passed == count(s.phases(), Phase::Passed),
        s.spec_stats().failed == count(s.phases(), Phase::Failed),
        s.spec_stats().skipped == count(s.phases(), Phase::Skipped),
        s.spec_stats().finished_count == s.spec_stats().passed + s.spec_stats().failed,
        s.spec_stats().initial_run_count + s.spec_stats().skipped == s.phases().len(),
        s.spec_filtered_out() + s.spec_ignored() == s.spec_stats().skipped,
        s.spec_tests().len() == s.phases().len(),
        s.spec_running() == count(s.phases(), Phase::Running),
        log_ok(s.log(), s.phases()),
{
}

/// The measure of the work left: tests that wait, and fixtures that nobody
/// has claimed.
pub open spec fn work_left<F, V>(s: Scheduler<F, V>) -> nat {
    count(s.phases(), Phase::Waiting) + crate::fixture::count_empty(s.spec_fixtures().slots())
}

/// When every test has reached a terminal state, each test has exactly one
/// of them, and the finished tests are exactly those that were to run.
proof fn lemma_done_counts<F, V>(s: Scheduler<F, V>)
    requires
        s.wf(),
        s.is_done(),
    ensures
        count(s.phases(), Phase::Waiting) == 0,
        count(s.phases(), Phase::Running) == 0,
        s.spec_stats().finished_count == s.spec_stats().initial_run_count,
{
    if count(s.phases(), Phase::Waiting) > 0 {
        let w = lemma_count_positive(s.phases(), Phase::Waiting);
        assert(s.phases()[w].is_terminal());
    }
    if count(s.phases(), Phase::Running) > 0 {
        let w = lemma_count_positive(s.phases(), Phase::Running);
        assert(s.phases()[w].is_terminal());
    }
    lemma_count_total(s.phases());
}

} // verus!