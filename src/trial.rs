//! Test units and the construction of the test set.

use vstd::prelude::*;

verus! {

/// The identity of a fixture type: an index into the fixture table.
pub type FixtureKey = usize;

/// Marks that a type used as a test's fixture has a registered setup
/// function. A host that registers fixtures by type implements it for each
/// such type, so that a test asking for an unregistered type can be refused
/// when it is compiled.
pub trait TestRequirementHasSetupFnFor<T> {}

/// What the harness knows of a test: its name, whether it is marked ignored,
/// and the fixtures it requires.
#[derive(Clone, Debug)]
pub struct TestInfo {
    /// The name of the test.
    pub name: String,
    /// Whether the test is marked ignored.
    pub is_ignored: bool,
    /// The fixtures the test requires, possibly listed more than once.
    pub fixtures: Vec<FixtureKey>,
}

impl TestInfo {
    /// The two hold the same name, flag and fixtures.
    pub open spec fn same_as(&self, other: TestInfo) -> bool {
        self.name == other.name && self.is_ignored == other.is_ignored && self.fixtures@
            == other.fixtures@
    }

    /// A copy of this information.
    pub fn duplicate(&self) -> (r: TestInfo)
        ensures
            r.same_as(*self),
    {
        let mut fixtures: Vec<FixtureKey> = Vec::new();
        let mut j: usize = 0;
        while j < self.fixtures.len()
            invariant
                j <= self.fixtures@.len(),
                fixtures@ == self.fixtures@.subrange(0, j as int),
            decreases self.fixtures@.len() - j,
        {
            fixtures.push(self.fixtures[j]);
            j += 1;
            assert(fixtures@ =~= self.fixtures@.subrange(0, j as int));
        }
        assert(fixtures@ =~= self.fixtures@);
        TestInfo { name: self.name.clone(), is_ignored: self.is_ignored, fixtures }
    }
}

/// A single test: its name, its ignored flag, the fixtures it requires, and
/// the runner that performs it.
pub struct Trial<F> {
    runner: F,
    info: TestInfo,
}

impl<F> Trial<F> {
    /// The information of this trial.
    pub closed spec fn spec_info(&self) -> TestInfo {
        self.info
    }

    /// The runner of this trial.
    pub closed spec fn spec_runner(&self) -> F {
        self.runner
    }

    /// Creates a test with the given name and runner. It is not ignored and
    /// requires no fixture.
    pub fn test(name: String, runner: F) -> (r: Trial<F>)
        ensures
            r.spec_info().name@ == name@,
            !r.spec_info().is_ignored,
            r.spec_info().fixtures@.len() == 0,
            r.spec_runner() == runner,
    {
        Trial { runner, info: TestInfo { name, is_ignored: false, fixtures: Vec::new() } }
    }

    /// Sets whether this test is ignored: an ignored test runs only when
    /// ignored tests are asked for.
    pub fn with_ignored_flag(self, is_ignored: bool) -> (r: Trial<F>)
        ensures
            r.spec_info() == (TestInfo { is_ignored, ..self.spec_info() }),
            r.spec_runner() == self.spec_runner(),
    {
        Trial { info: TestInfo { is_ignored, ..self.info }, ..self }
    }

    /// Adds a fixture that this test requires.
    pub fn with_fixture(self, key: FixtureKey) -> (r: Trial<F>)
        ensures
            r.spec_info().name == self.spec_info().name,
            r.spec_info().is_ignored == self.spec_info().is_ignored,
            r.spec_info().fixtures@ == self.spec_info().fixtures@.push(key),
            r.spec_runner() == self.spec_runner(),
    {
        let Trial { runner, info } = self;
        let TestInfo { name, is_ignored, mut fixtures } = info;
        fixtures.push(key);
        Trial { runner, info: TestInfo { name, is_ignored, fixtures } }
    }

    /// Returns the name of this trial.
    pub fn name(&self) -> (r: &str)
        ensures
            r@ == self.spec_info().name@,
    {
        self.info.name.as_str()
    }

    /// Returns whether this trial is marked ignored.
    pub fn has_ignored_flag(&self) -> (r: bool)
        ensures
            r == self.spec_info().is_ignored,
    {
        self.info.is_ignored
    }
}

/// Every fixture that the test requires is one of the `fixture_count`
/// registered fixtures.
pub open spec fn requirements_registered(info: TestInfo, fixture_count: nat) -> bool {
    forall|j: int| 0 <= j < info.fixtures@.len() ==> #[trigger] info.fixtures@[j] < fixture_count
}

/// A test asked for fixtures that nobody registered: a configuration error
/// that stops the construction of the test set.
#[derive(Clone, Debug)]
pub struct MissingFixtures {
    /// The name of the test.
    pub test: String,
    /// The required keys that have no fixture, in the order required.
    pub missing: Vec<FixtureKey>,
}

/// Collects the tests of a run, checking each against the registered
/// fixtures.
pub struct Tester<F> {
    fixture_count: usize,
    infos: Vec<TestInfo>,
    runners: Vec<F>,
}

impl<F> Tester<F> {
    /// The number of registered fixtures.
    pub closed spec fn spec_fixture_count(&self) -> nat {
        self.fixture_count as nat
    }

    /// The tests added so far, in order.
    pub closed spec fn spec_infos(&self) -> Seq<TestInfo> {
        self.infos@
    }

    /// The runners of the tests added so far, in order.
    pub closed spec fn spec_runners(&self) -> Seq<F> {
        self.runners@
    }

    /// Every test added so far requires only registered fixtures, and each
    /// has its runner.
    pub open spec fn wf(&self) -> bool {
        &&& self.spec_infos().len() == self.spec_runners().len()
        &&& forall|i: int|
            0 <= i < self.spec_infos().len() ==> requirements_registered(
                #[trigger] self.spec_infos()[i],
                self.spec_fixture_count(),
            )
    }

    /// An empty test set over fixtures `0 .. fixture_count`.
    pub fn new(fixture_count: usize) -> (r: Tester<F>)
        ensures
            r.wf(),
            r.spec_fixture_count() == fixture_count,
            r.spec_infos().len() == 0,
    {
        Tester { fixture_count, infos: Vec::new(), runners: Vec::new() }
    }

    /// Adds a trial to the set. A trial that requires a fixture that is not
    /// registered is refused with the list of the missing keys, and the set
    /// is left as it was.
    pub fn add(&mut self, trial: Trial<F>) -> (r: Result<(), MissingFixtures>)
        requires
            old(self).wf(),
        ensures
            final(self).wf(),
            final(self).spec_fixture_count() == old(self).spec_fixture_count(),
            r is Ok <==> requirements_registered(trial.spec_info(), old(self).spec_fixture_count()),
            r is Ok ==> final(self).spec_infos() == old(self).spec_infos().push(trial.spec_info())
                && final(self).spec_runners() == old(self).spec_runners().push(
                trial.spec_runner(),
            ),
            r matches Err(e) ==> *final(self) == *old(self) && e.test@ == trial.spec_info().name@
                && e.missing@ == trial.spec_info().fixtures@.filter(
                |k: FixtureKey| k >= old(self).spec_fixture_count(),
            ),
    {
        let ghost pred = |k: FixtureKey| k >= self.fixture_count;
        let mut missing: Vec<FixtureKey> = Vec::new();
        let mut j: usize = 0;
        while j < trial.info.fixtures.len()
            invariant
                j <= trial.info.fixtures@.len(),
                pred == (|k: FixtureKey| k >= self.fixture_count),
                missing@ == trial.info.fixtures@.subrange(0, j as int).filter(pred),
            decreases trial.info.fixtures@.len() - j,
        {
            let k = trial.info.fixtures[j];
            proof {
                let s = trial.info.fixtures@;
                assert(s.subrange(0, j + 1) == s.subrange(0, j as int).push(k));
                s.subrange(0, j as int).lemma_filter_push(k, pred);
            }
            if k >= self.fixture_count {
                missing.push(k);
            }
            j += 1;
        }
        assert(trial.info.fixtures@.subrange(0, j as int) == trial.info.fixtures@);
        if missing.len() > 0 {
            proof {
                let s = trial.info.fixtures@;
                let m = missing@;
                assert(m.contains(m[0]));
                s.lemma_filter_contains_rev(pred, m[0]);
            }
            return Err(MissingFixtures { test: trial.info.name, missing });
        }
        proof {
            assert forall|i: int| 0 <= i < trial.info.fixtures@.len() implies #[trigger] trial.info.fixtures@[i]
                < self.fixture_count by {
                if trial.info.fixtures@[i] >= self.fixture_count {
                    trial.info.fixtures@.lemma_filter_contains(pred, i);
                }
            }
        }
        let Trial { runner, info } = trial;
        self.infos.push(info);
        self.runners.push(runner);
        Ok(())
    }

    /// The number of registered fixtures.
    pub fn fixture_count(&self) -> (r: usize)
        ensures
            r == self.spec_fixture_count(),
    {
        self.fixture_count
    }

    /// The number of tests added.
    pub fn len(&self) -> (r: usize)
        ensures
            r == self.spec_infos().len(),
    {
        self.infos.len()
    }

    /// Splits the set into the tests' information and their runners.
    pub fn finish(self) -> (r: (Vec<TestInfo>, Vec<F>))
        requires
            self.wf(),
        ensures
            r.0@ == self.spec_infos(),
            r.1@ == self.spec_runners(),
    {
        (self.infos, self.runners)
    }
}

} // verus!
