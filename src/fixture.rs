//! The fixture table: one write-once slot per fixture type.
//!
//! A fixture is initialized lazily by the first test that needs it. The
//! table decides who initializes: the first claim of a key hands out the
//! initialization, later claims wait for it or read the stored value.

use vstd::prelude::*;

use crate::trial::FixtureKey;

verus! {

/// The state of one fixture slot.
pub enum Slot<V> {
    /// Nobody has asked for the fixture yet.
    Empty,
    /// The initializer is running.
    Initializing,
    /// The initializer has finished and stored its value.
    Ready(V),
}

/// The answer to a claim on a fixture.
#[derive(Copy, Clone, Debug, PartialEq, Eq, Structural)]
pub enum Claim {
    /// The caller must run the initializer, then fill the slot.
    Initialize,
    /// Another caller is running the initializer: wait for the slot.
    Wait,
    /// The value is stored and can be read.
    Ready,
}

/// One write-once slot per fixture key.
pub struct FixtureTable<V> {
    slots: Vec<Slot<V>>,
    inits: Ghost<Seq<nat>>,
}

impl<V> FixtureTable<V> {
    /// The slots, by key.
    pub closed spec fn slots(&self) -> Seq<Slot<V>> {
        self.slots@
    }

    /// How many times the initialization of each key was handed out.
    pub closed spec fn inits(&self) -> Seq<nat> {
        self.inits@
    }

    /// Each key's initialization was handed out once if the slot has left
    /// the empty state, and never otherwise.
    pub open spec fn wf(&self) -> bool {
        &&& self.inits().len() == self.slots().len()
        &&& forall|k: int|
            0 <= k < self.slots().len() ==> #[trigger] self.inits()[k] == if self.slots()[k] is Empty {
                0nat
            } else {
                1nat
            }
    }

    /// The fixture of `key` holds `value`.
    pub open spec fn holds(&self, key: int, value: V) -> bool {
        0 <= key < self.slots().len() && self.slots()[key] == Slot::Ready(value)
    }

    /// A table of `n` empty slots.
    pub fn new(n: usize) -> (r: FixtureTable<V>)
        ensures
            r.wf(),
            r.slots().len() == n,
            forall|k: int| 0 <= k < n ==> #[trigger] r.slots()[k] is Empty,
    {
        let mut slots: Vec<Slot<V>> = Vec::new();
        let mut i: usize = 0;
        while i < n
            invariant
                i <= n,
                slots@.len() == i,
                forall|k: int| 0 <= k < i ==> #[trigger] slots@[k] is Empty,
            decreases n - i,
        {
            slots.push(Slot::Empty);
            i += 1;
        }
        FixtureTable { slots, inits: Ghost(Seq::new(n as nat, |k: int| 0nat)) }
    }

    /// The number of keys.
    pub fn len(&self) -> (r: usize)
        ensures
            r == self.slots().len(),
    {
        self.slots.len()
    }

    /// Whether the fixture of `key` is stored.
    pub fn is_ready(&self, key: FixtureKey) -> (r: bool)
        requires
            key < self.slots().len(),
        ensures
            r == self.slots()[key as int] is Ready,
    {
        match &self.slots[key] {
            Slot::Ready(_) => true,
            _ => false,
        }
    }

    /// Whether nobody has claimed the fixture of `key` yet.
    pub fn is_empty_slot(&self, key: FixtureKey) -> (r: bool)
        requires
            key < self.slots().len(),
        ensures
            r == self.slots()[key as int] is Empty,
    {
        match &self.slots[key] {
            Slot::Empty => true,
            _ => false,
        }
    }

    /// Claims the fixture of `key`. The first claim gets the initialization
    /// and marks the slot as initializing; later claims wait until the slot
    /// is filled, then read it.
    pub fn claim(&mut self, key: FixtureKey) -> (c: Claim)
        requires
            old(self).wf(),
            key < old(self).slots().len(),
        ensures
            final(self).wf(),
            claim_step(*old(self), key as int, *final(self), c),
    {
        match &self.slots[key] {
            Slot::Empty => {
                self.slots.set(key, Slot::Initializing);
                self.inits = Ghost(self.inits@.update(key as int, 1));
                Claim::Initialize
            },
            Slot::Initializing => Claim::Wait,
            Slot::Ready(_) => Claim::Ready,
        }
    }

    /// Stores the value that the initializer of `key` produced.
    pub fn fill(&mut self, key: FixtureKey, value: V)
        requires
            old(self).wf(),
            key < old(self).slots().len(),
            old(self).slots()[key as int] is Initializing,
        ensures
            final(self).wf(),
            final(self).slots() == old(self).slots().update(key as int, Slot::Ready(value)),
            final(self).inits() == old(self).inits(),
    {
        self.slots.set(key, Slot::Ready(value));
    }

    /// The stored value of `key`, if the slot is filled.
    pub fn get(&self, key: FixtureKey) -> (r: Option<&V>)
        requires
            key < self.slots().len(),
        ensures
            r matches Some(v) ==> self.slots()[key as int] == Slot::Ready(*v),
            r is None ==> !(self.slots()[key as int] is Ready),
    {
        match &self.slots[key] {
            Slot::Ready(v) => Some(v),
            _ => None,
        }
    }
}

/// The number of slots of `s` that nobody has claimed.
pub open spec fn count_empty<V>(s: Seq<Slot<V>>) -> nat
    decreases s.len(),
{
    if s.len() == 0 {
        0
    } else {
        count_empty(s.drop_last()) + if s.last() is Empty {
            1nat
        } else {
            0nat
        }
    }
}

/// Filling or claiming one slot changes the count of empty slots by that
/// slot alone.
pub proof fn lemma_count_empty_update<V>(s: Seq<Slot<V>>, i: int, x: Slot<V>)
    requires
        0 <= i < s.len(),
    ensures
        count_empty(s.update(i, x)) + (if s[i] is Empty {
            1int
        } else {
            0int
        }) == count_empty(s) + if x is Empty {
            1int
        } else {
            0int
        },
    decreases s.len(),
{
    if i == s.len() - 1 {
        assert(s.update(i, x).drop_last() == s.drop_last());
    } else {
        lemma_count_empty_update(s.drop_last(), i, x);
        assert(s.update(i, x).drop_last() == s.drop_last().update(i, x));
    }
}

/// What a claim of `key` does to the table `t0`, giving `t1` and the answer `c`.
pub open spec fn claim_step<V>(t0: FixtureTable<V>, key: int, t1: FixtureTable<V>, c: Claim) -> bool {
    match t0.slots()[key] {
        Slot::Empty => c == Claim::Initialize && t1.slots() == t0.slots().update(
            key,
            Slot::Initializing,
        ) && t1.inits() == t0.inits().update(key, 1),
        Slot::Initializing => c == Claim::Wait && t1 == t0,
        Slot::Ready(_) => c == Claim::Ready && t1 == t0,
    }
}

/// A fixture is initialized at most once, and all who ask for it see one
/// value: of two claims of the same key, at most one hands out the
/// initialization, whatever other keys are claimed or filled in between; no
/// key's initialization is handed out more than once; and once a slot holds
/// a value, a claim answers that it is ready and leaves the value as it is.
pub proof fn lemma_initialized_at_most_once<V>(
    t0: FixtureTable<V>,
    t1: FixtureTable<V>,
    t2: FixtureTable<V>,
    t3: FixtureTable<V>,
    key: int,
    c1: Claim,
    c2: Claim,
    value: V,
)
    requires
        t0.wf(),
        0 <= key < t0.slots().len(),
        claim_step(t0, key, t1, c1),
        t2.wf(),
        t2.slots().len() == t1.slots().len(),
        !(t1.slots()[key] is Empty) ==> !(t2.slots()[key] is Empty),
        claim_step(t2, key, t3, c2),
    ensures
        t0.inits()[key] <= 1,
        !(c1 == Claim::Initialize && c2 == Claim::Initialize),
        t0.holds(key, value) ==> c1 == Claim::Ready && t1.holds(key, value),
{
}

} // verus!
