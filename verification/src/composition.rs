//! Test composition: stages, lifecycle steps and the test case.
//!
//! A test case holds an ordered pipeline of steps.  Steps carry a
//! canonical weight — Init 0, WarmUp 1, Load 2, CleanUp 3 — and appending
//! keeps the pipeline sorted by weight while preserving the insertion
//! order among equal weights, so several load steps run in declaration
//! order.  Init, WarmUp and CleanUp may appear at most once.
//!
//! The action of a step is an opaque handle of type `A`: the engine that
//! finally invokes it lives outside the library and chooses `A` itself.

use crate::context::TestCaseContext;
use vstd::prelude::*;

verus! {

/// One stage of a warm-up or load step: for `during_ms`, every
/// `interval_ms`, dispatch `rate` concurrent actions.
#[derive(Clone, Debug)]
pub struct TestStepStage {
    pub stage_name: String,
    pub during_ms: u64,
    pub interval_ms: u64,
    pub rate: u32,
}

impl TestStepStage {
    pub fn new(stage_name: &str, during_ms: u64, interval_ms: u64, rate: u32) -> (r: Self)
        ensures
            r.stage_name@ == stage_name@,
            r.during_ms == during_ms,
            r.interval_ms == interval_ms,
            r.rate == rate,
    {
        TestStepStage { stage_name: stage_name.to_owned(), during_ms, interval_ms, rate }
    }
}

/// A lifecycle step.  Exactly four kinds exist; WarmUp and Load carry the
/// stages that drive their scheduling.
pub enum TestStep<A> {
    Init { action: A },
    WarmUp { action: A, stages: Vec<TestStepStage> },
    Load { name: String, action: A, stages: Vec<TestStepStage> },
    CleanUp { action: A },
}

impl<A> TestStep<A> {
    /// Canonical execution weight of the step.
    pub open spec fn order(self) -> int {
        match self {
            TestStep::Init { .. } => 0,
            TestStep::WarmUp { .. } => 1,
            TestStep::Load { .. } => 2,
            TestStep::CleanUp { .. } => 3,
        }
    }

    /// The label under which the step reports: load steps carry their own
    /// name, the other kinds have fixed ones.
    pub open spec fn spec_name(self) -> Seq<char> {
        match self {
            TestStep::Init { .. } => "Init"@,
            TestStep::WarmUp { .. } => "Warm Up"@,
            TestStep::Load { name, .. } => name@,
            TestStep::CleanUp { .. } => "Clean Up"@,
        }
    }

    /// A load step that has at least one stage, the precondition for a
    /// runnable test case.
    pub open spec fn is_load_with_stages(self) -> bool {
        match self {
            TestStep::Load { stages, .. } => stages@.len() > 0,
            _ => false,
        }
    }

    pub fn as_init(action: A) -> (r: Self)
        ensures
            r == (TestStep::Init { action }),
    {
        TestStep::Init { action }
    }

    pub fn as_warm_up(action: A, stages: Vec<TestStepStage>) -> (r: Self)
        ensures
            r == (TestStep::WarmUp { action, stages }),
    {
        TestStep::WarmUp { action, stages }
    }

    pub fn as_load(name: &str, action: A, stages: Vec<TestStepStage>) -> (r: Self)
        ensures
            r matches TestStep::Load { name: n, action: a, stages: s } && n@ == name@ && a == action
                && s == stages,
    {
        TestStep::Load { name: name.to_owned(), action, stages }
    }

    pub fn as_clean_up(action: A) -> (r: Self)
        ensures
            r == (TestStep::CleanUp { action }),
    {
        TestStep::CleanUp { action }
    }

    pub fn get_order(&self) -> (r: usize)
        ensures
            r == self.order(),
    {
        match self {
            TestStep::Init { .. } => 0,
            TestStep::WarmUp { .. } => 1,
            TestStep::Load { .. } => 2,
            TestStep::CleanUp { .. } => 3,
        }
    }

    pub fn get_name(&self) -> (r: &str)
        ensures
            r@ == self.spec_name(),
    {
        match self {
            TestStep::Init { .. } => "Init",
            TestStep::WarmUp { .. } => "Warm Up",
            TestStep::Load { name, .. } => name.as_str(),
            TestStep::CleanUp { .. } => "Clean Up",
        }
    }
}

/// How many steps of weight `k` the pipeline holds.
pub open spec fn count_kind<A>(s: Seq<TestStep<A>>, k: int) -> int
    decreases s.len(),
{
    if s.len() == 0 {
        0
    } else {
        count_kind(s.drop_first(), k) + if s[0].order() == k {
            1int
        } else {
            0
        }
    }
}

/// The pipeline is sorted by weight.
pub open spec fn steps_sorted<A>(s: Seq<TestStep<A>>) -> bool {
    forall|i: int, j: int|
        0 <= i <= j < s.len() ==> (#[trigger] s[i]).order() <= (#[trigger] s[j]).order()
}

/// `step` inserted in front of the first step of strictly greater weight:
/// a sorted pipeline stays sorted and, among steps of equal weight, the
/// new one comes last — exactly what a stable sort of the appended
/// pipeline would produce.
pub open spec fn stable_insert<A>(s: Seq<TestStep<A>>, step: TestStep<A>) -> Seq<TestStep<A>>
    decreases s.len(),
{
    if s.len() == 0 {
        seq![step]
    } else if step.order() < s[0].order() {
        seq![step] + s
    } else {
        seq![s[0]] + stable_insert(s.drop_first(), step)
    }
}

pub proof fn lemma_count_kind_nonneg<A>(s: Seq<TestStep<A>>, k: int)
    ensures
        count_kind(s, k) >= 0,
    decreases s.len(),
{
    if s.len() > 0 {
        lemma_count_kind_nonneg(s.drop_first(), k);
    }
}

pub proof fn lemma_stable_insert_props<A>(s: Seq<TestStep<A>>, step: TestStep<A>)
    requires
        steps_sorted(s),
    ensures
        steps_sorted(stable_insert(s, step)),
        stable_insert(s, step).len() == s.len() + 1,
        count_kind(stable_insert(s, step), step.order()) == count_kind(s, step.order()) + 1,
        forall|k: int| k != step.order() ==> count_kind(stable_insert(s, step), k) == count_kind(
            s,
            k,
        ),
        stable_insert(s, step)[0] == step || (s.len() > 0 && stable_insert(s, step)[0] == s[0]),
    decreases s.len(),
{
    let r = stable_insert(s, step);
    if s.len() == 0 {
        assert(r =~= seq![step]);
        assert forall|k: int| true implies count_kind(r, k) == count_kind(s, k) + if step.order()
            == k {
            1int
        } else {
            0
        } by {
            assert(r.drop_first() =~= Seq::<TestStep<A>>::empty());
            assert(r[0] == step);
            assert(count_kind(Seq::<TestStep<A>>::empty(), k) == 0);
            assert(count_kind(r, k) == count_kind(r.drop_first(), k) + if r[0].order() == k {
                1int
            } else {
                0
            });
        }
    } else if step.order() < s[0].order() {
        assert(r =~= seq![step] + s);
        assert forall|k: int| true implies count_kind(r, k) == count_kind(s, k) + if step.order()
            == k {
            1int
        } else {
            0
        } by {
            assert(r.drop_first() =~= s);
            assert(r[0] == step);
        }
        assert(steps_sorted(r)) by {
            assert(forall|i: int, j: int|
                0 <= i <= j < r.len() && i >= 1 ==> r[i] == s[i - 1] && r[j] == s[j - 1]);
            assert(forall|j: int|
                1 <= j < r.len() ==> step.order() <= s[0].order() <= (#[trigger] r[j]).order());
        }
    } else {
        let t = s.drop_first();
        assert(steps_sorted(t)) by {
            assert(forall|i: int, j: int|
                0 <= i <= j < t.len() ==> t[i] == s[i + 1] && t[j] == s[j + 1]);
        }
        lemma_stable_insert_props(t, step);
        let rt = stable_insert(t, step);
        assert(r =~= seq![s[0]] + rt);
        assert(s[0].order() <= rt[0].order()) by {
            if rt[0] == step {
            } else {
                assert(t.len() > 0 && rt[0] == t[0] && t[0] == s[1]);
            }
        }
        assert(steps_sorted(r)) by {
            assert(forall|i: int, j: int|
                0 <= i <= j < r.len() && i >= 1 ==> r[i] == rt[i - 1] && r[j] == rt[j - 1]);
            assert(forall|i: int|
                0 <= i < rt.len() ==> rt[0].order() <= (#[trigger] rt[i]).order());
            assert(forall|j: int|
                1 <= j < r.len() ==> s[0].order() <= rt[0].order() <= (#[trigger] r[j]).order());
        }
        assert forall|k: int| true implies count_kind(r, k) == count_kind(s, k) + if step.order()
            == k {
            1int
        } else {
            0
        } by {
            assert(r.drop_first() =~= rt);
            assert(r[0] == s[0]);
            assert(count_kind(r, k) == count_kind(rt, k) + if s[0].order() == k {
                1int
            } else {
                0
            });
            assert(count_kind(s, k) == count_kind(t, k) + if s[0].order() == k {
                1int
            } else {
                0
            });
        }
    }
}

/// Inserting at the first position of strictly greater weight is exactly
/// `stable_insert`.
pub proof fn lemma_stable_insert_at<A>(s: Seq<TestStep<A>>, step: TestStep<A>, i: int)
    requires
        steps_sorted(s),
        0 <= i <= s.len(),
        forall|k: int| 0 <= k < i ==> (#[trigger] s[k]).order() <= step.order(),
        i < s.len() ==> step.order() < s[i].order(),
    ensures
        s.insert(i, step) =~= stable_insert(s, step),
    decreases s.len(),
{
    if s.len() == 0 {
        assert(s.insert(0, step) =~= seq![step]);
    } else if i == 0 {
        assert(s.insert(0, step) =~= seq![step] + s);
    } else {
        let t = s.drop_first();
        assert(steps_sorted(t)) by {
            assert(forall|k: int, j: int|
                0 <= k <= j < t.len() ==> t[k] == s[k + 1] && t[j] == s[j + 1]);
        }
        assert(forall|k: int| 0 <= k < i - 1 ==> (#[trigger] t[k]) == s[k + 1]);
        assert(i - 1 < t.len() ==> step.order() < t[i - 1].order());
        lemma_stable_insert_at(t, step, i - 1);
        assert(s[0].order() <= step.order());
        assert(s.insert(i, step) =~= seq![s[0]] + t.insert(i - 1, step));
    }
}

/// A configured test run: identity, the user payload handed to the
/// actions, the ordered pipeline of steps, and — after execution — the
/// final context snapshot.
pub struct TestCase<A, U> {
    pub test_name: String,
    pub test_suite: String,
    pub test_context: Option<TestCaseContext>,
    pub test_steps: Vec<TestStep<A>>,
    pub data: U,
}

impl<A, U> TestCase<A, U> {
    /// The pipeline is sorted and Init, WarmUp and CleanUp are unique.
    pub open spec fn wf(self) -> bool {
        &&& steps_sorted(self.test_steps@)
        &&& count_kind(self.test_steps@, 0) <= 1
        &&& count_kind(self.test_steps@, 1) <= 1
        &&& count_kind(self.test_steps@, 3) <= 1
    }

    /// A test case with no steps and no final context yet.
    pub fn new(test_name: &str, test_suite: &str, data: U) -> (r: Self)
        ensures
            r.wf(),
            r.test_name@ == test_name@,
            r.test_suite@ == test_suite@,
            r.test_context == Option::<TestCaseContext>::None,
            r.test_steps@ == Seq::<TestStep<A>>::empty(),
    {
        let r = TestCase {
            test_name: test_name.to_owned(),
            test_suite: test_suite.to_owned(),
            test_context: None,
            test_steps: Vec::new(),
            data,
        };
        proof {
            assert(r.test_steps@ =~= Seq::<TestStep<A>>::empty());
        }
        r
    }

    pub fn has_init_step(&self) -> (r: bool)
        ensures
            r == (count_kind(self.test_steps@, 0) != 0),
    {
        self.has_step_of_order(0)
    }

    pub fn has_warm_up_step(&self) -> (r: bool)
        ensures
            r == (count_kind(self.test_steps@, 1) != 0),
    {
        self.has_step_of_order(1)
    }

    pub fn has_clean_up_step(&self) -> (r: bool)
        ensures
            r == (count_kind(self.test_steps@, 3) != 0),
    {
        self.has_step_of_order(3)
    }

    fn has_step_of_order(&self, k: usize) -> (r: bool)
        ensures
            r == (count_kind(self.test_steps@, k as int) != 0),
    {
        let s = &self.test_steps;
        let mut i: usize = 0;
        proof {
            assert(s@.skip(0) =~= s@);
            lemma_count_kind_nonneg(s@, k as int);
        }
        while i < s.len()
            invariant
                s@ == self.test_steps@,
                0 <= i <= s@.len(),
                count_kind(s@, k as int) == count_kind(s@.skip(i as int), k as int),
                count_kind(s@, k as int) >= 0,
            decreases s@.len() - i,
        {
            proof {
                assert(s@.skip(i as int).drop_first() =~= s@.skip(i as int + 1));
                assert(s@.skip(i as int)[0] == s@[i as int]);
                lemma_count_kind_nonneg(s@.skip(i as int + 1), k as int);
            }
            if s[i].get_order() == k {
                return true;
            }
            i = i + 1;
        }
        proof {
            assert(s@.skip(s@.len() as int) =~= Seq::<TestStep<A>>::empty());
        }
        false
    }

    /// Whether any load step has a non-empty stage list — the
    /// precondition under which a run does any work at all.
    pub fn has_load_steps(&self) -> (r: bool)
        ensures
            r == exists|i: int|
                0 <= i < self.test_steps@.len() && (#[trigger] self.test_steps@[i])
                    .is_load_with_stages(),
    {
        let s = &self.test_steps;
        let mut i: usize = 0;
        while i < s.len()
            invariant
                s@ == self.test_steps@,
                0 <= i <= s@.len(),
                forall|k: int| 0 <= k < i ==> !(#[trigger] s@[k]).is_load_with_stages(),
            decreases s@.len() - i,
        {
            let found = match &s[i] {
                TestStep::Load { stages, .. } => stages.len() > 0,
                _ => false,
            };
            if found {
                return true;
            }
            i = i + 1;
        }
        false
    }

    /// Appends a step at its canonical position: after every step of
    /// equal or lower weight, before the first of greater weight.  A
    /// second Init, WarmUp or CleanUp is ruled out by the precondition;
    /// the engine's configuration layer refuses such a pipeline before it
    /// reaches the library.
    pub fn with_step(&mut self, test_step: TestStep<A>)
        requires
            old(self).wf(),
            test_step.order() != 2 ==> count_kind(old(self).test_steps@, test_step.order()) == 0,
        ensures
            final(self).wf(),
            final(self).test_steps@ == stable_insert(old(self).test_steps@, test_step),
            final(self).test_name == old(self).test_name,
            final(self).test_suite == old(self).test_suite,
            final(self).test_context == old(self).test_context,
            final(self).data == old(self).data,
    {
        let k = test_step.get_order();
        proof {
            lemma_stable_insert_props(self.test_steps@, test_step);
        }
        let mut i: usize = 0;
        while i < self.test_steps.len() && self.test_steps[i].get_order() <= k
            invariant
                0 <= i <= self.test_steps@.len(),
                k == test_step.order(),
                forall|j: int|
                    0 <= j < i ==> (#[trigger] self.test_steps@[j]).order() <= test_step.order(),
                self.test_steps@ == old(self).test_steps@,
            decreases self.test_steps@.len() - i,
        {
            i = i + 1;
        }
        proof {
            lemma_stable_insert_at(self.test_steps@, test_step, i as int);
        }
        self.test_steps.insert(i, test_step);
    }
}

/// Appending is a pure insertion: the new step lands at one position and
/// every step already present keeps its place relative to the others —
/// several load steps therefore always run in declaration order.
pub proof fn lemma_stable_insert_is_insertion<A>(s: Seq<TestStep<A>>, step: TestStep<A>)
    requires
        steps_sorted(s),
    ensures
        exists|i: int|
            0 <= i <= s.len() && stable_insert(s, step) =~= #[trigger] s.insert(i, step),
    decreases s.len(),
{
    if s.len() == 0 {
        assert(stable_insert(s, step) =~= s.insert(0, step));
    } else if step.order() < s[0].order() {
        assert(stable_insert(s, step) =~= s.insert(0, step));
    } else {
        let t = s.drop_first();
        assert(steps_sorted(t)) by {
            assert(forall|i: int, j: int|
                0 <= i <= j < t.len() ==> t[i] == s[i + 1] && t[j] == s[j + 1]);
        }
        lemma_stable_insert_is_insertion(t, step);
        let j = choose|j: int|
            0 <= j <= t.len() && stable_insert(t, step) =~= #[trigger] t.insert(j, step);
        assert(stable_insert(s, step) =~= seq![s[0]] + t.insert(j, step));
        assert(seq![s[0]] + t.insert(j, step) =~= s.insert(j + 1, step));
    }
}

} // verus!
