//! A programmable load-testing engine.
//!
//! A test case is an ordered pipeline of lifecycle steps (init, warm-up,
//! load, clean-up); each load step is driven by stages that give a duration,
//! an inter-batch interval and a concurrency rate.  The engine collects
//! per-action timings and outcomes into streaming metrics and projects them
//! into immutable status snapshots for reporting sinks and export files.
//!
//! This crate holds the verified core: the metrics accumulator and its
//! derived queries, the step pipeline with its ordering and uniqueness
//! rules, the status projections and the report renderers, and the pure
//! decisions of the stage scheduler and the reporting throttle.  The
//! asynchronous engine that spawns tasks, sleeps between batches, drives
//! channels and touches the file system sits on top of this crate and
//! hands it plain values.

use vstd::prelude::*;

pub mod composition;
pub mod context;
pub mod exporting;
pub mod hist;
pub mod influx;
pub mod reporting;
pub mod samples;
pub mod scheduler;
pub mod stats;
pub mod textfmt;

use composition::{count_kind, stable_insert, TestCase, TestStep, TestStepStage};

verus! {

/// Fluent assembly of a test case: each call appends one step, and
/// `with_stage` attaches a stage to the step appended last.
pub struct TestCaseBuilder<A, U> {
    pub test_case: TestCase<A, U>,
}

impl<A, U> TestCaseBuilder<A, U> {
    pub fn new(test_name: &str, test_suite: &str, data: U) -> (r: Self)
        ensures
            r.test_case.wf(),
            r.test_case.test_name@ == test_name@,
            r.test_case.test_suite@ == test_suite@,
            r.test_case.test_steps@ == Seq::<TestStep<A>>::empty(),
    {
        TestCaseBuilder { test_case: TestCase::new(test_name, test_suite, data) }
    }

    /// Appends the Init step.  A pipeline can hold at most one.
    pub fn with_init_step(self, action: A) -> (r: Self)
        requires
            self.test_case.wf(),
            count_kind(self.test_case.test_steps@, 0) == 0,
        ensures
            r.test_case.wf(),
            r.test_case.test_steps@ == stable_insert(
                self.test_case.test_steps@,
                TestStep::Init { action },
            ),
            r.test_case.test_name == self.test_case.test_name,
            r.test_case.test_suite == self.test_case.test_suite,
            r.test_case.data == self.test_case.data,
    {
        let mut tc = self.test_case;
        tc.with_step(TestStep::as_init(action));
        TestCaseBuilder { test_case: tc }
    }

    /// Appends the WarmUp step, with no stages yet.  A pipeline can hold
    /// at most one.
    pub fn with_warm_up_step(self, action: A) -> (r: Self)
        requires
            self.test_case.wf(),
            count_kind(self.test_case.test_steps@, 1) == 0,
        ensures
            r.test_case.wf(),
            exists|st: TestStep<A>|
                (#[trigger] st.order()) == 1 && (st matches TestStep::WarmUp {
                    action: a,
                    stages: s,
                } && a == action && s@ == Seq::<TestStepStage>::empty())
                    && r.test_case.test_steps@ == stable_insert(self.test_case.test_steps@, st),
            r.test_case.test_name == self.test_case.test_name,
            r.test_case.test_suite == self.test_case.test_suite,
            r.test_case.data == self.test_case.data,
    {
        let mut tc = self.test_case;
        let stages: Vec<TestStepStage> = Vec::new();
        proof {
            assert(stages@ =~= Seq::<TestStepStage>::empty());
        }
        let st = TestStep::as_warm_up(action, stages);
        tc.with_step(st);
        TestCaseBuilder { test_case: tc }
    }

    /// Appends a Load step under its reporting name, with no stages yet.
    /// Load steps may repeat; they run in the order appended.
    pub fn with_load_step(self, name: &str, action: A) -> (r: Self)
        requires
            self.test_case.wf(),
        ensures
            r.test_case.wf(),
            exists|st: TestStep<A>|
                (#[trigger] st.order()) == 2 && (st matches TestStep::Load {
                    name: n,
                    action: a,
                    stages: s,
                } && n@ == name@ && a == action && s@ == Seq::<TestStepStage>::empty())
                    && r.test_case.test_steps@ == stable_insert(self.test_case.test_steps@, st),
            r.test_case.test_name == self.test_case.test_name,
            r.test_case.test_suite == self.test_case.test_suite,
            r.test_case.data == self.test_case.data,
    {
        let mut tc = self.test_case;
        let stages: Vec<TestStepStage> = Vec::new();
        proof {
            assert(stages@ =~= Seq::<TestStepStage>::empty());
        }
        let st = TestStep::as_load(name, action, stages);
        tc.with_step(st);
        TestCaseBuilder { test_case: tc }
    }

    /// Appends the CleanUp step.  A pipeline can hold at most one.
    pub fn with_clean_up_step(self, action: A) -> (r: Self)
        requires
            self.test_case.wf(),
            count_kind(self.test_case.test_steps@, 3) == 0,
        ensures
            r.test_case.wf(),
            r.test_case.test_steps@ == stable_insert(
                self.test_case.test_steps@,
                TestStep::CleanUp { action },
            ),
            r.test_case.test_name == self.test_case.test_name,
            r.test_case.test_suite == self.test_case.test_suite,
            r.test_case.data == self.test_case.data,
    {
        let mut tc = self.test_case;
        tc.with_step(TestStep::as_clean_up(action));
        TestCaseBuilder { test_case: tc }
    }

    /// Attaches a stage to the step appended last.  Only WarmUp and Load
    /// steps carry stages, which the precondition enforces; with no steps
    /// yet, the call changes nothing.
    pub fn with_stage(self, stage_name: &str, during_ms: u64, interval_ms: u64, rate: u32) -> (r:
        Self)
        requires
            self.test_case.wf(),
            self.test_case.test_steps@.len() > 0 ==> {
                let last = self.test_case.test_steps@.last();
                last matches TestStep::WarmUp { .. } || last matches TestStep::Load { .. }
            },
        ensures
            r.test_case.wf(),
            r.test_case.test_name == self.test_case.test_name,
            r.test_case.test_suite == self.test_case.test_suite,
            r.test_case.data == self.test_case.data,
            self.test_case.test_steps@.len() == 0 ==> r.test_case.test_steps@
                == self.test_case.test_steps@,
            self.test_case.test_steps@.len() > 0 ==> {
                let n = self.test_case.test_steps@.len() as int;
                &&& r.test_case.test_steps@.len() == n
                &&& r.test_case.test_steps@.subrange(0, n - 1) == self.test_case.test_steps@
                    .subrange(0, n - 1)
                &&& (self.test_case.test_steps@.last() matches TestStep::WarmUp {
                    action: a,
                    stages: s,
                } ==> r.test_case.test_steps@.last() matches TestStep::WarmUp {
                    action: a2,
                    stages: s2,
                } && a2 == a && stage_appended(s@, s2@, stage_name@, during_ms, interval_ms, rate))
                &&& (self.test_case.test_steps@.last() matches TestStep::Load {
                    name: nm,
                    action: a,
                    stages: s,
                } ==> r.test_case.test_steps@.last() matches TestStep::Load {
                    name: nm2,
                    action: a2,
                    stages: s2,
                } && nm2 == nm && a2 == a && stage_appended(
                    s@,
                    s2@,
                    stage_name@,
                    during_ms,
                    interval_ms,
                    rate,
                ))
            },
    {
        let mut tc = self.test_case;
        if tc.test_steps.len() == 0 {
            return TestCaseBuilder { test_case: tc };
        }
        let ghost before = tc.test_steps@;
        let last = tc.test_steps.pop().unwrap();
        let stage = TestStepStage::new(stage_name, during_ms, interval_ms, rate);
        match last {
            TestStep::WarmUp { action, stages } => {
                let mut stages = stages;
                let ghost s_old = stages@;
                stages.push(stage);
                proof {
                    assert(stages@.drop_last() =~= s_old);
                }
                tc.test_steps.push(TestStep::WarmUp { action, stages });
            },
            TestStep::Load { name, action, stages } => {
                let mut stages = stages;
                let ghost s_old = stages@;
                stages.push(stage);
                proof {
                    assert(stages@.drop_last() =~= s_old);
                }
                tc.test_steps.push(TestStep::Load { name, action, stages });
            },
            other => {
                proof {
                    assert(false);
                }
                tc.test_steps.push(other);
            },
        }
        proof {
            let n = before.len() as int;
            assert(tc.test_steps@.subrange(0, n - 1) =~= before.subrange(0, n - 1));
            assert forall|i: int|
                0 <= i < n implies (#[trigger] before[i]).order() == (#[trigger] tc.test_steps@[i])
                .order() by {
                if i < n - 1 {
                    assert(tc.test_steps@[i] == tc.test_steps@.subrange(0, n - 1)[i]);
                    assert(before[i] == before.subrange(0, n - 1)[i]);
                }
            }
            lemma_same_orders(before, tc.test_steps@);
            assert(tc.test_steps@.last() == tc.test_steps@[n - 1]);
        }
        TestCaseBuilder { test_case: tc }
    }

    /// Hands the assembled test case over.
    pub fn build(self) -> (r: TestCase<A, U>)
        ensures
            r == self.test_case,
    {
        self.test_case
    }
}

/// `after` is `before` with one more stage, carrying the given fields.
pub open spec fn stage_appended(
    before: Seq<TestStepStage>,
    after: Seq<TestStepStage>,
    stage_name: Seq<char>,
    during_ms: u64,
    interval_ms: u64,
    rate: u32,
) -> bool {
    &&& after.len() == before.len() + 1
    &&& after.drop_last() == before
    &&& after.last().stage_name@ == stage_name
    &&& after.last().during_ms == during_ms
    &&& after.last().interval_ms == interval_ms
    &&& after.last().rate == rate
}

/// Two pipelines of equal length whose steps have pairwise equal weights
/// have the same kind counts, and one is sorted if the other is.
proof fn lemma_same_orders<A>(s1: Seq<TestStep<A>>, s2: Seq<TestStep<A>>)
    requires
        s1.len() == s2.len(),
        forall|i: int|
            0 <= i < s1.len() ==> (#[trigger] s1[i]).order() == (#[trigger] s2[i]).order(),
    ensures
        forall|k: int| #[trigger] count_kind(s2, k) == count_kind(s1, k),
        composition::steps_sorted(s1) ==> composition::steps_sorted(s2),
    decreases s1.len(),
{
    if s1.len() > 0 {
        let t1 = s1.drop_first();
        let t2 = s2.drop_first();
        assert(forall|i: int|
            0 <= i < t1.len() ==> (#[trigger] t1[i]) == s1[i + 1] && (#[trigger] t2[i]) == s2[i
                + 1]);
        lemma_same_orders(t1, t2);
        if composition::steps_sorted(s1) {
            assert forall|i: int, j: int|
                0 <= i <= j < s2.len() implies (#[trigger] s2[i]).order() <= (#[trigger] s2[j]).order() by {
                assert(s1[i].order() <= s1[j].order());
            }
        }
        assert forall|k: int| #[trigger] count_kind(s2, k) == count_kind(s1, k) by {
            assert(count_kind(s1, k) == count_kind(t1, k) + if s1[0].order() == k {
                1int
            } else {
                0
            });
            assert(count_kind(s2, k) == count_kind(t2, k) + if s2[0].order() == k {
                1int
            } else {
                0
            });
        }
    }
}

} // verus!
