//! Immutable status snapshots: projections of a test context into plain
//! metric records for reporting sinks and export files.
//!
//! A snapshot shares no state with the live context; it is the only value
//! that crosses the engine/sink boundary.

use crate::context::TestCaseContext;
use crate::hist;
use crate::samples;
use vstd::prelude::*;

verus! {

/// The derived metrics of one context at one moment.  All durations and
/// times are integer milliseconds; `request_per_sec_centi` is the request
/// rate in hundredths of a request per second, truncated.
#[derive(Clone, Debug)]
pub struct Metrics {
    pub test_duration: u128,
    pub load_duration: u128,
    pub mean_time: u128,
    pub max_time: u128,
    pub min_time: u128,
    pub std_dev: u128,
    pub p90_time: u128,
    pub p95_time: u128,
    pub p99_time: u128,
    pub positive_hits: u128,
    pub negative_hits: u128,
    pub all_hits: u128,
    pub request_per_sec_centi: u128,
    pub errors: Vec<(i32, u128)>,
}

#[derive(Clone, Debug)]
pub struct StepStatus {
    pub session_id: String,
    pub test_name: String,
    pub step_name: String,
    pub metrics: Metrics,
}

#[derive(Clone, Debug)]
pub struct TestStatus {
    pub session_id: String,
    pub test_name: String,
    pub metrics: Metrics,
}

/// What a faithful projection of `ctx` looks like, field by field.
pub open spec fn is_projection_of(m: Metrics, ctx: TestCaseContext) -> bool {
    &&& m.test_duration == ctx.test_duration()
    &&& m.load_duration == ctx.load_duration()
    &&& m.positive_hits == ctx.successful()
    &&& m.negative_hits == ctx.unsuccessful()
    &&& m.all_hits == ctx.successful() + ctx.unsuccessful()
    &&& m.min_time == if ctx.elapsed().len() == 0 {
        0int
    } else {
        ctx.elapsed()[0] as int
    }
    &&& m.max_time == if ctx.elapsed().len() == 0 {
        0int
    } else {
        ctx.elapsed().last() as int
    }
    &&& m.mean_time == samples::spec_mean(ctx.elapsed())
    &&& m.std_dev == samples::spec_std_dev(ctx.elapsed())
    &&& m.p90_time == samples::spec_percentile(ctx.elapsed(), 90, 100)
    &&& m.p95_time == samples::spec_percentile(ctx.elapsed(), 95, 100)
    &&& m.p99_time == samples::spec_percentile(ctx.elapsed(), 99, 100)
    &&& m.errors@ == ctx.error_hist()
    &&& m.request_per_sec_centi == if ctx.load_duration() == 0 {
        0int
    } else {
        (ctx.successful() + ctx.unsuccessful()) * 100_000 / ctx.load_duration() as int
    }
}

impl Metrics {
    /// Reads the context once and materialises every derived query.
    pub fn new(ctx: &TestCaseContext) -> (m: Metrics)
        requires
            ctx.wf(),
        ensures
            is_projection_of(m, *ctx),
            m.all_hits == m.positive_hits + m.negative_hits,
    {
        let _n: usize = ctx.elapsed_times.len();
        let all = ctx.get_hits();
        let load = ctx.get_current_load_duration();
        let rps: u128 = if load == 0 {
            0
        } else {
            (all * 100_000) / (load as u128)
        };
        Metrics {
            test_duration: ctx.get_current_duration() as u128,
            load_duration: load as u128,
            positive_hits: ctx.get_successful_hits(),
            negative_hits: ctx.get_unsuccessful_hits(),
            all_hits: all,
            min_time: ctx.get_current_min_time(),
            max_time: ctx.get_current_max_time(),
            mean_time: ctx.get_current_mean_time(),
            std_dev: ctx.get_current_std_dev(),
            p90_time: ctx.get_current_percentile_time(90, 100),
            p95_time: ctx.get_current_percentile_time(95, 100),
            p99_time: ctx.get_current_percentile_time(99, 100),
            request_per_sec_centi: rps,
            errors: ctx.get_current_errors(),
        }
    }

    /// The headline accumulator invariants in one place: hit conservation, the
    /// ordering of minimum, mean and maximum, the ordering of the three
    /// percentiles below the maximum, and the histogram total.
    pub proof fn lemma_invariants(m: Metrics, ctx: TestCaseContext)
        requires
            ctx.wf(),
            is_projection_of(m, ctx),
        ensures
            m.all_hits == m.positive_hits + m.negative_hits == ctx.elapsed().len(),
            m.all_hits > 0 ==> m.min_time <= m.mean_time <= m.max_time,
            m.all_hits == 0 ==> m.min_time == 0 && m.mean_time == 0 && m.max_time == 0,
            m.p90_time <= m.p95_time <= m.p99_time <= m.max_time,
            hist::total(m.errors@) == m.negative_hits,
    {
        let s = ctx.elapsed();
        if s.len() > 0 {
            samples::lemma_mean_between(s);
            samples::lemma_percentile_monotone(s, 90, 95, 100);
            samples::lemma_percentile_monotone(s, 95, 99, 100);
            samples::lemma_percentile_le_max(s, 99, 100);
        }
    }
}

impl StepStatus {
    /// Snapshot for one step: identity, the current step label and the
    /// metrics, all copied out of the context.
    pub fn new(test_name: String, ctx: &TestCaseContext) -> (r: StepStatus)
        requires
            ctx.wf(),
        ensures
            r.test_name@ == test_name@,
            r.session_id@ == ctx.session_id@,
            ctx.test_step_name matches Some(s) ==> r.step_name@ == s@,
            ctx.test_step_name matches None ==> r.step_name@ == Seq::<char>::empty(),
            is_projection_of(r.metrics, *ctx),
    {
        StepStatus {
            test_name,
            session_id: ctx.get_session_id(),
            step_name: ctx.get_current_step_name(),
            metrics: Metrics::new(ctx),
        }
    }
}

impl TestStatus {
    /// Snapshot for the whole run: identity and the metrics.
    pub fn new(test_name: String, ctx: &TestCaseContext) -> (r: TestStatus)
        requires
            ctx.wf(),
        ensures
            r.test_name@ == test_name@,
            r.session_id@ == ctx.session_id@,
            is_projection_of(r.metrics, *ctx),
    {
        TestStatus {
            test_name,
            session_id: ctx.get_session_id(),
            metrics: Metrics::new(ctx),
        }
    }
}

/// All numeric fields are zero and the histogram is empty.
pub open spec fn metrics_zero(m: Metrics) -> bool {
    &&& m.test_duration == 0
    &&& m.load_duration == 0
    &&& m.mean_time == 0
    &&& m.max_time == 0
    &&& m.min_time == 0
    &&& m.std_dev == 0
    &&& m.p90_time == 0
    &&& m.p95_time == 0
    &&& m.p99_time == 0
    &&& m.positive_hits == 0
    &&& m.negative_hits == 0
    &&& m.all_hits == 0
    &&& m.request_per_sec_centi == 0
    &&& m.errors@ == Seq::<(i32, u128)>::empty()
}

impl Default for Metrics {
    /// The record of a run that did nothing: every query at zero.
    fn default() -> (r: Self)
        ensures
            metrics_zero(r),
    {
        let r = Metrics {
            test_duration: 0,
            load_duration: 0,
            mean_time: 0,
            max_time: 0,
            min_time: 0,
            std_dev: 0,
            p90_time: 0,
            p95_time: 0,
            p99_time: 0,
            positive_hits: 0,
            negative_hits: 0,
            all_hits: 0,
            request_per_sec_centi: 0,
            errors: Vec::new(),
        };
        proof {
            assert(r.errors@ =~= Seq::<(i32, u128)>::empty());
        }
        r
    }
}

/// The projection of an untouched context is the all-zero record: every
/// derived query of an empty accumulator returns 0, so it equals a
/// default-constructed record field by field.
pub proof fn lemma_empty_projection(m: Metrics, ctx: TestCaseContext)
    requires
        ctx.wf(),
        is_projection_of(m, ctx),
        ctx.elapsed().len() == 0,
        ctx.test_duration() == 0,
        ctx.load_duration() == 0,
    ensures
        metrics_zero(m),
{
    ctx.lemma_error_total_matches();
    hist::lemma_total_nonneg(ctx.error_hist().drop_last());
    if ctx.error_hist().len() > 0 {
        assert(hist::counts_positive(ctx.error_hist()));
        assert(ctx.error_hist().last().1 >= 1) by {
            assert(ctx.error_hist()[ctx.error_hist().len() - 1].1 >= 1);
        }
        assert(hist::total(ctx.error_hist()) >= 1);
        assert(false);
    }
    assert(m.errors@ =~= Seq::<(i32, u128)>::empty());
    assert(samples::spec_std_dev(ctx.elapsed()) == 0) by {
        assert(samples::spec_variance(ctx.elapsed()) == 0);
        assert(samples::spec_isqrt(0) == 0);
    }
}

} // verus!
