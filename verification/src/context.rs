//! The per-run test context: identity, current step and stage, and the
//! streaming metrics accumulator.
//!
//! One context exists per run.  The engine drives it under a lock: every
//! finished load action lands in it through [`TestCaseContext::add_hit`],
//! and the derived queries — hits, min/mean/max, percentiles, standard
//! deviation, error counts — are pure reads over the accumulated state.

use crate::hist;
use crate::samples;
use vstd::prelude::*;

verus! {

/// Relies on `uuid::Uuid::new_v4` and its `Display` impl: a fresh random
/// version-4 identifier rendered in the hyphenated form, which is always
/// 36 characters long.  Nothing more can be promised of a random value.
#[verifier::external_body]
fn new_session_id() -> (r: String)
    ensures
        r@.len() == 36,
{
    uuid::Uuid::new_v4().to_string()
}

/// Mutable state of one test run.  The labels are plain fields; the
/// metrics accumulator behind them obeys [`TestCaseContext::wf`]: the
/// elapsed times stay sorted and bounded, the error histogram stays sorted
/// with positive counts, the hit counters match the number of samples, and
/// the histogram total matches the unsuccessful counter.
#[derive(Clone, Debug)]
pub struct TestCaseContext {
    pub session_id: String,
    pub test_name: String,
    pub test_suite: String,
    pub test_step_name: Option<String>,
    pub test_stage_name: Option<String>,
    pub successful_hits: u128,
    pub unsuccessful_hits: u128,
    pub test_duration_ms: u64,
    pub load_duration_ms: u64,
    pub elapsed_times: Vec<u64>,
    pub errors: Vec<(i32, u128)>,
}

impl TestCaseContext {
    /// The recorded elapsed times, sorted ascending, in milliseconds.
    pub open spec fn elapsed(self) -> Seq<u64> {
        self.elapsed_times@
    }

    /// The error histogram: (code, occurrences), sorted by code.
    pub open spec fn error_hist(self) -> Seq<(i32, u128)> {
        self.errors@
    }

    pub open spec fn successful(self) -> u128 {
        self.successful_hits
    }

    pub open spec fn unsuccessful(self) -> u128 {
        self.unsuccessful_hits
    }

    pub open spec fn test_duration(self) -> u64 {
        self.test_duration_ms
    }

    pub open spec fn load_duration(self) -> u64 {
        self.load_duration_ms
    }

    /// Well-formedness of the accumulator, established by the constructors
    /// and preserved by every mutation.
    pub open spec fn wf(self) -> bool {
        &&& samples::sorted(self.elapsed_times@)
        &&& samples::samples_bounded(self.elapsed_times@)
        &&& hist::codes_sorted(self.errors@)
        &&& hist::counts_positive(self.errors@)
        &&& self.successful_hits + self.unsuccessful_hits == self.elapsed_times@.len()
        &&& hist::total(self.errors@) == self.unsuccessful_hits
    }

    /// The metrics accumulator is identical in both contexts; the labels
    /// around it may differ.
    pub open spec fn metrics_eq(a: Self, b: Self) -> bool {
        &&& a.elapsed() == b.elapsed()
        &&& a.error_hist() == b.error_hist()
        &&& a.successful() == b.successful()
        &&& a.unsuccessful() == b.unsuccessful()
        &&& a.test_duration() == b.test_duration()
        &&& a.load_duration() == b.load_duration()
    }

    /// A fresh context: a newly generated session identifier, the given
    /// names, no current step or stage, and empty metrics.
    pub fn new(test_name: &str, test_suite: &str) -> (r: Self)
        ensures
            r.wf(),
            r.session_id@.len() == 36,
            r.test_name@ == test_name@,
            r.test_suite@ == test_suite@,
            r.test_step_name == Option::<String>::None,
            r.test_stage_name == Option::<String>::None,
            r.elapsed() == Seq::<u64>::empty(),
            r.error_hist() == Seq::<(i32, u128)>::empty(),
            r.successful() == 0 && r.unsuccessful() == 0,
            r.test_duration() == 0 && r.load_duration() == 0,
    {
        let r = TestCaseContext {
            session_id: new_session_id(),
            test_name: test_name.to_owned(),
            test_suite: test_suite.to_owned(),
            test_step_name: None,
            test_stage_name: None,
            successful_hits: 0,
            unsuccessful_hits: 0,
            test_duration_ms: 0,
            load_duration_ms: 0,
            elapsed_times: Vec::new(),
            errors: Vec::new(),
        };
        proof {
            assert(r.elapsed_times@ =~= Seq::<u64>::empty());
            assert(r.errors@ =~= Seq::<(i32, u128)>::empty());
            assert(hist::total(r.errors@) == 0);
        }
        r
    }

    /// Folds one finished action into the metrics: a failure increments
    /// the unsuccessful counter and the histogram entry of its code, a
    /// success increments the successful counter; the elapsed time joins
    /// the sorted samples either way.  Times are capped below 2^32 ms
    /// (about 49 days) so that no aggregate can exceed its integer width.
    pub fn add_hit(&mut self, result: Result<(), i32>, elapsed_ms: u64)
        requires
            old(self).wf(),
            elapsed_ms < 0x1_0000_0000,
        ensures
            final(self).wf(),
            final(self).elapsed() == samples::sorted_insert(old(self).elapsed(), elapsed_ms),
            final(self).error_hist() == match result {
                Result::Ok(_) => old(self).error_hist(),
                Result::Err(code) => hist::spec_bump(old(self).error_hist(), code),
            },
            final(self).successful() == old(self).successful() + match result {
                Result::Ok(_) => 1int,
                Result::Err(_) => 0int,
            },
            final(self).unsuccessful() == old(self).unsuccessful() + match result {
                Result::Ok(_) => 0int,
                Result::Err(_) => 1int,
            },
            final(self).session_id == old(self).session_id,
            final(self).test_name == old(self).test_name,
            final(self).test_suite == old(self).test_suite,
            final(self).test_step_name == old(self).test_step_name,
            final(self).test_stage_name == old(self).test_stage_name,
            final(self).test_duration() == old(self).test_duration(),
            final(self).load_duration() == old(self).load_duration(),
    {
        let _n: usize = self.elapsed_times.len();
        proof {
            samples::lemma_sorted_insert_props(self.elapsed_times@, elapsed_ms);
            hist::lemma_total_nonneg(self.errors@);
        }
        match result {
            Ok(_) => {
                self.successful_hits = self.successful_hits + 1;
            },
            Err(code) => {
                self.unsuccessful_hits = self.unsuccessful_hits + 1;
                proof {
                    hist::lemma_bump_props(self.errors@, code);
                }
                hist::bump_error(&mut self.errors, code);
            },
        }
        samples::insert_sample(&mut self.elapsed_times, elapsed_ms);
    }

    /// All hits: successful plus unsuccessful.
    pub fn get_hits(&self) -> (r: u128)
        requires
            self.wf(),
        ensures
            r == self.successful() + self.unsuccessful(),
    {
        let _n: usize = self.elapsed_times.len();
        self.successful_hits + self.unsuccessful_hits
    }

    pub fn get_successful_hits(&self) -> (r: u128)
        ensures
            r == self.successful(),
    {
        self.successful_hits
    }

    pub fn get_unsuccessful_hits(&self) -> (r: u128)
        ensures
            r == self.unsuccessful(),
    {
        self.unsuccessful_hits
    }

    pub fn get_session_id(&self) -> (r: String)
        ensures
            r@ == self.session_id@,
    {
        self.session_id.clone()
    }

    /// Sets the current step label and clears the stage until one is set.
    pub fn set_current_step(&mut self, step_name: &str)
        ensures
            final(self).test_step_name matches Some(s) && s@ == step_name@,
            final(self).test_stage_name == Option::<String>::None,
            Self::metrics_eq(*final(self), *old(self)),
            final(self).wf() == old(self).wf(),
            final(self).session_id == old(self).session_id,
            final(self).test_name == old(self).test_name,
            final(self).test_suite == old(self).test_suite,
    {
        self.test_step_name = Some(step_name.to_owned());
        self.test_stage_name = None;
    }

    pub fn set_current_stage(&mut self, stage_name: &str)
        ensures
            final(self).test_stage_name matches Some(s) && s@ == stage_name@,
            final(self).test_step_name == old(self).test_step_name,
            Self::metrics_eq(*final(self), *old(self)),
            final(self).wf() == old(self).wf(),
            final(self).session_id == old(self).session_id,
            final(self).test_name == old(self).test_name,
            final(self).test_suite == old(self).test_suite,
    {
        self.test_stage_name = Some(stage_name.to_owned());
    }

    /// Records the elapsed time of the whole run so far, in milliseconds.
    pub fn set_current_duration(&mut self, duration_ms: u64)
        ensures
            final(self).test_duration() == duration_ms,
            final(self).load_duration() == old(self).load_duration(),
            final(self).elapsed() == old(self).elapsed(),
            final(self).error_hist() == old(self).error_hist(),
            final(self).successful() == old(self).successful(),
            final(self).unsuccessful() == old(self).unsuccessful(),
            final(self).wf() == old(self).wf(),
            final(self).session_id == old(self).session_id,
            final(self).test_name == old(self).test_name,
            final(self).test_suite == old(self).test_suite,
            final(self).test_step_name == old(self).test_step_name,
            final(self).test_stage_name == old(self).test_stage_name,
    {
        self.test_duration_ms = duration_ms;
    }

    /// Records the elapsed time since the first load step began.
    pub fn set_current_load_duration(&mut self, duration_ms: u64)
        ensures
            final(self).load_duration() == duration_ms,
            final(self).test_duration() == old(self).test_duration(),
            final(self).elapsed() == old(self).elapsed(),
            final(self).error_hist() == old(self).error_hist(),
            final(self).successful() == old(self).successful(),
            final(self).unsuccessful() == old(self).unsuccessful(),
            final(self).wf() == old(self).wf(),
            final(self).session_id == old(self).session_id,
            final(self).test_name == old(self).test_name,
            final(self).test_suite == old(self).test_suite,
            final(self).test_step_name == old(self).test_step_name,
            final(self).test_stage_name == old(self).test_stage_name,
    {
        self.load_duration_ms = duration_ms;
    }

    pub fn get_current_duration(&self) -> (r: u64)
        ensures
            r == self.test_duration(),
    {
        self.test_duration_ms
    }

    pub fn get_current_load_duration(&self) -> (r: u64)
        ensures
            r == self.load_duration(),
    {
        self.load_duration_ms
    }

    /// The current step label, or the empty string before any step ran.
    pub fn get_current_step_name(&self) -> (r: String)
        ensures
            self.test_step_name matches Some(s) ==> r@ == s@,
            self.test_step_name matches None ==> r@ == Seq::<char>::empty(),
    {
        match &self.test_step_name {
            Some(s) => s.clone(),
            None => String::new(),
        }
    }

    /// The least recorded time, or 0 with no samples.
    pub fn get_current_min_time(&self) -> (r: u128)
        requires
            self.wf(),
        ensures
            r == if self.elapsed().len() == 0 {
                0int
            } else {
                self.elapsed()[0] as int
            },
    {
        if self.elapsed_times.len() == 0 {
            0
        } else {
            self.elapsed_times[0] as u128
        }
    }

    /// The greatest recorded time, or 0 with no samples.
    pub fn get_current_max_time(&self) -> (r: u128)
        requires
            self.wf(),
        ensures
            r == if self.elapsed().len() == 0 {
                0int
            } else {
                self.elapsed().last() as int
            },
    {
        let n = self.elapsed_times.len();
        if n == 0 {
            0
        } else {
            self.elapsed_times[n - 1] as u128
        }
    }

    /// The truncated mean of the recorded times, or 0 with no samples.
    pub fn get_current_mean_time(&self) -> (r: u128)
        requires
            self.wf(),
        ensures
            r == samples::spec_mean(self.elapsed()),
    {
        samples::mean_of(&self.elapsed_times) as u128
    }

    /// The interpolated percentile of the recorded times, for the exact
    /// rational percentile `num / den` (for instance 90/100).
    pub fn get_current_percentile_time(&self, num: u32, den: u32) -> (r: u128)
        requires
            self.wf(),
            0 < den,
            num <= den,
        ensures
            r == samples::spec_percentile(self.elapsed(), num as int, den as int),
    {
        samples::percentile_of(&self.elapsed_times, num, den) as u128
    }

    /// The rounded square root of the population variance of the recorded
    /// times, or 0 with no samples.
    pub fn get_current_std_dev(&self) -> (r: u128)
        requires
            self.wf(),
        ensures
            r == samples::spec_std_dev(self.elapsed()),
    {
        samples::std_dev_of(&self.elapsed_times) as u128
    }

    /// A copy of the error histogram, sorted by code.
    pub fn get_current_errors(&self) -> (r: Vec<(i32, u128)>)
        ensures
            r@ == self.error_hist(),
    {
        let mut out: Vec<(i32, u128)> = Vec::new();
        let mut i: usize = 0;
        proof {
            assert(self.errors@.take(0) =~= Seq::<(i32, u128)>::empty());
        }
        while i < self.errors.len()
            invariant
                0 <= i <= self.errors@.len(),
                out@ == self.errors@.take(i as int),
            decreases self.errors@.len() - i,
        {
            out.push(self.errors[i]);
            proof {
                assert(self.errors@.take(i + 1) =~= self.errors@.take(i as int).push(
                    self.errors@[i as int],
                ));
            }
            i = i + 1;
        }
        proof {
            assert(self.errors@.take(self.errors@.len() as int) =~= self.errors@);
        }
        out
    }

    /// Occurrences recorded for one error code, 0 if it never occurred.
    pub fn get_error_count(&self, code: i32) -> (r: u128)
        requires
            self.wf(),
        ensures
            r == hist::spec_count_of(self.error_hist(), code),
    {
        hist::count_of(&self.errors, code)
    }

    /// All hits equal the number of recorded elapsed-time samples: the
    /// counters and the sample store can never drift apart.
    pub proof fn lemma_hits_match_samples(self)
        requires
            self.wf(),
        ensures
            self.successful() + self.unsuccessful() == self.elapsed().len(),
    {
    }

    /// The error histogram sums exactly to the unsuccessful hits: every
    /// failure is histogrammed once, and nothing else is.
    pub proof fn lemma_error_total_matches(self)
        requires
            self.wf(),
        ensures
            hist::total(self.error_hist()) == self.unsuccessful(),
    {
    }

    /// With at least one sample the minimum, mean and maximum are ordered;
    /// with none, all three queries return 0.
    pub proof fn lemma_min_mean_max(self)
        requires
            self.wf(),
        ensures
            self.elapsed().len() > 0 ==> self.elapsed()[0] <= samples::spec_mean(self.elapsed())
                <= self.elapsed().last(),
            self.elapsed().len() == 0 ==> samples::spec_mean(self.elapsed()) == 0,
    {
        if self.elapsed().len() > 0 {
            samples::lemma_mean_between(self.elapsed());
        }
    }
}

impl Default for TestCaseContext {
    /// An inert context: the all-zero session identifier, empty names and
    /// empty metrics.
    fn default() -> (r: Self)
        ensures
            r.wf(),
            r.session_id@.len() == 36,
            r.test_name@ == Seq::<char>::empty(),
            r.test_suite@ == Seq::<char>::empty(),
            r.test_step_name == Option::<String>::None,
            r.test_stage_name == Option::<String>::None,
            r.elapsed() == Seq::<u64>::empty(),
            r.error_hist() == Seq::<(i32, u128)>::empty(),
            r.successful() == 0 && r.unsuccessful() == 0,
            r.test_duration() == 0 && r.load_duration() == 0,
    {
        let nil_id = "00000000-0000-0000-0000-000000000000";
        proof {
            reveal_strlit("00000000-0000-0000-0000-000000000000");
        }
        let r = TestCaseContext {
            session_id: nil_id.to_owned(),
            test_name: String::new(),
            test_suite: String::new(),
            test_step_name: None,
            test_stage_name: None,
            successful_hits: 0,
            unsuccessful_hits: 0,
            test_duration_ms: 0,
            load_duration_ms: 0,
            elapsed_times: Vec::new(),
            errors: Vec::new(),
        };
        proof {
            assert(r.elapsed_times@ =~= Seq::<u64>::empty());
            assert(r.errors@ =~= Seq::<(i32, u128)>::empty());
            assert(hist::total(r.errors@) == 0);
        }
        r
    }
}

} // verus!
