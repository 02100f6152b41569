//! Reporting sinks and the action-report throttle.
//!
//! A sink consumes status snapshots through four operations; the engine
//! fans snapshots out to every registered sink.  The built-in sink clears
//! the terminal and prints the textual report.  Per-action reports are
//! throttled: the decision of whether a snapshot is forwarded or dropped
//! is the pure function at the end of this module.

use crate::exporting::Localization;
use crate::stats::{StepStatus, TestStatus};
use vstd::prelude::*;

verus! {

/// The engine never reports more often than this many seconds per action
/// snapshot, and refuses a configured frequency below it.
pub const DEFAULT_REPORTING_FREQUENCY_SECS: u64 = 5;

/// A consumer of status snapshots.  The engine invokes the operations
/// sequentially per dispatcher: once per run for `on_test_ended`, once
/// per load step for `on_load_step_ended`, at most once per reporting
/// window for `on_load_action_ended`, and once per non-load lifecycle
/// step for `on_internal_step_ended`.
pub trait ReportingSink {
    fn on_test_ended(&self, status: TestStatus);

    fn on_load_step_ended(&self, status: StepStatus);

    fn on_load_action_ended(&self, step_status: StepStatus);

    fn on_internal_step_ended(&self, step_name: &str);
}

/// Relies on `std::io::Write::write_all` on standard output: prints the
/// bytes of `s`; the report text reaches the terminal.
#[verifier::external_body]
fn write_stdout(s: &str) {
    let _ = std::io::Write::write_all(&mut std::io::stdout(), s.as_bytes());
}

/// The escape sequence that clears the terminal before a report.
fn clear_screen_code() -> (r: &'static str) {
    "\x1b[2J\x1b[1;1H"
}

/// The built-in sink: clears the terminal and prints the textual report
/// of the snapshot it received.
pub struct DefaultReportingSink {
}

impl Default for DefaultReportingSink {
    fn default() -> (r: Self)
        ensures
            r == (DefaultReportingSink {  }),
    {
        DefaultReportingSink {  }
    }
}

impl ReportingSink for DefaultReportingSink {
    fn on_test_ended(&self, status: TestStatus) {
        let locale = Localization::default();
        write_stdout(clear_screen_code());
        write_stdout(status.as_txt(&locale).as_str());
        write_stdout("\n");
    }

    fn on_load_step_ended(&self, status: StepStatus) {
        let locale = Localization::default();
        write_stdout(clear_screen_code());
        write_stdout(status.as_txt(&locale).as_str());
        write_stdout("\n");
    }

    fn on_load_action_ended(&self, step_status: StepStatus) {
        let locale = Localization::default();
        write_stdout(clear_screen_code());
        write_stdout(step_status.as_txt(&locale).as_str());
        write_stdout("\n");
    }

    fn on_internal_step_ended(&self, _step_name: &str) {
    }
}

/// The throttle of the action channel: a snapshot is forwarded only when
/// at least one sink is registered and the reporting window has passed
/// since the last forwarded snapshot; otherwise it is dropped.
pub fn should_emit_action_report(
    elapsed_since_last_ms: u64,
    reporting_frequency_ms: u64,
    have_sinks: bool,
) -> (r: bool)
    ensures
        r == (have_sinks && elapsed_since_last_ms > reporting_frequency_ms),
{
    have_sinks && elapsed_since_last_ms > reporting_frequency_ms
}

/// Whether a configured reporting frequency is acceptable: anything below
/// the default is refused at configuration time.
pub fn reporting_frequency_is_valid(seconds: u64) -> (r: bool)
    ensures
        r == (seconds >= DEFAULT_REPORTING_FREQUENCY_SECS),
{
    seconds >= DEFAULT_REPORTING_FREQUENCY_SECS
}

} // verus!
