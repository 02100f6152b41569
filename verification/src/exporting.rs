//! Rendering of status snapshots into the three export formats: a
//! human-readable text block, semicolon-separated values, and JSON.
//!
//! Every renderer is specified character by character: the spec functions
//! below state the exact text a report consists of, and the exec
//! functions produce it.  Writing the rendered files to disk is the
//! caller's business, outside the library.

use crate::stats::{Metrics, StepStatus, TestStatus};
use crate::textfmt::{
    decimal_i32, decimal_u128, format_centi, format_grouped_number, json_escape, pad20,
    replace_session_id, spec_decimal, spec_decimal_signed, spec_grouped, spec_json_escaped,
    spec_pad20, spec_replace_sid,
};
use vstd::prelude::*;

verus! {

/// The three export formats.
#[derive(Clone, Copy, PartialEq, Eq, Structural, Debug)]
pub enum FileType {
    Txt,
    Csv,
    Json,
}

impl FileType {
    pub open spec fn spec_extension(self) -> Seq<char> {
        match self {
            FileType::Txt => "txt"@,
            FileType::Csv => "csv"@,
            FileType::Json => "json"@,
        }
    }

    pub fn get_extension(&self) -> (r: &'static str)
        ensures
            r@ == self.spec_extension(),
    {
        match self {
            FileType::Txt => "txt",
            FileType::Csv => "csv",
            FileType::Json => "json",
        }
    }
}

/// Number formatting of the reports: grouped integers for counts and
/// durations, two decimals for rates.
pub struct Localization {
}

impl Default for Localization {
    fn default() -> (r: Self)
        ensures
            r == (Localization {  }),
    {
        Localization {  }
    }
}

/// A number as the reports print it.
pub open spec fn spec_number(n: int) -> Seq<char> {
    spec_grouped(spec_decimal(n))
}

/// A centi-rate as the reports print it: two decimals, no grouping.
pub open spec fn spec_centi(n: int) -> Seq<char> {
    spec_decimal(n / 100) + seq!['.'] + seq![crate::textfmt::spec_digit(n / 10 % 10)] + seq![
        crate::textfmt::spec_digit(n % 10),
    ]
}

impl Localization {
    pub fn format_number(&self, num: u128) -> (r: String)
        ensures
            r@ == spec_number(num as int),
    {
        format_grouped_number(num)
    }

    pub fn format_duration(&self, duration: u128) -> (r: String)
        ensures
            r@ == spec_number(duration as int),
    {
        self.format_number(duration)
    }

    pub fn format_centi(&self, num: u128) -> (r: String)
        ensures
            r@ == spec_centi(num as int),
    {
        format_centi(num)
    }
}

/// One `label: value ms` line of the text report.
pub open spec fn spec_ms_line(label: Seq<char>, value: Seq<char>) -> Seq<char> {
    spec_pad20(label) + ": "@ + value + " ms\r\n"@
}

/// One `label: value` line of the text report.
pub open spec fn spec_count_line(label: Seq<char>, value: Seq<char>) -> Seq<char> {
    spec_pad20(label) + ": "@ + value + "\r\n"@
}

/// The error block body: one line per code, in histogram order.
pub open spec fn spec_errors_txt(e: Seq<(i32, u128)>) -> Seq<char>
    decreases e.len(),
{
    if e.len() == 0 {
        Seq::<char>::empty()
    } else {
        spec_errors_txt(e.drop_last()) + spec_count_line(
            spec_decimal_signed(e.last().0 as int),
            spec_decimal(e.last().1 as int),
        )
    }
}

/// The trailing error fields of the report line: `;code;count` per entry.
pub open spec fn spec_errors_csv(e: Seq<(i32, u128)>) -> Seq<char>
    decreases e.len(),
{
    if e.len() == 0 {
        Seq::<char>::empty()
    } else {
        spec_errors_csv(e.drop_last()) + ";"@ + spec_decimal_signed(e.last().0 as int) + ";"@
            + spec_decimal(e.last().1 as int)
    }
}

/// The whole metrics block of the text report: nine duration lines, a
/// blank line, the three hit counters and the request rate, and — if any
/// action failed — the error block.
#[verifier::opaque]
pub open spec fn spec_metrics_txt(m: Metrics) -> Seq<char> {
    spec_ms_line("Test Duration"@, spec_number(m.test_duration as int)) + spec_ms_line(
        "Load Duration"@,
        spec_number(m.load_duration as int),
    ) + spec_ms_line("Min Time"@, spec_number(m.min_time as int)) + spec_ms_line(
        "Mean Time"@,
        spec_number(m.mean_time as int),
    ) + spec_ms_line("Max Time"@, spec_number(m.max_time as int)) + spec_ms_line(
        "Std Dev"@,
        spec_number(m.std_dev as int),
    ) + spec_ms_line("p90"@, spec_number(m.p90_time as int)) + spec_ms_line(
        "p95"@,
        spec_number(m.p95_time as int),
    ) + spec_ms_line("p99"@, spec_number(m.p99_time as int)) + "\r\n"@ + spec_count_line(
        "All Hits"@,
        spec_number(m.all_hits as int),
    ) + spec_count_line("Successful hits"@, spec_number(m.positive_hits as int)) + spec_count_line(
        "Unsuccessul hits"@,
        spec_number(m.negative_hits as int),
    ) + spec_pad20("Requests/sec"@) + ": "@ + spec_centi(m.request_per_sec_centi as int) + (
    if m.errors@.len() == 0 {
        Seq::<char>::empty()
    } else {
        "\r\n\r\n"@ + spec_pad20("Errors count"@) + ":\r\n\r\n"@ + spec_errors_txt(m.errors@)
    })
}

/// The metrics fields of one report line, semicolon-separated, error
/// pairs appended.
#[verifier::opaque]
pub open spec fn spec_metrics_csv(m: Metrics) -> Seq<char> {
    spec_number(m.test_duration as int) + ";"@ + spec_number(m.load_duration as int) + ";"@
        + spec_number(m.min_time as int) + ";"@ + spec_number(m.mean_time as int) + ";"@
        + spec_number(m.max_time as int) + ";"@ + spec_number(m.std_dev as int) + ";"@
        + spec_number(m.p90_time as int) + ";"@ + spec_number(m.p95_time as int) + ";"@
        + spec_number(m.p99_time as int) + ";"@ + spec_number(m.all_hits as int) + ";"@
        + spec_number(m.positive_hits as int) + ";"@ + spec_number(m.negative_hits as int) + ";"@
        + spec_centi(m.request_per_sec_centi as int) + spec_errors_csv(m.errors@)
}

fn ms_line(label: &str, value: &String) -> (r: String)
    ensures
        r@ == spec_ms_line(label@, value@),
{
    let mut out = pad20(label);
    out.append(": ");
    out.append(value.as_str());
    out.append(" ms\r\n");
    out
}

fn count_line(label: &str, value: &String) -> (r: String)
    ensures
        r@ == spec_count_line(label@, value@),
{
    let mut out = pad20(label);
    out.append(": ");
    out.append(value.as_str());
    out.append("\r\n");
    out
}

fn errors_txt(e: &Vec<(i32, u128)>) -> (r: String)
    ensures
        r@ == spec_errors_txt(e@),
{
    let mut out = String::new();
    let mut i: usize = 0;
    proof {
        assert(e@.take(0) =~= Seq::<(i32, u128)>::empty());
    }
    while i < e.len()
        invariant
            0 <= i <= e@.len(),
            out@ == spec_errors_txt(e@.take(i as int)),
        decreases e@.len() - i,
    {
        let (code, count) = e[i];
        let line = count_line(decimal_i32(code).as_str(), &decimal_u128(count));
        out.append(line.as_str());
        proof {
            assert(e@.take(i as int + 1).drop_last() =~= e@.take(i as int));
            assert(e@.take(i as int + 1).last() == e@[i as int]);
        }
        i = i + 1;
    }
    proof {
        assert(e@.take(e@.len() as int) =~= e@);
    }
    out
}

fn errors_csv(e: &Vec<(i32, u128)>) -> (r: String)
    ensures
        r@ == spec_errors_csv(e@),
{
    let mut out = String::new();
    let mut i: usize = 0;
    proof {
        assert(e@.take(0) =~= Seq::<(i32, u128)>::empty());
    }
    while i < e.len()
        invariant
            0 <= i <= e@.len(),
            out@ == spec_errors_csv(e@.take(i as int)),
        decreases e@.len() - i,
    {
        let (code, count) = e[i];
        out.append(";");
        out.append(decimal_i32(code).as_str());
        out.append(";");
        out.append(decimal_u128(count).as_str());
        proof {
            assert(e@.take(i as int + 1).drop_last() =~= e@.take(i as int));
            assert(e@.take(i as int + 1).last() == e@[i as int]);
        }
        i = i + 1;
    }
    proof {
        assert(e@.take(e@.len() as int) =~= e@);
    }
    out
}

impl Metrics {
    /// The metrics block of the text report, exactly as specified by
    /// [`spec_metrics_txt`].
    pub fn as_txt(&self, locale: &Localization) -> (r: String)
        ensures
            r@ == spec_metrics_txt(*self),
    {
        proof {
            reveal(spec_metrics_txt);
        }
        let mut out = ms_line("Test Duration", &locale.format_duration(self.test_duration));
        out.append(ms_line("Load Duration", &locale.format_duration(self.load_duration)).as_str());
        out.append(ms_line("Min Time", &locale.format_duration(self.min_time)).as_str());
        out.append(ms_line("Mean Time", &locale.format_duration(self.mean_time)).as_str());
        out.append(ms_line("Max Time", &locale.format_duration(self.max_time)).as_str());
        out.append(ms_line("Std Dev", &locale.format_duration(self.std_dev)).as_str());
        out.append(ms_line("p90", &locale.format_duration(self.p90_time)).as_str());
        out.append(ms_line("p95", &locale.format_duration(self.p95_time)).as_str());
        out.append(ms_line("p99", &locale.format_duration(self.p99_time)).as_str());
        out.append("\r\n");
        out.append(count_line("All Hits", &locale.format_number(self.all_hits)).as_str());
        out.append(
            count_line("Successful hits", &locale.format_number(self.positive_hits)).as_str(),
        );
        out.append(
            count_line("Unsuccessul hits", &locale.format_number(self.negative_hits)).as_str(),
        );
        let rate_label = pad20("Requests/sec");
        out.append(rate_label.as_str());
        out.append(": ");
        out.append(locale.format_centi(self.request_per_sec_centi).as_str());
        if self.errors.len() > 0 {
            out.append("\r\n\r\n");
            let err_label = pad20("Errors count");
            out.append(err_label.as_str());
            out.append(":\r\n\r\n");
            out.append(errors_txt(&self.errors).as_str());
        }
        out
    }

    /// The metrics fields of one report line, exactly as specified by
    /// [`spec_metrics_csv`].
    pub fn as_csv(&self, locale: &Localization) -> (r: String)
        ensures
            r@ == spec_metrics_csv(*self),
    {
        proof {
            reveal(spec_metrics_csv);
        }
        let mut out = locale.format_duration(self.test_duration);
        out.append(";");
        out.append(locale.format_duration(self.load_duration).as_str());
        out.append(";");
        out.append(locale.format_duration(self.min_time).as_str());
        out.append(";");
        out.append(locale.format_duration(self.mean_time).as_str());
        out.append(";");
        out.append(locale.format_duration(self.max_time).as_str());
        out.append(";");
        out.append(locale.format_duration(self.std_dev).as_str());
        out.append(";");
        out.append(locale.format_duration(self.p90_time).as_str());
        out.append(";");
        out.append(locale.format_duration(self.p95_time).as_str());
        out.append(";");
        out.append(locale.format_duration(self.p99_time).as_str());
        out.append(";");
        out.append(locale.format_number(self.all_hits).as_str());
        out.append(";");
        out.append(locale.format_number(self.positive_hits).as_str());
        out.append(";");
        out.append(locale.format_number(self.negative_hits).as_str());
        out.append(";");
        out.append(locale.format_centi(self.request_per_sec_centi).as_str());
        out.append(errors_csv(&self.errors).as_str());
        out
    }
}

/// A JSON string literal.
pub open spec fn spec_json_string(s: Seq<char>) -> Seq<char> {
    "\""@ + spec_json_escaped(s) + "\""@
}

/// The error histogram as a JSON object: codes as keys, counts as values.
pub open spec fn spec_json_error_entries(e: Seq<(i32, u128)>) -> Seq<char>
    decreases e.len(),
{
    if e.len() == 0 {
        Seq::<char>::empty()
    } else if e.len() == 1 {
        spec_json_error_entry(e[0])
    } else {
        spec_json_error_entries(e.drop_last()) + ","@ + spec_json_error_entry(e.last())
    }
}

pub open spec fn spec_json_error_entry(x: (i32, u128)) -> Seq<char> {
    "\""@ + spec_decimal_signed(x.0 as int) + "\":"@ + spec_decimal(x.1 as int)
}

pub open spec fn spec_json_errors(e: Seq<(i32, u128)>) -> Seq<char> {
    "{"@ + spec_json_error_entries(e) + "}"@
}

#[verifier::opaque]
pub open spec fn spec_json_metrics(m: Metrics) -> Seq<char> {
    "{\"test_duration\":"@ + spec_decimal(m.test_duration as int) + ",\"load_duration\":"@
        + spec_decimal(m.load_duration as int) + ",\"mean_time\":"@ + spec_decimal(
        m.mean_time as int,
    ) + ",\"max_time\":"@ + spec_decimal(m.max_time as int) + ",\"min_time\":"@ + spec_decimal(
        m.min_time as int,
    ) + ",\"std_dev\":"@ + spec_decimal(m.std_dev as int) + ",\"p90_time\":"@ + spec_decimal(
        m.p90_time as int,
    ) + ",\"p95_time\":"@ + spec_decimal(m.p95_time as int) + ",\"p99_time\":"@ + spec_decimal(
        m.p99_time as int,
    ) + ",\"positive_hits\":"@ + spec_decimal(m.positive_hits as int) + ",\"negative_hits\":"@
        + spec_decimal(m.negative_hits as int) + ",\"all_hits\":"@ + spec_decimal(
        m.all_hits as int,
    ) + ",\"request_per_sec\":"@ + spec_centi(m.request_per_sec_centi as int) + ",\"errors\":"@
        + spec_json_errors(m.errors@) + "}"@
}

#[verifier::opaque]
pub open spec fn spec_json_test_status(t: TestStatus) -> Seq<char> {
    "{\"session_id\":"@ + spec_json_string(t.session_id@) + ",\"test_name\":"@ + spec_json_string(
        t.test_name@,
    ) + ",\"metrics\":"@ + spec_json_metrics(t.metrics) + "}"@
}

#[verifier::opaque]
pub open spec fn spec_json_step_status(s: StepStatus) -> Seq<char> {
    "{\"session_id\":"@ + spec_json_string(s.session_id@) + ",\"test_name\":"@ + spec_json_string(
        s.test_name@,
    ) + ",\"step_name\":"@ + spec_json_string(s.step_name@) + ",\"metrics\":"@ + spec_json_metrics(
        s.metrics,
    ) + "}"@
}

pub open spec fn spec_json_steps(ss: Seq<StepStatus>) -> Seq<char>
    decreases ss.len(),
{
    if ss.len() == 0 {
        Seq::<char>::empty()
    } else if ss.len() == 1 {
        spec_json_step_status(ss[0])
    } else {
        spec_json_steps(ss.drop_last()) + ","@ + spec_json_step_status(ss.last())
    }
}

/// The whole JSON report: the test status and the per-step statuses.
pub open spec fn spec_json_report(t: TestStatus, ss: Seq<StepStatus>) -> Seq<char> {
    "{\"test_status\":"@ + spec_json_test_status(t) + ",\"step_status\":["@ + spec_json_steps(ss)
        + "]}"@
}

/// The header of the text report for the whole run.
#[verifier::opaque]
pub open spec fn spec_test_txt(t: TestStatus) -> Seq<char> {
    spec_count_line("Session ID"@, t.session_id@) + spec_count_line("Test Case"@, t.test_name@)
        + "\r\n"@ + spec_metrics_txt(t.metrics)
}

#[verifier::opaque]
pub open spec fn spec_test_csv(t: TestStatus) -> Seq<char> {
    t.session_id@ + ";"@ + t.test_name@ + ";"@ + spec_metrics_csv(t.metrics)
}

#[verifier::opaque]
pub open spec fn spec_step_txt(s: StepStatus) -> Seq<char> {
    spec_count_line("Test Step"@, s.step_name@) + "\r\n"@ + spec_metrics_txt(s.metrics)
}

#[verifier::opaque]
pub open spec fn spec_step_csv(s: StepStatus) -> Seq<char> {
    s.step_name@ + ";"@ + spec_metrics_csv(s.metrics)
}

/// The separator between the test block and each step block.
pub open spec fn spec_separator() -> Seq<char> {
    "\r\n\r\n----------------------------------------------------------------------\r\n\r\n"@
}

/// The text report: the test block, then each step block behind a
/// separator.
pub open spec fn spec_content_txt(t: TestStatus, ss: Seq<StepStatus>) -> Seq<char>
    decreases ss.len(),
{
    if ss.len() == 0 {
        spec_test_txt(t)
    } else {
        spec_content_txt(t, ss.drop_last()) + spec_separator() + spec_step_txt(ss.last())
    }
}

/// The delimited report: one line per step, the test fields repeated in
/// front of each, nothing for a run without steps.
pub open spec fn spec_content_csv(t: TestStatus, ss: Seq<StepStatus>) -> Seq<char>
    decreases ss.len(),
{
    if ss.len() == 0 {
        Seq::<char>::empty()
    } else {
        spec_content_csv(t, ss.drop_last()) + spec_test_csv(t) + spec_step_csv(ss.last()) + "\r\n"@
    }
}

pub open spec fn spec_content(ft: FileType, t: TestStatus, ss: Seq<StepStatus>) -> Seq<char> {
    match ft {
        FileType::Txt => spec_content_txt(t, ss),
        FileType::Csv => spec_content_csv(t, ss),
        FileType::Json => spec_json_report(t, ss),
    }
}

fn json_string(s: &str) -> (r: String)
    ensures
        r@ == spec_json_string(s@),
{
    let mut out = String::from_str("\"");
    out.append(json_escape(s).as_str());
    out.append("\"");
    out
}

fn json_errors(e: &Vec<(i32, u128)>) -> (r: String)
    ensures
        r@ == spec_json_errors(e@),
{
    let mut out = String::from_str("{");
    let mut i: usize = 0;
    proof {
        assert(e@.take(0) =~= Seq::<(i32, u128)>::empty());
    }
    while i < e.len()
        invariant
            0 <= i <= e@.len(),
            out@ == "{"@ + spec_json_error_entries(e@.take(i as int)),
        decreases e@.len() - i,
    {
        if i > 0 {
            out.append(",");
        }
        let (code, count) = e[i];
        out.append("\"");
        out.append(decimal_i32(code).as_str());
        out.append("\":");
        out.append(decimal_u128(count).as_str());
        proof {
            assert(e@.take(i as int + 1).drop_last() =~= e@.take(i as int));
            assert(e@.take(i as int + 1).last() == e@[i as int]);
            assert(e@.take(i as int + 1)[0] == e@[0]);
        }
        i = i + 1;
    }
    out.append("}");
    proof {
        assert(e@.take(e@.len() as int) =~= e@);
    }
    out
}

fn json_metrics(m: &Metrics) -> (r: String)
    ensures
        r@ == spec_json_metrics(*m),
{
    proof {
        reveal(spec_json_metrics);
    }
    let mut out = String::from_str("{\"test_duration\":");
    out.append(decimal_u128(m.test_duration).as_str());
    out.append(",\"load_duration\":");
    out.append(decimal_u128(m.load_duration).as_str());
    out.append(",\"mean_time\":");
    out.append(decimal_u128(m.mean_time).as_str());
    out.append(",\"max_time\":");
    out.append(decimal_u128(m.max_time).as_str());
    out.append(",\"min_time\":");
    out.append(decimal_u128(m.min_time).as_str());
    out.append(",\"std_dev\":");
    out.append(decimal_u128(m.std_dev).as_str());
    out.append(",\"p90_time\":");
    out.append(decimal_u128(m.p90_time).as_str());
    out.append(",\"p95_time\":");
    out.append(decimal_u128(m.p95_time).as_str());
    out.append(",\"p99_time\":");
    out.append(decimal_u128(m.p99_time).as_str());
    out.append(",\"positive_hits\":");
    out.append(decimal_u128(m.positive_hits).as_str());
    out.append(",\"negative_hits\":");
    out.append(decimal_u128(m.negative_hits).as_str());
    out.append(",\"all_hits\":");
    out.append(decimal_u128(m.all_hits).as_str());
    out.append(",\"request_per_sec\":");
    out.append(format_centi(m.request_per_sec_centi).as_str());
    out.append(",\"errors\":");
    out.append(json_errors(&m.errors).as_str());
    out.append("}");
    out
}

impl TestStatus {
    /// The header block of the text report.
    pub fn as_txt(&self, locale: &Localization) -> (r: String)
        ensures
            r@ == spec_test_txt(*self),
    {
        proof {
            reveal(spec_test_txt);
        }
        let mut out = count_line("Session ID", &self.session_id);
        out.append(count_line("Test Case", &self.test_name).as_str());
        out.append("\r\n");
        out.append(self.metrics.as_txt(locale).as_str());
        out
    }

    /// The test-level fields of one report line.
    pub fn as_csv(&self, locale: &Localization) -> (r: String)
        ensures
            r@ == spec_test_csv(*self),
    {
        proof {
            reveal(spec_test_csv);
        }
        let mut out = self.session_id.clone();
        out.append(";");
        out.append(self.test_name.as_str());
        out.append(";");
        out.append(self.metrics.as_csv(locale).as_str());
        out
    }

    /// The run snapshot as a JSON object.
    pub fn as_json(&self) -> (r: String)
        ensures
            r@ == spec_json_test_status(*self),
    {
        proof {
            reveal(spec_json_test_status);
        }
        let mut out = String::from_str("{\"session_id\":");
        out.append(json_string(self.session_id.as_str()).as_str());
        out.append(",\"test_name\":");
        out.append(json_string(self.test_name.as_str()).as_str());
        out.append(",\"metrics\":");
        out.append(json_metrics(&self.metrics).as_str());
        out.append("}");
        out
    }
}

impl StepStatus {
    /// The step block of the text report.
    pub fn as_txt(&self, locale: &Localization) -> (r: String)
        ensures
            r@ == spec_step_txt(*self),
    {
        proof {
            reveal(spec_step_txt);
        }
        let mut out = count_line("Test Step", &self.step_name);
        out.append("\r\n");
        out.append(self.metrics.as_txt(locale).as_str());
        out
    }

    /// The step-level fields of one report line.
    pub fn as_csv(&self, locale: &Localization) -> (r: String)
        ensures
            r@ == spec_step_csv(*self),
    {
        proof {
            reveal(spec_step_csv);
        }
        let mut out = self.step_name.clone();
        out.append(";");
        out.append(self.metrics.as_csv(locale).as_str());
        out
    }

    /// The step snapshot as a JSON object.
    pub fn as_json(&self) -> (r: String)
        ensures
            r@ == spec_json_step_status(*self),
    {
        proof {
            reveal(spec_json_step_status);
        }
        let mut out = String::from_str("{\"session_id\":");
        out.append(json_string(self.session_id.as_str()).as_str());
        out.append(",\"test_name\":");
        out.append(json_string(self.test_name.as_str()).as_str());
        out.append(",\"step_name\":");
        out.append(json_string(self.step_name.as_str()).as_str());
        out.append(",\"metrics\":");
        out.append(json_metrics(&self.metrics).as_str());
        out.append("}");
        out
    }
}

fn content_txt(test_status: &TestStatus, step_status: &Vec<StepStatus>) -> (r: String)
    ensures
        r@ == spec_content_txt(*test_status, step_status@),
{
    let locale = Localization::default();
    let mut out = test_status.as_txt(&locale);
    let mut i: usize = 0;
    proof {
        assert(step_status@.take(0) =~= Seq::<StepStatus>::empty());
    }
    while i < step_status.len()
        invariant
            0 <= i <= step_status@.len(),
            out@ == spec_content_txt(*test_status, step_status@.take(i as int)),
        decreases step_status@.len() - i,
    {
        out.append(
            "\r\n\r\n----------------------------------------------------------------------\r\n\r\n",
        );
        out.append(step_status[i].as_txt(&locale).as_str());
        proof {
            assert(step_status@.take(i as int + 1).drop_last() =~= step_status@.take(i as int));
            assert(step_status@.take(i as int + 1).last() == step_status@[i as int]);
        }
        i = i + 1;
    }
    proof {
        assert(step_status@.take(step_status@.len() as int) =~= step_status@);
    }
    out
}

fn content_csv(test_status: &TestStatus, step_status: &Vec<StepStatus>) -> (r: String)
    ensures
        r@ == spec_content_csv(*test_status, step_status@),
{
    let locale = Localization::default();
    let mut out = String::new();
    let mut i: usize = 0;
    proof {
        assert(step_status@.take(0) =~= Seq::<StepStatus>::empty());
    }
    while i < step_status.len()
        invariant
            0 <= i <= step_status@.len(),
            out@ == spec_content_csv(*test_status, step_status@.take(i as int)),
        decreases step_status@.len() - i,
    {
        out.append(test_status.as_csv(&locale).as_str());
        out.append(step_status[i].as_csv(&locale).as_str());
        out.append("\r\n");
        proof {
            assert(step_status@.take(i as int + 1).drop_last() =~= step_status@.take(i as int));
            assert(step_status@.take(i as int + 1).last() == step_status@[i as int]);
        }
        i = i + 1;
    }
    proof {
        assert(step_status@.take(step_status@.len() as int) =~= step_status@);
    }
    out
}

fn content_json(test_status: &TestStatus, step_status: &Vec<StepStatus>) -> (r: String)
    ensures
        r@ == spec_json_report(*test_status, step_status@),
{
    let mut out = String::from_str("{\"test_status\":");
    out.append(test_status.as_json().as_str());
    out.append(",\"step_status\":[");
    let mut i: usize = 0;
    proof {
        assert(step_status@.take(0) =~= Seq::<StepStatus>::empty());
    }
    while i < step_status.len()
        invariant
            0 <= i <= step_status@.len(),
            out@ == "{\"test_status\":"@ + spec_json_test_status(*test_status)
                + ",\"step_status\":["@ + spec_json_steps(step_status@.take(i as int)),
        decreases step_status@.len() - i,
    {
        if i > 0 {
            out.append(",");
        }
        out.append(step_status[i].as_json().as_str());
        proof {
            assert(step_status@.take(i as int + 1).drop_last() =~= step_status@.take(i as int));
            assert(step_status@.take(i as int + 1).last() == step_status@[i as int]);
            assert(step_status@.take(i as int + 1)[0] == step_status@[0]);
        }
        i = i + 1;
    }
    out.append("]}");
    proof {
        assert(step_status@.take(step_status@.len() as int) =~= step_status@);
    }
    out
}

impl FileType {
    /// The full file content for this format: the test status followed by
    /// the step statuses, laid out as the format demands.
    pub fn get_content(&self, test_status: &TestStatus, step_status: &Vec<StepStatus>) -> (r:
        String)
        ensures
            r@ == spec_content(*self, *test_status, step_status@),
    {
        match self {
            FileType::Txt => content_txt(test_status, step_status),
            FileType::Csv => content_csv(test_status, step_status),
            FileType::Json => content_json(test_status, step_status),
        }
    }
}

/// Whether `s` ends in `suffix`.
pub open spec fn spec_ends_with(s: Seq<char>, suffix: Seq<char>) -> bool {
    s.len() >= suffix.len() && s.skip(s.len() - suffix.len()) == suffix
}

/// One declared output: a format, a directory and a file-name pattern.
pub struct ExportFile {
    pub file_type: FileType,
    pub directory: String,
    pub file_name: String,
}

impl ExportFile {
    pub fn new(file_type: FileType, directory: String, file_name: String) -> (r: Self)
        ensures
            r.file_type == file_type,
            r.directory@ == directory@,
            r.file_name@ == file_name@,
    {
        ExportFile { file_type, directory, file_name }
    }

    /// The declared name with the format's extension appended, unless the
    /// name already ends in it.
    pub open spec fn spec_final_name(self) -> Seq<char> {
        if spec_ends_with(self.file_name@, self.file_type.spec_extension()) {
            self.file_name@
        } else {
            self.file_name@ + "."@ + self.file_type.spec_extension()
        }
    }

    pub fn format_file_name(&self) -> (r: String)
        ensures
            r@ == self.spec_final_name(),
    {
        let ext = self.file_type.get_extension();
        let n = self.file_name.as_str().unicode_len();
        let k = ext.unicode_len();
        if n >= k {
            let tail = self.file_name.as_str().substring_char(n - k, n).to_owned();
            let ext_string = ext.to_owned();
            if tail == ext_string {
                proof {
                    assert(self.file_name@.subrange(
                        self.file_name@.len() - ext@.len(),
                        self.file_name@.len() as int,
                    ) =~= self.file_name@.skip(self.file_name@.len() - ext@.len()));
                }
                return self.file_name.clone();
            }
        }
        proof {
            if n >= k {
                assert(self.file_name@.subrange(
                    self.file_name@.len() - ext@.len(),
                    self.file_name@.len() as int,
                ) =~= self.file_name@.skip(self.file_name@.len() - ext@.len()));
            }
        }
        let mut out = self.file_name.clone();
        out.append(".");
        out.append(ext);
        out
    }
}

/// The declared set of output files, and the rendering of a finished run
/// into their contents.
pub struct Exporter {
    pub export_files: Vec<ExportFile>,
}

impl Default for Exporter {
    fn default() -> (r: Self)
        ensures
            r.export_files@ == Seq::<ExportFile>::empty(),
    {
        let r = Exporter { export_files: Vec::new() };
        proof {
            assert(r.export_files@ =~= Seq::<ExportFile>::empty());
        }
        r
    }
}

impl Exporter {
    /// Declares the default outputs: one file per format, in `output`,
    /// named after the session identifier.
    pub fn with_default_output_files(&mut self)
        ensures
            final(self).export_files@.len() == old(self).export_files@.len() + 3,
            final(self).export_files@.subrange(0, old(self).export_files@.len() as int) == old(
                self,
            ).export_files@,
            ({
                let n = old(self).export_files@.len() as int;
                let files = final(self).export_files@;
                &&& files[n].file_type == FileType::Txt
                &&& files[n + 1].file_type == FileType::Csv
                &&& files[n + 2].file_type == FileType::Json
                &&& forall|i: int|
                    n <= i < n + 3 ==> (#[trigger] files[i]).directory@ == "output"@
                        && files[i].file_name@ == "{session-id}"@
            }),
    {
        self.with_output_file(FileType::Txt, String::from_str("output"), String::from_str("{session-id}"));
        self.with_output_file(FileType::Csv, String::from_str("output"), String::from_str("{session-id}"));
        self.with_output_file(FileType::Json, String::from_str("output"), String::from_str("{session-id}"));
        proof {
            assert(final(self).export_files@.subrange(0, old(self).export_files@.len() as int)
                =~= old(self).export_files@);
        }
    }

    /// Declares one more output file.
    pub fn with_output_file(&mut self, file_type: FileType, directory: String, file_name: String)
        ensures
            final(self).export_files@.len() == old(self).export_files@.len() + 1,
            final(self).export_files@.subrange(0, old(self).export_files@.len() as int) == old(
                self,
            ).export_files@,
            final(self).export_files@.last().file_type == file_type,
            final(self).export_files@.last().directory@ == directory@,
            final(self).export_files@.last().file_name@ == file_name@,
    {
        let ghost before = self.export_files@;
        self.export_files.push(ExportFile::new(file_type, directory, file_name));
        proof {
            assert(final(self).export_files@.subrange(0, before.len() as int) =~= before);
        }
    }

    /// Renders every declared output: for each file its directory, its
    /// final name (extension appended, session identifier substituted)
    /// and its full content.
    pub fn render_output_files(&self, test_status: &TestStatus, step_status: &Vec<StepStatus>)
        -> (r: Vec<(String, String, String)>)
        ensures
            r@.len() == self.export_files@.len(),
            forall|i: int|
                0 <= i < r@.len() ==> {
                    let f = self.export_files@[i];
                    &&& (#[trigger] r@[i]).0@ == f.directory@
                    &&& r@[i].1@ == spec_replace_sid(f.spec_final_name(), test_status.session_id@)
                    &&& r@[i].2@ == spec_content(f.file_type, *test_status, step_status@)
                },
    {
        let mut out: Vec<(String, String, String)> = Vec::new();
        let mut i: usize = 0;
        while i < self.export_files.len()
            invariant
                0 <= i <= self.export_files@.len(),
                out@.len() == i,
                forall|j: int|
                    0 <= j < i ==> {
                        let f = self.export_files@[j];
                        &&& (#[trigger] out@[j]).0@ == f.directory@
                        &&& out@[j].1@ == spec_replace_sid(
                            f.spec_final_name(),
                            test_status.session_id@,
                        )
                        &&& out@[j].2@ == spec_content(f.file_type, *test_status, step_status@)
                    },
            decreases self.export_files@.len() - i,
        {
            let f = &self.export_files[i];
            let content = f.file_type.get_content(test_status, step_status);
            let name = f.format_file_name();
            let final_name = replace_session_id(name.as_str(), test_status.session_id.as_str());
            out.push((f.directory.clone(), final_name, content));
            i = i + 1;
        }
        out
    }
}

} // verus!
