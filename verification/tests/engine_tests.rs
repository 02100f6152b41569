use loady::context::TestCaseContext;
use loady::influx::InfluxDbSinkBuilder;
use loady::reporting::{reporting_frequency_is_valid, should_emit_action_report};
use loady::scheduler::{load_stage_continues, next_period, warm_up_stage_continues};
use loady::stats::{Metrics, StepStatus, TestStatus};

fn seeded_context() -> TestCaseContext {
    let mut ctx = TestCaseContext::default();
    ctx.add_hit(Ok(()), 100);
    ctx.add_hit(Ok(()), 130);
    ctx.add_hit(Ok(()), 80);
    ctx.add_hit(Err(401), 200);
    ctx.add_hit(Err(402), 300);
    ctx.add_hit(Ok(()), 150);
    ctx.set_current_duration(7000);
    ctx.set_current_load_duration(5000);
    ctx
}

#[test]
fn given_any_run_when_projected_then_all_hits_split_into_outcomes() {
    let ctx = seeded_context();
    let metrics = Metrics::new(&ctx);

    assert_eq!(metrics.all_hits, metrics.positive_hits + metrics.negative_hits);
    assert_eq!(metrics.all_hits, 6);
}

#[test]
fn given_any_run_when_projected_then_min_mean_max_are_ordered() {
    let ctx = seeded_context();
    let metrics = Metrics::new(&ctx);

    assert!(metrics.min_time <= metrics.mean_time);
    assert!(metrics.mean_time <= metrics.max_time);

    let empty = Metrics::new(&TestCaseContext::default());
    assert_eq!(empty.min_time, 0);
    assert_eq!(empty.mean_time, 0);
    assert_eq!(empty.max_time, 0);
}

#[test]
fn given_any_run_when_projected_then_percentiles_are_ordered_below_max() {
    let ctx = seeded_context();
    let metrics = Metrics::new(&ctx);

    assert!(metrics.p90_time <= metrics.p95_time);
    assert!(metrics.p95_time <= metrics.p99_time);
    assert!(metrics.p99_time <= metrics.max_time);
}

#[test]
fn given_any_run_when_projected_then_error_histogram_sums_to_failures() {
    let ctx = seeded_context();
    let metrics = Metrics::new(&ctx);

    let total: u128 = metrics.errors.iter().map(|(_, count)| *count).sum();
    assert_eq!(total, metrics.negative_hits);
}

#[test]
fn given_mixed_outcomes_when_accumulated_then_histogram_tracks_failures_only() {
    let codes = [200, 400, 401, 403, 500];
    let mut ctx = TestCaseContext::default();
    for round in 0..25u64 {
        let code = codes[(round % 5) as usize];
        let outcome: Result<(), i32> = if code == 200 { Ok(()) } else { Err(code) };
        ctx.add_hit(outcome, 40 + round);
    }

    assert_eq!(ctx.get_hits(), 25);
    assert_eq!(ctx.get_successful_hits(), 5);
    assert_eq!(ctx.get_unsuccessful_hits(), 20);
    let errors = ctx.get_current_errors();
    assert_eq!(errors.len(), 4);
    for (code, count) in &errors {
        assert!([400, 401, 403, 500].contains(code));
        assert_eq!(*count, 5);
    }
    let total: u128 = errors.iter().map(|(_, count)| *count).sum();
    assert_eq!(total, ctx.get_unsuccessful_hits());
}

#[test]
fn given_untouched_context_when_projected_then_default_record_matches() {
    let projected = Metrics::new(&TestCaseContext::default());
    let blank = Metrics::default();

    assert_eq!(projected.test_duration, blank.test_duration);
    assert_eq!(projected.load_duration, blank.load_duration);
    assert_eq!(projected.mean_time, blank.mean_time);
    assert_eq!(projected.max_time, blank.max_time);
    assert_eq!(projected.min_time, blank.min_time);
    assert_eq!(projected.std_dev, blank.std_dev);
    assert_eq!(projected.p90_time, blank.p90_time);
    assert_eq!(projected.p95_time, blank.p95_time);
    assert_eq!(projected.p99_time, blank.p99_time);
    assert_eq!(projected.positive_hits, blank.positive_hits);
    assert_eq!(projected.negative_hits, blank.negative_hits);
    assert_eq!(projected.all_hits, blank.all_hits);
    assert_eq!(projected.request_per_sec_centi, blank.request_per_sec_centi);
    assert!(projected.errors.is_empty() && blank.errors.is_empty());
}

#[test]
fn given_load_stage_when_elapsed_reaches_duration_then_the_loop_stops() {
    assert!(load_stage_continues(0, 500));
    assert!(load_stage_continues(499, 500));
    assert!(!load_stage_continues(500, 500));
    assert!(!load_stage_continues(0, 0));
}

#[test]
fn given_warm_up_stage_when_elapsed_reaches_duration_then_one_more_batch_runs() {
    assert!(warm_up_stage_continues(500, 500));
    assert!(!warm_up_stage_continues(501, 500));
    assert!(warm_up_stage_continues(0, 0));
}

#[test]
fn given_short_stage_when_duration_is_below_interval_then_one_batch_still_runs() {
    // the loop guard is tested before any sleep, so a stage of 400 ms with
    // a 1000 ms interval dispatches exactly one batch
    assert!(load_stage_continues(0, 400));
    let (target, sleep) = next_period(0, 0, 1000, 0);
    assert_eq!(target, 1000);
    assert_eq!(sleep, 1000);
}

#[test]
fn given_next_period_when_target_is_in_the_past_then_no_sleep_happens() {
    let (target, sleep) = next_period(0, 3000, 1000, 5000);
    assert_eq!(target, 4000);
    assert_eq!(sleep, 0);

    let (target, sleep) = next_period(0, 5000, 1000, 5500);
    assert_eq!(target, 6000);
    assert_eq!(sleep, 500);

    let (target, sleep) = next_period(700, u64::MAX, 1000, 800);
    assert_eq!(target, 700);
    assert_eq!(sleep, 0);
}

#[test]
fn given_throttle_when_window_has_not_passed_then_snapshot_is_dropped() {
    assert!(should_emit_action_report(5001, 5000, true));
    assert!(!should_emit_action_report(5000, 5000, true));
    assert!(!should_emit_action_report(4000, 5000, true));
    assert!(!should_emit_action_report(9999, 5000, false));
}

#[test]
fn given_reporting_frequency_when_below_default_then_configuration_is_refused() {
    assert!(!reporting_frequency_is_valid(0));
    assert!(!reporting_frequency_is_valid(4));
    assert!(reporting_frequency_is_valid(5));
    assert!(reporting_frequency_is_valid(60));
}

#[test]
fn given_step_snapshot_when_projected_to_rows_then_each_metric_appears_once() {
    let ctx = seeded_context();
    let step = StepStatus::new(String::from("simple sample"), &ctx);

    let rows = step.to_metrics();
    assert_eq!(rows.len(), 11);
    assert_eq!(rows[0].description, "test_duration");
    assert_eq!(rows[0].value, 7000);
    assert_eq!(rows[1].description, "mean_time");
    assert_eq!(rows[1].value, 160);
    assert_eq!(rows[10].description, "all_hits");
    assert_eq!(rows[10].value, 6);

    let errors = step.to_errors();
    assert_eq!(errors.len(), 2);
    assert_eq!(errors[0].description, "401");
    assert_eq!(errors[0].value, 1);
    assert_eq!(errors[1].description, "402");
    assert_eq!(errors[1].value, 1);
}

#[test]
fn given_sink_builder_when_settings_are_chained_then_each_field_lands() {
    let builder = InfluxDbSinkBuilder::default()
        .with_using_url("http://localhost:8086")
        .with_credentials("user", "secret")
        .with_db_name("loadtests")
        .with_timeseries_names("metrics", "errors");

    assert_eq!(builder.url.as_deref(), Some("http://localhost:8086"));
    assert_eq!(builder.db_name.as_deref(), Some("loadtests"));
    assert_eq!(builder.metrics_ts_name.as_deref(), Some("metrics"));
    assert_eq!(builder.errors_ts_name.as_deref(), Some("errors"));
    assert!(builder.credentials.is_some());
    assert_eq!(builder.resolved_db_name(), "loadtests");
}

#[test]
fn given_sink_builder_when_nothing_is_configured_then_defaults_resolve() {
    let builder = InfluxDbSinkBuilder::default();
    assert_eq!(builder.resolved_db_name(), "loady");
    let (metrics, errors) = builder.resolved_timeseries_names();
    assert_eq!(metrics, "loady-metrics");
    assert_eq!(errors, "loady-errors");
}

#[test]
fn given_test_status_when_created_then_identity_comes_from_the_context() {
    let ctx = seeded_context();
    let status = TestStatus::new(String::from("simple sample"), &ctx);

    assert_eq!(status.test_name, "simple sample");
    assert_eq!(status.session_id, ctx.get_session_id());
    assert_eq!(status.metrics.all_hits, 6);
    assert_eq!(status.metrics.request_per_sec_centi, 120);
}
