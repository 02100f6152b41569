use loady::context::TestCaseContext;

fn seed_with_hits(ctx: &mut TestCaseContext) {
    let hits: Vec<(Result<(), i32>, u64)> = vec![
        (Ok(()), 100),
        (Ok(()), 130),
        (Ok(()), 80),
        (Err(401), 200),
        (Err(402), 300),
        (Ok(()), 150),
    ];

    for (result, duration) in hits {
        ctx.add_hit(result, duration);
    }
}

#[test]
fn given_default_test_context_when_getting_values_then_returns_defaults() {
    let ctx = TestCaseContext::default();

    assert!(!ctx.get_session_id().is_empty());
    assert_eq!(ctx.get_current_step_name(), String::from(""));
    assert_eq!(ctx.get_current_duration(), 0);
    assert!(ctx.get_current_errors().is_empty());
    assert_eq!(ctx.get_current_min_time(), 0);
    assert_eq!(ctx.get_current_mean_time(), 0);
    assert_eq!(ctx.get_current_max_time(), 0);
    assert_eq!(ctx.get_current_percentile_time(95, 100), 0);
    assert_eq!(ctx.get_current_percentile_time(97, 100), 0);
    assert_eq!(ctx.get_current_percentile_time(99, 100), 0);
    assert_eq!(ctx.get_hits(), 0);
    assert_eq!(ctx.get_successful_hits(), 0);
    assert_eq!(ctx.get_unsuccessful_hits(), 0);
}

#[test]
fn given_set_of_results_when_getting_min_time_then_returns_exepected_value() {
    let mut ctx = TestCaseContext::default();
    seed_with_hits(&mut ctx);

    let actual = ctx.get_current_min_time();

    assert_eq!(actual, 80);
}

#[test]
fn given_set_of_results_when_getting_max_time_then_returns_exepected_value() {
    let mut ctx = TestCaseContext::default();
    seed_with_hits(&mut ctx);

    let actual = ctx.get_current_max_time();

    assert_eq!(actual, 300);
}

#[test]
fn given_set_of_results_when_getting_mean_time_then_returns_exepected_value() {
    let mut ctx = TestCaseContext::default();
    seed_with_hits(&mut ctx);

    let actual = ctx.get_current_mean_time();

    assert_eq!(actual, 160);
}

#[test]
fn given_set_of_results_when_getting_std_dev_then_returns_exepected_value() {
    let mut ctx = TestCaseContext::default();
    seed_with_hits(&mut ctx);

    let actual = ctx.get_current_std_dev();

    assert_eq!(actual, 73);
}

#[test]
fn given_set_of_results_when_getting_successful_hits_then_returns_exepected_value() {
    let mut ctx = TestCaseContext::default();
    seed_with_hits(&mut ctx);

    let actual = ctx.get_successful_hits();

    assert_eq!(actual, 4);
}

#[test]
fn given_set_of_results_when_getting_unsuccessful_hits_then_returns_exepected_value() {
    let mut ctx = TestCaseContext::default();
    seed_with_hits(&mut ctx);

    let actual = ctx.get_unsuccessful_hits();

    assert_eq!(actual, 2);
}

#[test]
fn given_set_of_results_when_getting_all_hits_then_returns_exepected_value() {
    let mut ctx = TestCaseContext::default();
    seed_with_hits(&mut ctx);

    let actual = ctx.get_hits();

    assert_eq!(actual, 6);
}

#[test]
fn given_set_of_results_when_getting_errors_then_returns_exepected_value() {
    let mut ctx = TestCaseContext::default();
    seed_with_hits(&mut ctx);

    let actual = ctx.get_current_errors();

    assert_eq!(actual.len(), 2);
    assert_eq!(ctx.get_error_count(401), 1);
    assert_eq!(ctx.get_error_count(402), 1);
}

#[test]
fn given_step_name_when_getting_current_step_name_then_returns_expected_value() {
    const STEP_NAME: &str = "STEP NAME";
    const STAGE_NAME: &str = "STAGE NAME";
    let mut ctx = TestCaseContext::default();
    ctx.set_current_step(STEP_NAME);
    ctx.set_current_stage(STAGE_NAME);

    let actual = ctx.get_current_step_name();

    assert_eq!(actual, STEP_NAME);
}

#[test]
fn given_test_duration_when_getting_current_duration_then_returns_expected_value() {
    let duration_ms: u64 = 2000;
    let mut ctx = TestCaseContext::default();
    ctx.set_current_duration(duration_ms);

    let actual = ctx.get_current_duration();

    assert_eq!(actual, duration_ms);
}

#[test]
fn given_seeded_context_when_getting_percentiles_then_interpolates_between_samples() {
    let mut ctx = TestCaseContext::default();
    seed_with_hits(&mut ctx);

    assert_eq!(ctx.get_current_percentile_time(90, 100), 250);
    assert_eq!(ctx.get_current_percentile_time(95, 100), 275);
    assert_eq!(ctx.get_current_percentile_time(99, 100), 295);
}

#[test]
fn given_seeded_context_when_getting_extreme_percentiles_then_returns_min_and_max() {
    let mut ctx = TestCaseContext::default();
    seed_with_hits(&mut ctx);

    assert_eq!(ctx.get_current_percentile_time(0, 100), 80);
    assert_eq!(ctx.get_current_percentile_time(100, 100), 300);
}

#[test]
fn given_fresh_context_when_created_then_session_id_has_uuid_shape() {
    let ctx = TestCaseContext::new("test name", "test suite");
    let id = ctx.get_session_id();

    assert_eq!(id.len(), 36);
    assert_ne!(id, TestCaseContext::default().get_session_id());
}

#[test]
fn given_duplicate_elapsed_times_when_added_then_each_sample_counts() {
    let mut ctx = TestCaseContext::default();
    ctx.add_hit(Ok(()), 100);
    ctx.add_hit(Ok(()), 100);
    ctx.add_hit(Err(500), 100);

    assert_eq!(ctx.get_hits(), 3);
    assert_eq!(ctx.get_current_mean_time(), 100);
    assert_eq!(ctx.get_error_count(500), 1);
}
