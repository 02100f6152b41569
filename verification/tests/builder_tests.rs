use loady::composition::TestStep;
use loady::TestCaseBuilder;

const TEST_NAME: &str = "simple sample";
const TEST_SUITE: &str = "samples";
const TEST_STEP_1: &str = "first";
const TEST_STEP_2: &str = "second";
const TEST_STAGE_1: &str = "warm up";
const TEST_STAGE_2: &str = "load";

#[derive(Default, Clone, Debug)]
struct InnerContext;

type Action = u8;

#[test]
fn test_case_builder_tests_given_test_info_when_using_builder_then_build_test_case() {
    let test_case = TestCaseBuilder::<Action, InnerContext>::new(
        TEST_NAME,
        TEST_SUITE,
        InnerContext::default(),
    )
        .with_load_step(TEST_STEP_1, 0)
        .with_stage(TEST_STAGE_1, 10_000, 1000, 1)
        .with_load_step(TEST_STEP_2, 0)
        .with_stage(TEST_STAGE_2, 20_000, 1000, 10)
        .build();

    assert_eq!(test_case.test_name, TEST_NAME);
    assert_eq!(test_case.test_suite, TEST_SUITE);
    assert_eq!(test_case.test_steps.len(), 2);
}

#[test]
fn test_case_builder_tests_given_test_info_without_steps_when_using_builder_then_build_test_case() {
    let test_case = TestCaseBuilder::<Action, InnerContext>::new(
        TEST_NAME,
        TEST_SUITE,
        InnerContext::default(),
    )
        .build();

    assert!(test_case.test_steps.is_empty());
}

#[test]
fn given_full_pipeline_when_built_then_steps_run_in_canonical_order() {
    let test_case = TestCaseBuilder::<Action, InnerContext>::new(
        TEST_NAME,
        TEST_SUITE,
        InnerContext::default(),
    )
        .with_init_step(0)
        .with_warm_up_step(0)
        .with_stage(TEST_STAGE_1, 10_000, 1000, 1)
        .with_load_step(TEST_STEP_1, 0)
        .with_stage(TEST_STAGE_2, 20_000, 1000, 10)
        .with_clean_up_step(0)
        .build();

    assert_eq!(test_case.test_steps.len(), 4);
    assert!(matches!(test_case.test_steps[0], TestStep::Init { .. }));
    assert!(matches!(test_case.test_steps[1], TestStep::WarmUp { .. }));
    assert!(matches!(test_case.test_steps[2], TestStep::Load { .. }));
    assert!(matches!(test_case.test_steps[3], TestStep::CleanUp { .. }));
    match &test_case.test_steps[1] {
        TestStep::WarmUp { stages, .. } => {
            assert_eq!(stages.len(), 1);
            assert_eq!(stages[0].stage_name, TEST_STAGE_1);
            assert_eq!(stages[0].during_ms, 10_000);
            assert_eq!(stages[0].interval_ms, 1000);
            assert_eq!(stages[0].rate, 1);
        },
        _ => unreachable!(),
    }
}

#[test]
fn given_builder_without_steps_when_adding_stage_then_nothing_changes() {
    let test_case = TestCaseBuilder::<Action, InnerContext>::new(
        TEST_NAME,
        TEST_SUITE,
        InnerContext::default(),
    )
        .with_stage(TEST_STAGE_1, 10_000, 1000, 1)
        .build();

    assert!(test_case.test_steps.is_empty());
}
