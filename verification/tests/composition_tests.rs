use loady::composition::{TestCase, TestStep, TestStepStage};

const TEST_NAME: &str = "test name";
const TEST_SUITE: &str = "test_suite";

#[derive(Default, Clone, Debug)]
struct EmptyData;

type Action = u8;

#[test]
fn composition_given_test_case_with_steps_when_getting_ordered_steps_then_ensure_proper_ordering() {
    const FIRST_LOAD_STEP: &str = "first";
    const SECOND_LOAD_STEP: &str = "second";
    const THIRD_LOAD_STEP: &str = "third";

    let mut test_case =
        TestCase::<Action, EmptyData>::new(TEST_NAME, TEST_SUITE, EmptyData::default());
    let init_step = TestStep::<Action>::as_init(0);
    let clean_up_step = TestStep::<Action>::as_clean_up(0);
    let warm_up_step = TestStep::<Action>::as_warm_up(0, Vec::default());
    let first_load_step = TestStep::<Action>::as_load(FIRST_LOAD_STEP, 0, Vec::default());
    let second_load_step = TestStep::<Action>::as_load(SECOND_LOAD_STEP, 0, Vec::default());
    let third_load_step = TestStep::<Action>::as_load(THIRD_LOAD_STEP, 0, Vec::default());

    test_case.with_step(clean_up_step);
    test_case.with_step(warm_up_step);
    test_case.with_step(init_step);
    test_case.with_step(first_load_step);
    test_case.with_step(second_load_step);
    test_case.with_step(third_load_step);

    let actual = &test_case.test_steps;

    assert_eq!(test_case.test_steps.len(), 6);
    assert_eq!(actual.len(), test_case.test_steps.len());

    for i in 0..actual.len() {
        let step = actual.get(i).unwrap();

        let expected_index = match step {
            TestStep::Init { .. } => 0,
            TestStep::WarmUp { .. } => 1,
            TestStep::Load { name, .. } => match name.as_str() {
                FIRST_LOAD_STEP => 2,
                SECOND_LOAD_STEP => 3,
                THIRD_LOAD_STEP => 4,
                _ => usize::MAX,
            },
            TestStep::CleanUp { .. } => 5,
        };

        assert_eq!(i, expected_index);
    }
}

#[test]
fn mod_given_test_case_with_steps_when_getting_ordered_steps_then_ensure_proper_ordering() {
    const FIRST_LOAD_STEP: &str = "first";
    const SECOND_LOAD_STEP: &str = "second";
    const THIRD_LOAD_STEP: &str = "third";

    let mut test_case =
        TestCase::<Action, EmptyData>::new(TEST_NAME, TEST_SUITE, EmptyData::default());
    test_case.with_step(TestStep::<Action>::as_clean_up(0));
    test_case.with_step(TestStep::<Action>::as_warm_up(0, Vec::default()));
    test_case.with_step(TestStep::<Action>::as_init(0));
    test_case.with_step(TestStep::<Action>::as_load(FIRST_LOAD_STEP, 0, Vec::default()));
    test_case.with_step(TestStep::<Action>::as_load(SECOND_LOAD_STEP, 0, Vec::default()));
    test_case.with_step(TestStep::<Action>::as_load(THIRD_LOAD_STEP, 0, Vec::default()));

    let actual: Vec<(usize, &TestStep<Action>)> =
        test_case.test_steps.iter().enumerate().collect();

    assert_eq!(test_case.test_steps.len(), 6);
    assert_eq!(actual.len(), test_case.test_steps.len());

    for i in 0..actual.len() {
        let (index, step) = actual.get(i).unwrap();

        let expected_index = match step {
            TestStep::Init { .. } => 0,
            TestStep::WarmUp { .. } => 1,
            TestStep::Load { name, .. } => match name.as_str() {
                FIRST_LOAD_STEP => 2,
                SECOND_LOAD_STEP => 3,
                THIRD_LOAD_STEP => 4,
                _ => usize::MAX,
            },
            TestStep::CleanUp { .. } => 5,
        };

        assert_eq!(*index, expected_index);
    }
}

#[test]
fn when_creating_new_step_as_init_then_returns_expected_type() {
    let step = TestStep::<Action>::as_init(0);
    assert!(matches!(step, TestStep::Init { .. }));
}

#[test]
fn when_creating_new_step_as_warm_up_then_returns_expected_type() {
    let step = TestStep::<Action>::as_warm_up(0, Vec::default());
    assert!(matches!(step, TestStep::WarmUp { .. }));
}

#[test]
fn when_creating_new_step_as_load_then_returns_expected_type() {
    let step = TestStep::<Action>::as_load("step", 0, Vec::default());
    assert!(matches!(step, TestStep::Load { .. }));
}

#[test]
fn when_creating_new_step_as_clean_up_then_returns_expected_type() {
    let step = TestStep::<Action>::as_clean_up(0);
    assert!(matches!(step, TestStep::CleanUp { .. }));
}

#[test]
fn test_case_tests_given_test_info_when_creating_test_case_then_gets_new_instance() {
    let data = EmptyData::default();
    let test_case = TestCase::<Action, EmptyData>::new(TEST_NAME, TEST_SUITE, data);

    assert_eq!(test_case.test_name, TEST_NAME);
    assert_eq!(test_case.test_suite, TEST_SUITE);
}

#[test]
fn given_test_case_without_steps_when_checking_load_steps_then_none_found() {
    let test_case =
        TestCase::<Action, EmptyData>::new(TEST_NAME, TEST_SUITE, EmptyData::default());

    assert!(!test_case.has_load_steps());
}

#[test]
fn given_load_step_with_empty_stages_when_checking_load_steps_then_none_found() {
    let mut test_case =
        TestCase::<Action, EmptyData>::new(TEST_NAME, TEST_SUITE, EmptyData::default());
    test_case.with_step(TestStep::<Action>::as_load("step", 0, Vec::default()));

    assert!(!test_case.has_load_steps());
}

#[test]
fn given_load_step_with_stages_when_checking_load_steps_then_found() {
    let mut test_case =
        TestCase::<Action, EmptyData>::new(TEST_NAME, TEST_SUITE, EmptyData::default());
    let stages = vec![TestStepStage::new("first wave", 2000, 1000, 2)];
    test_case.with_step(TestStep::<Action>::as_load("step", 0, stages));

    assert!(test_case.has_load_steps());
    assert!(!test_case.has_init_step());
    assert!(!test_case.has_warm_up_step());
    assert!(!test_case.has_clean_up_step());
}

#[test]
fn given_steps_when_getting_names_and_orders_then_canonical_values_come_back() {
    let init = TestStep::<Action>::as_init(0);
    let warm_up = TestStep::<Action>::as_warm_up(0, Vec::default());
    let load = TestStep::<Action>::as_load("spike", 0, Vec::default());
    let clean_up = TestStep::<Action>::as_clean_up(0);

    assert_eq!(init.get_order(), 0);
    assert_eq!(warm_up.get_order(), 1);
    assert_eq!(load.get_order(), 2);
    assert_eq!(clean_up.get_order(), 3);
    assert_eq!(init.get_name(), "Init");
    assert_eq!(warm_up.get_name(), "Warm Up");
    assert_eq!(load.get_name(), "spike");
    assert_eq!(clean_up.get_name(), "Clean Up");
}
