use loady::context::TestCaseContext;
use loady::exporting::{ExportFile, Exporter, FileType, Localization};
use loady::stats::{Metrics, StepStatus, TestStatus};
use loady::textfmt::{decimal_i32, json_escape, replace_session_id};

fn seeded_context() -> TestCaseContext {
    let mut ctx = TestCaseContext::default();
    ctx.add_hit(Ok(()), 100);
    ctx.add_hit(Ok(()), 130);
    ctx.add_hit(Ok(()), 80);
    ctx.add_hit(Err(401), 200);
    ctx.add_hit(Err(402), 300);
    ctx.add_hit(Ok(()), 150);
    ctx.set_current_duration(7000);
    ctx.set_current_load_duration(5000);
    ctx.set_current_step("step one");
    ctx
}

#[test]
fn given_filetype_when_getting_extension_then_returns_expected_value() {
    assert_eq!(FileType::Txt.get_extension(), "txt");
    assert_eq!(FileType::Csv.get_extension(), "csv");
}

#[test]
fn given_exporter_when_adding_default_export_types_then_loads_defaults() {
    let assert_file = |file: &ExportFile, expected_file_type: FileType| {
        assert_eq!(file.file_type, expected_file_type);
        assert!(!file.file_name.is_empty());
        assert!(!file.directory.is_empty());
    };

    let mut exporter = Exporter::default();
    exporter.with_default_output_files();

    assert_eq!(exporter.export_files.len(), 3);
    assert_file(exporter.export_files.get(0).unwrap(), FileType::Txt);
    assert_file(exporter.export_files.get(1).unwrap(), FileType::Csv);
    assert_file(exporter.export_files.get(2).unwrap(), FileType::Json);
}

#[test]
fn given_locale_when_formatting_numbers_then_digits_are_grouped() {
    let locale = Localization::default();
    assert_eq!(locale.format_number(0), "0");
    assert_eq!(locale.format_number(999), "999");
    assert_eq!(locale.format_number(1000), "1,000");
    assert_eq!(locale.format_number(1234567), "1,234,567");
    assert_eq!(locale.format_centi(120), "1.20");
    assert_eq!(locale.format_centi(7), "0.07");
}

#[test]
fn given_signed_codes_when_rendered_then_minus_sign_is_kept() {
    assert_eq!(decimal_i32(-42), "-42");
    assert_eq!(decimal_i32(0), "0");
    assert_eq!(decimal_i32(401), "401");
}

#[test]
fn given_metrics_when_rendering_csv_then_every_field_appears_in_order() {
    let ctx = seeded_context();
    let metrics = Metrics::new(&ctx);
    let locale = Localization::default();

    let actual = metrics.as_csv(&locale);

    assert_eq!(
        actual,
        "7,000;5,000;80;160;300;73;250;275;295;6;4;2;1.20;401;1;402;1"
    );
}

#[test]
fn given_metrics_when_rendering_txt_then_labels_and_values_line_up() {
    let ctx = seeded_context();
    let metrics = Metrics::new(&ctx);
    let locale = Localization::default();

    let actual = metrics.as_txt(&locale);

    assert!(actual.contains("Test Duration       : 7,000 ms\r\n"));
    assert!(actual.contains("Load Duration       : 5,000 ms\r\n"));
    assert!(actual.contains("Min Time            : 80 ms\r\n"));
    assert!(actual.contains("Mean Time           : 160 ms\r\n"));
    assert!(actual.contains("Max Time            : 300 ms\r\n"));
    assert!(actual.contains("Std Dev             : 73 ms\r\n"));
    assert!(actual.contains("All Hits            : 6\r\n"));
    assert!(actual.contains("Successful hits     : 4\r\n"));
    assert!(actual.contains("Unsuccessul hits    : 2\r\n"));
    assert!(actual.contains("Requests/sec        : 1.20"));
    assert!(actual.contains("Errors count        :\r\n"));
    assert!(actual.contains("401                 : 1\r\n"));
}

#[test]
fn given_statuses_when_rendering_content_then_test_block_precedes_each_step() {
    let ctx = seeded_context();
    let test_status = TestStatus::new(String::from("simple sample"), &ctx);
    let steps = vec![StepStatus::new(String::from("simple sample"), &ctx)];

    let txt = FileType::Txt.get_content(&test_status, &steps);
    assert!(txt.starts_with("Session ID          : "));
    assert!(txt.contains("Test Case           : simple sample\r\n"));
    assert!(txt.contains("----------------------------------------------------------------------"));
    assert!(txt.contains("Test Step           : step one\r\n"));

    let csv = FileType::Csv.get_content(&test_status, &steps);
    assert!(csv.starts_with(&test_status.session_id));
    assert!(csv.ends_with("\r\n"));
    assert!(csv.contains(";simple sample;"));
    assert!(csv.contains("step one;"));

    let empty_csv = FileType::Csv.get_content(&test_status, &Vec::new());
    assert_eq!(empty_csv, "");
}

#[test]
fn given_status_when_rendering_json_then_fields_read_back_unchanged() {
    let ctx = seeded_context();
    let test_status = TestStatus::new(String::from("simple sample"), &ctx);
    let steps = vec![StepStatus::new(String::from("simple sample"), &ctx)];

    let json = FileType::Json.get_content(&test_status, &steps);
    let value: serde_json::Value = serde_json::from_str(&json).unwrap();

    let status = &value["test_status"];
    assert_eq!(status["test_name"].as_str().unwrap(), "simple sample");
    assert_eq!(
        status["session_id"].as_str().unwrap(),
        test_status.session_id.as_str()
    );
    let metrics = &status["metrics"];
    assert_eq!(metrics["test_duration"].as_u64().unwrap(), 7000);
    assert_eq!(metrics["load_duration"].as_u64().unwrap(), 5000);
    assert_eq!(metrics["min_time"].as_u64().unwrap(), 80);
    assert_eq!(metrics["mean_time"].as_u64().unwrap(), 160);
    assert_eq!(metrics["max_time"].as_u64().unwrap(), 300);
    assert_eq!(metrics["std_dev"].as_u64().unwrap(), 73);
    assert_eq!(metrics["p90_time"].as_u64().unwrap(), 250);
    assert_eq!(metrics["p95_time"].as_u64().unwrap(), 275);
    assert_eq!(metrics["p99_time"].as_u64().unwrap(), 295);
    assert_eq!(metrics["positive_hits"].as_u64().unwrap(), 4);
    assert_eq!(metrics["negative_hits"].as_u64().unwrap(), 2);
    assert_eq!(metrics["all_hits"].as_u64().unwrap(), 6);
    assert!((metrics["request_per_sec"].as_f64().unwrap() - 1.2).abs() < 1e-9);
    assert_eq!(metrics["errors"]["401"].as_u64().unwrap(), 1);
    assert_eq!(metrics["errors"]["402"].as_u64().unwrap(), 1);

    let step = &value["step_status"][0];
    assert_eq!(step["step_name"].as_str().unwrap(), "step one");
    assert_eq!(step["metrics"]["all_hits"].as_u64().unwrap(), 6);
}

#[test]
fn given_awkward_names_when_rendering_json_then_escaping_round_trips() {
    let mut ctx = seeded_context();
    ctx.test_name = String::from("a \"quoted\"\nname\\with\tescapes");
    let test_status = TestStatus::new(ctx.test_name.clone(), &ctx);

    let json = FileType::Json.get_content(&test_status, &Vec::new());
    let value: serde_json::Value = serde_json::from_str(&json).unwrap();

    assert_eq!(
        value["test_status"]["test_name"].as_str().unwrap(),
        "a \"quoted\"\nname\\with\tescapes"
    );
    assert_eq!(json_escape("plain"), "plain");
    assert_eq!(json_escape("a\"b"), "a\\\"b");
}

#[test]
fn given_file_names_when_formatting_then_extension_is_appended_once() {
    let plain = ExportFile::new(
        FileType::Txt,
        String::from("output"),
        String::from("report"),
    );
    assert_eq!(plain.format_file_name(), "report.txt");

    let already = ExportFile::new(
        FileType::Txt,
        String::from("output"),
        String::from("report.txt"),
    );
    assert_eq!(already.format_file_name(), "report.txt");

    let json = ExportFile::new(
        FileType::Json,
        String::from("output"),
        String::from("{session-id}"),
    );
    assert_eq!(json.format_file_name(), "{session-id}.json");
}

#[test]
fn given_pattern_when_substituting_session_id_then_every_token_is_replaced() {
    assert_eq!(replace_session_id("{session-id}.txt", "abc"), "abc.txt");
    assert_eq!(
        replace_session_id("run-{session-id}-{session-id}", "x1"),
        "run-x1-x1"
    );
    assert_eq!(replace_session_id("plain", "abc"), "plain");
}

#[test]
fn given_exporter_when_rendering_then_one_file_per_declaration_comes_back() {
    let ctx = seeded_context();
    let test_status = TestStatus::new(String::from("simple sample"), &ctx);
    let steps = vec![StepStatus::new(String::from("simple sample"), &ctx)];

    let mut exporter = Exporter::default();
    exporter.with_default_output_files();
    let rendered = exporter.render_output_files(&test_status, &steps);

    assert_eq!(rendered.len(), 3);
    let sid = TestCaseContext::default().get_session_id();
    assert_eq!(rendered[0].0, "output");
    assert_eq!(rendered[0].1, format!("{}.txt", sid));
    assert_eq!(rendered[1].1, format!("{}.csv", sid));
    assert_eq!(rendered[2].1, format!("{}.json", sid));
    assert!(rendered[0].2.starts_with("Session ID"));
    assert!(rendered[2].2.starts_with("{\"test_status\":"));
}
