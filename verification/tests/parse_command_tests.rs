use parser::junit::{JunitParser, JunitRoot, JunitTestCase, JunitTestSuite};
use parser::parse_command::parse_command;
use parser::{report_type_from_str, ReportType};

fn suite_with_one_test() -> JunitTestSuite {
    JunitTestSuite {
        name: "suite1".to_string(),
        tests: 1,
        failures: 0,
        errors: 0,
        skipped: 0,
        time: "1.0".to_string(),
        timestamp: "2024-01-01T00:00:00Z".to_string(),
        test_cases: vec![JunitTestCase {
            name: "test1".to_string(),
            classname: "class1".to_string(),
            time: "1.0".to_string(),
            failure: None,
            error: None,
            skipped: None,
        }],
    }
}

#[test]
fn panic_if_unsupported_report_type() {
    let report_type = "unsupported";

    let result = report_type_from_str(report_type);

    assert!(result.is_none());
}

#[test]
fn junit_report_type_is_recognized() {
    assert_eq!(report_type_from_str("junit"), Some(ReportType::Junit));
}

#[test]
fn when_parsing_a_file_with_tags_it_should_add_the_tags_to_all_tests() {
    let suites = JunitParser::parse(JunitRoot::TestSuite(suite_with_one_test()));

    let result_report = parse_command(
        vec![suites],
        "2024-01-01T00:00:00Z".to_string(),
        vec!["tag1".to_string(), "tag2".to_string()],
    );

    assert_eq!(
        result_report.tests[0].tags,
        Some(vec!["tag1".to_string(), "tag2".to_string()])
    );
}

#[test]
fn when_parsing_a_file_without_tags_it_should_not_add_any_tags() {
    let suites = JunitParser::parse(JunitRoot::TestSuite(suite_with_one_test()));

    let result_report = parse_command(
        vec![suites],
        "2024-01-01T00:00:00Z".to_string(),
        vec![],
    );

    assert_eq!(result_report.tests[0].tags, None);
}
