use parser::junit::{
    JunitError, JunitFailure, JunitParser, JunitRoot, JunitSkipped, JunitTestCase, JunitTestSuite,
    JunitTestSuites,
};
use parser::test_models::TestStatus;

fn test_case(name: &str, classname: &str, time: &str) -> JunitTestCase {
    JunitTestCase {
        name: name.to_string(),
        classname: classname.to_string(),
        time: time.to_string(),
        failure: None,
        error: None,
        skipped: None,
    }
}

fn empty_suite() -> JunitTestSuite {
    JunitTestSuite {
        name: String::new(),
        tests: 0,
        failures: 0,
        errors: 0,
        skipped: 0,
        time: String::new(),
        timestamp: String::new(),
        test_cases: Vec::new(),
    }
}

fn suite(name: &str, time: &str, timestamp: &str, cases: Vec<JunitTestCase>) -> JunitTestSuite {
    JunitTestSuite {
        name: name.to_string(),
        tests: cases.len() as u64,
        failures: 0,
        errors: 0,
        skipped: 0,
        time: time.to_string(),
        timestamp: timestamp.to_string(),
        test_cases: cases,
    }
}

#[test]
fn empty_test_suite_without_attributes() {
    let result = JunitParser::parse(JunitRoot::TestSuite(empty_suite()));

    assert_eq!(result.len(), 1);
    let suite = &result[0];
    assert_eq!(suite.name, "");
    assert_eq!(suite.duration, "");
    assert_eq!(suite.timestamp, "");
    assert_eq!(suite.tests.len(), 0);
}

#[test]
fn empty_test_suites_without_attributes() {
    let result = JunitParser::parse(JunitRoot::TestSuites(JunitTestSuites {
        test_suites: Vec::new(),
    }));

    assert_eq!(result.len(), 0);
}

#[test]
fn test_suite_with_all_passed_tests() {
    let root = JunitRoot::TestSuite(suite(
        "MyTestSuite",
        "0.123",
        "2023-10-27T10:00:00Z",
        vec![
            test_case("test_success_1", "com.example.MyClass", "0.05"),
            test_case("test_success_2", "com.example.MyClass", "0.07"),
        ],
    ));

    let result = JunitParser::parse(root);

    assert_eq!(result.len(), 1);
    let suite = &result[0];
    assert_eq!(suite.name, "MyTestSuite");
    assert_eq!(suite.duration, "0.123");
    assert_eq!(suite.timestamp, "2023-10-27T10:00:00Z");
    assert_eq!(suite.tests.len(), 2);

    assert_eq!(suite.tests[0].name, "test_success_1");
    assert_eq!(suite.tests[0].time, "0.05");
    assert_eq!(suite.tests[0].status, TestStatus::Passed);

    assert_eq!(suite.tests[1].name, "test_success_2");
    assert_eq!(suite.tests[1].time, "0.07");
    assert_eq!(suite.tests[1].status, TestStatus::Passed);
}

#[test]
fn test_suites_with_multiple_suites() {
    let root = JunitRoot::TestSuites(JunitTestSuites {
        test_suites: vec![
            suite(
                "MyTestSuite1",
                "0.123",
                "2023-10-27T10:00:00Z",
                vec![test_case("test_success_1", "com.example.MyClass", "0.05")],
            ),
            suite(
                "MyTestSuite2",
                "0.123",
                "2023-10-27T10:00:00Z",
                vec![test_case("test_success_2", "com.example.MyClass", "0.07")],
            ),
        ],
    });

    let result = JunitParser::parse(root);

    assert_eq!(result.len(), 2);
    let suite1 = &result[0];
    assert_eq!(suite1.name, "MyTestSuite1");
    assert_eq!(suite1.tests.len(), 1);
    let suite2 = &result[1];
    assert_eq!(suite2.name, "MyTestSuite2");
    assert_eq!(suite2.tests.len(), 1);
}

#[test]
fn test_suite_with_skipped_tests() {
    let mut case = test_case("test", "com.example.MyClass", "0.05");
    case.skipped = Some(JunitSkipped { message: "Skipped test".to_string() });
    let root = JunitRoot::TestSuite(suite(
        "MyTestSuite",
        "0.123",
        "2023-10-27T10:00:00Z",
        vec![case],
    ));

    let result = JunitParser::parse(root);

    assert_eq!(result.len(), 1);
    let suite = &result[0];
    assert_eq!(suite.name, "MyTestSuite");
    assert_eq!(suite.duration, "0.123");
    assert_eq!(suite.timestamp, "2023-10-27T10:00:00Z");
    assert_eq!(suite.tests.len(), 1);

    assert_eq!(suite.tests[0].name, "test");
    assert_eq!(suite.tests[0].time, "0.05");
    assert_eq!(
        suite.tests[0].status,
        TestStatus::Skipped("Skipped test".to_string())
    );
}

#[test]
fn test_suite_with_skipped_tests_without_message() {
    let mut case = test_case("test", "com.example.MyClass", "0.05");
    case.skipped = Some(JunitSkipped { message: String::new() });
    let root = JunitRoot::TestSuite(suite(
        "MyTestSuite",
        "0.123",
        "2023-10-27T10:00:00Z",
        vec![case],
    ));

    let result = JunitParser::parse(root);

    assert_eq!(result.len(), 1);
    let suite = &result[0];
    assert_eq!(suite.name, "MyTestSuite");
    assert_eq!(suite.duration, "0.123");
    assert_eq!(suite.timestamp, "2023-10-27T10:00:00Z");
    assert_eq!(suite.tests.len(), 1);

    assert_eq!(suite.tests[0].name, "test");
    assert_eq!(suite.tests[0].time, "0.05");
    assert_eq!(suite.tests[0].status, TestStatus::Skipped("".to_string()));
}

#[test]
fn test_suite_with_failed_tests() {
    let mut case = test_case("test", "com.example.MyClass", "0.05");
    case.failure = Some(JunitFailure { message: "Failed test".to_string() });
    let root = JunitRoot::TestSuite(suite(
        "MyTestSuite",
        "0.123",
        "2023-10-27T10:00:00Z",
        vec![case],
    ));

    let result = JunitParser::parse(root);

    assert_eq!(result.len(), 1);
    let suite = &result[0];
    assert_eq!(suite.name, "MyTestSuite");
    assert_eq!(suite.duration, "0.123");
    assert_eq!(suite.timestamp, "2023-10-27T10:00:00Z");
    assert_eq!(suite.tests.len(), 1);

    assert_eq!(suite.tests[0].name, "test");
    assert_eq!(suite.tests[0].time, "0.05");
    assert_eq!(
        suite.tests[0].status,
        TestStatus::Failed("Failed test".to_string())
    );
}

#[test]
fn test_suite_with_error_tests() {
    let mut case = test_case("test", "com.example.MyClass", "0.05");
    case.error = Some(JunitError { message: "Error test".to_string() });
    let root = JunitRoot::TestSuite(suite(
        "MyTestSuite",
        "0.123",
        "2023-10-27T10:00:00Z",
        vec![case],
    ));

    let result = JunitParser::parse(root);

    assert_eq!(result.len(), 1);
    let suite = &result[0];
    assert_eq!(suite.name, "MyTestSuite");
    assert_eq!(suite.duration, "0.123");
    assert_eq!(suite.timestamp, "2023-10-27T10:00:00Z");
    assert_eq!(suite.tests.len(), 1);

    assert_eq!(suite.tests[0].name, "test");
    assert_eq!(suite.tests[0].time, "0.05");
    assert_eq!(
        suite.tests[0].status,
        TestStatus::Error("Error test".to_string())
    );
}

#[test]
fn test_suite_with_all_fields_and_all_types_of_tests() {
    let mut failed = test_case("test_failure", "com.example.MyClass", "1.0");
    failed.failure = Some(JunitFailure { message: "Failure message".to_string() });
    let mut errored = test_case("test_error", "com.example.MyClass", "0.05");
    errored.error = Some(JunitError { message: "Error message".to_string() });
    let mut skipped = test_case("test_skipped", "com.example.MyClass", "0.02");
    skipped.skipped = Some(JunitSkipped { message: "Skipped message".to_string() });
    let root = JunitRoot::TestSuite(suite(
        "MyTestSuite",
        "1.234",
        "2024-10-27T10:00:00Z",
        vec![
            test_case("test_success", "com.example.MyClass", "0.17"),
            failed,
            errored,
            skipped,
        ],
    ));

    let result = JunitParser::parse(root);

    assert_eq!(result.len(), 1);
    let suite = &result[0];
    assert_eq!(suite.name, "MyTestSuite");
    assert_eq!(suite.duration, "1.234");
    assert_eq!(suite.timestamp, "2024-10-27T10:00:00Z");
    assert_eq!(suite.tests.len(), 4);

    assert_eq!(suite.tests[0].name, "test_success");
    assert_eq!(suite.tests[0].time, "0.17");
    assert_eq!(suite.tests[0].status, TestStatus::Passed);

    assert_eq!(suite.tests[1].name, "test_failure");
    assert_eq!(suite.tests[1].time, "1.0");
    assert_eq!(
        suite.tests[1].status,
        TestStatus::Failed("Failure message".to_string())
    );

    assert_eq!(suite.tests[2].name, "test_error");
    assert_eq!(suite.tests[2].time, "0.05");
    assert_eq!(
        suite.tests[2].status,
        TestStatus::Error("Error message".to_string())
    );

    assert_eq!(suite.tests[3].name, "test_skipped");
    assert_eq!(suite.tests[3].time, "0.02");
    assert_eq!(
        suite.tests[3].status,
        TestStatus::Skipped("Skipped message".to_string())
    );
}
