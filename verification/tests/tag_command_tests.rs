use parser::tag_command::tag_command;
use parser::test_report::{TestReport, TestReportStatus, TestReportTest};

fn create_test_report(tests: Vec<TestReportTest>) -> TestReport {
    TestReport { version: 1, date: "2024-01-01T00:00:00Z".to_string(), tests }
}

fn create_test_without_tags(name: &str, path: &str) -> TestReportTest {
    TestReportTest {
        last_execution_type: TestReportStatus::Success,
        name: name.to_string(),
        path: path.to_string(),
        duration_ms: 100,
        message: None,
        tags: None,
    }
}

fn create_test_with_tags(name: &str, path: &str, tags: Vec<&str>) -> TestReportTest {
    TestReportTest {
        last_execution_type: TestReportStatus::Failure,
        name: name.to_string(),
        path: path.to_string(),
        duration_ms: 200,
        message: Some("failed".to_string()),
        tags: Some(tags.into_iter().map(|s| s.to_string()).collect()),
    }
}

fn setup_test(report: &TestReport, tags: Vec<String>) -> TestReport {
    let mut result = TestReport {
        version: report.version,
        date: report.date.clone(),
        tests: report.tests.clone(),
    };
    tag_command(&mut result, tags);
    result
}

#[test]
fn add_tags_to_test_without_tags() {
    let report = create_test_report(vec![create_test_without_tags("test1", "path/to/test1")]);
    let result_report = setup_test(&report, vec!["test1:add:tag1,tag2".to_string()]);

    assert_eq!(
        result_report.tests[0].tags,
        Some(vec!["tag1".to_string(), "tag2".to_string()])
    );
}

#[test]
fn add_tags_to_test_with_existing_tags() {
    let report = create_test_report(vec![create_test_with_tags(
        "test2",
        "path/to/test2",
        vec!["existing_tag", "another_tag"],
    )]);
    let result_report = setup_test(&report, vec!["test2:add:tag3".to_string()]);

    assert_eq!(
        result_report.tests[0].tags,
        Some(vec![
            "existing_tag".to_string(),
            "another_tag".to_string(),
            "tag3".to_string()
        ])
    );
}

#[test]
fn add_existing_tag_does_not_duplicate() {
    let report = create_test_report(vec![create_test_with_tags(
        "test2",
        "path/to/test2",
        vec!["existing_tag", "another_tag"],
    )]);
    let result_report = setup_test(&report, vec!["test2:add:existing_tag".to_string()]);

    assert_eq!(
        result_report.tests[0].tags,
        Some(vec!["existing_tag".to_string(), "another_tag".to_string()])
    );
}

#[test]
fn remove_existing_tag() {
    let report = create_test_report(vec![create_test_with_tags(
        "test2",
        "path/to/test2",
        vec!["existing_tag", "another_tag"],
    )]);
    let result_report = setup_test(&report, vec!["test2:remove:existing_tag".to_string()]);

    assert_eq!(
        result_report.tests[0].tags,
        Some(vec!["another_tag".to_string()])
    );
}

#[test]
fn remove_non_existing_tag() {
    let report = create_test_report(vec![create_test_with_tags(
        "test2",
        "path/to/test2",
        vec!["existing_tag", "another_tag"],
    )]);
    let result_report = setup_test(&report, vec!["test2:remove:non_existing_tag".to_string()]);

    assert_eq!(
        result_report.tests[0].tags,
        Some(vec!["existing_tag".to_string(), "another_tag".to_string()])
    );
}

#[test]
fn update_tags_replaces_existing_tags() {
    let report = create_test_report(vec![create_test_with_tags(
        "test2",
        "path/to/test2",
        vec!["existing_tag", "another_tag"],
    )]);
    let result_report = setup_test(&report, vec!["test2:update:new_tag1,new_tag2".to_string()]);

    assert_eq!(
        result_report.tests[0].tags,
        Some(vec!["new_tag1".to_string(), "new_tag2".to_string()])
    );
}

#[test]
fn multiple_expressions_are_applied_correctly() {
    let report = create_test_report(vec![
        create_test_without_tags("test1", "path/to/test1"),
        create_test_with_tags(
            "test2",
            "path/to/test2",
            vec!["existing_tag", "another_tag"],
        ),
    ]);
    let result_report = setup_test(
        &report,
        vec![
            "test1:add:tag1".to_string(),
            "test2:remove:existing_tag".to_string(),
            "test2:add:tag2".to_string(),
        ],
    );

    assert_eq!(result_report.tests[0].tags, Some(vec!["tag1".to_string()]));
    assert_eq!(
        result_report.tests[1].tags,
        Some(vec!["another_tag".to_string(), "tag2".to_string()])
    );
}

#[test]
fn invalid_expression_is_ignored_wrong_field_count() {
    invalid_expression_is_ignored("invalid_expression");
}

#[test]
fn invalid_expression_is_ignored_unknown_operation() {
    invalid_expression_is_ignored("test1:invalid_op:tag1");
}

#[test]
fn invalid_expression_is_ignored_empty_add_tag_list() {
    invalid_expression_is_ignored("test1:add:");
}

#[test]
fn invalid_expression_is_ignored_empty_pattern() {
    invalid_expression_is_ignored(":add:tag1");
}

#[test]
fn invalid_expression_is_ignored_all_fields_empty() {
    invalid_expression_is_ignored("::");
}

fn invalid_expression_is_ignored(expression: &str) {
    let report = create_test_report(vec![
        create_test_without_tags("test1", "path/to/test1"),
        create_test_with_tags(
            "test2",
            "path/to/test2",
            vec!["existing_tag", "another_tag"],
        ),
    ]);
    let result_report = setup_test(&report, vec![expression.to_string()]);

    assert_eq!(result_report.tests[0].tags, None);
    assert_eq!(
        result_report.tests[1].tags,
        Some(vec!["existing_tag".to_string(), "another_tag".to_string()])
    );
}

#[test]
fn regex_expression_is_applied_correctly() {
    let report = create_test_report(vec![
        create_test_without_tags("test1", "path/to/test1"),
        create_test_with_tags("test2", "path/to/another/test2", vec!["existing_tag"]),
    ]);
    let result_report = setup_test(&report, vec!["path/to/.*:add:smoke".to_string()]);

    assert_eq!(result_report.tests[0].tags, Some(vec!["smoke".to_string()]));
    assert_eq!(
        result_report.tests[1].tags,
        Some(vec!["existing_tag".to_string(), "smoke".to_string()])
    );
}

#[test]
fn regex_match_all_expression_is_applied_correctly() {
    let report = create_test_report(vec![
        create_test_without_tags("test1", "path/to/test1"),
        create_test_with_tags("test2", "path/to/another/test2", vec!["existing_tag"]),
    ]);
    let result_report = setup_test(&report, vec![".*:add:smoke".to_string()]);

    assert_eq!(result_report.tests[0].tags, Some(vec!["smoke".to_string()]));
    assert_eq!(
        result_report.tests[1].tags,
        Some(vec!["existing_tag".to_string(), "smoke".to_string()])
    );
}
