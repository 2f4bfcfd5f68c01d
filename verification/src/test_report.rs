//! The persistent test-report document: a version, a generation date, and
//! one flattened entry per test, with derived status, duration and optional
//! message and tags.

use vstd::prelude::*;
use crate::test_models::{StatusModel, TestStatus};

verus! {

/// The whole report document.
#[derive(Debug, Clone)]
pub struct TestReport {
    pub version: u8,
    pub date: String,
    pub tests: Vec<TestReportTest>,
}

/// The closed status enumeration a report entry carries. Unlike
/// `TestStatus` it holds no message.
#[derive(Debug, Clone, Copy, PartialEq, Eq, Structural)]
pub enum TestReportStatus {
    Success,
    Skipped,
    Failure,
    Error,
}

/// One report entry: a test's last known outcome plus metadata.
///
/// `path` is the originating suite's name, not a filesystem location; it is
/// the field tag rules match against. `message` is absent exactly on
/// success. `tags` distinguishes "never assigned" (absent) from "assigned
/// but currently none" (present and empty).
#[derive(Debug, Clone)]
pub struct TestReportTest {
    pub last_execution_type: TestReportStatus,
    pub name: String,
    pub path: String,
    pub duration_ms: u64,
    pub message: Option<String>,
    pub tags: Option<Vec<String>>,
}

/// Mathematical model of a report entry.
pub struct EntryModel {
    pub last_execution_type: TestReportStatus,
    pub name: Seq<char>,
    pub path: Seq<char>,
    pub duration_ms: u64,
    pub message: Option<Seq<char>>,
    pub tags: Option<Seq<Seq<char>>>,
}

impl View for TestReportTest {
    type V = EntryModel;

    open spec fn view(&self) -> EntryModel {
        EntryModel {
            last_execution_type: self.last_execution_type,
            name: self.name@,
            path: self.path@,
            duration_ms: self.duration_ms,
            message: match self.message {
                Option::None => Option::None,
                Option::Some(m) => Option::Some(m@),
            },
            tags: match self.tags {
                Option::None => Option::None,
                Option::Some(ts) => Option::Some(ts.deep_view()),
            },
        }
    }
}

impl DeepView for TestReportTest {
    type V = EntryModel;

    open spec fn deep_view(&self) -> EntryModel {
        self.view()
    }
}

/// Mathematical model of the whole report.
pub struct ReportModel {
    pub version: u8,
    pub date: Seq<char>,
    pub tests: Seq<EntryModel>,
}

impl View for TestReport {
    type V = ReportModel;

    open spec fn view(&self) -> ReportModel {
        ReportModel { version: self.version, date: self.date@, tests: self.tests.deep_view() }
    }
}

/// The status category a canonical status maps to: the variant alone, the
/// message dropped.
pub open spec fn spec_status_of(status: StatusModel) -> TestReportStatus {
    match status {
        StatusModel::Passed => TestReportStatus::Success,
        StatusModel::Skipped(_) => TestReportStatus::Skipped,
        StatusModel::Failed(_) => TestReportStatus::Failure,
        StatusModel::Error(_) => TestReportStatus::Error,
    }
}

/// The message a report entry carries for a canonical status: absent on a
/// pass, otherwise the variant's message (which may be empty).
pub open spec fn spec_message_of(status: StatusModel) -> Option<Seq<char>> {
    match status {
        StatusModel::Passed => Option::None,
        StatusModel::Skipped(m) => Option::Some(m),
        StatusModel::Failed(m) => Option::Some(m),
        StatusModel::Error(m) => Option::Some(m),
    }
}

impl TestReportStatus {
    /// Maps a canonical status onto the report's closed enumeration,
    /// dropping the message payload.
    pub fn from_test_status(status: TestStatus) -> (r: TestReportStatus)
        ensures
            r == spec_status_of(status@),
    {
        match status {
            TestStatus::Passed => TestReportStatus::Success,
            TestStatus::Skipped(_) => TestReportStatus::Skipped,
            TestStatus::Failed(_) => TestReportStatus::Failure,
            TestStatus::Error(_) => TestReportStatus::Error,
        }
    }
}

impl TestReportTest {
    /// The optional message for a report entry: nothing on a pass, the
    /// carried message otherwise.
    pub fn message_from_test_status(status: TestStatus) -> (r: Option<String>)
        ensures
            r is Some <==> spec_message_of(status@) is Some,
            r is Some ==> r->0@ == spec_message_of(status@)->0,
    {
        match status {
            TestStatus::Passed => Option::None,
            TestStatus::Skipped(message) => Option::Some(message),
            TestStatus::Failed(message) => Option::Some(message),
            TestStatus::Error(message) => Option::Some(message),
        }
    }
}

} // verus!
