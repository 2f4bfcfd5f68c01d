//! The canonical, format-agnostic test model: a suite of test outcomes, as
//! produced by an input parser and consumed by the report builder.
//!
//! Times are carried as the decimal seconds written in the source document
//! (an opaque digit string); the report builder derives whole milliseconds
//! from them.

use vstd::prelude::*;

verus! {

/// Outcome of one test. Exactly one variant holds; the payload is the
/// source's message, the empty string where the source gave none.
#[derive(Debug, PartialEq)]
pub enum TestStatus {
    Passed,
    Skipped(String),
    Failed(String),
    Error(String),
}

impl Clone for TestStatus {
    /// A clone carries the same variant and message.
    fn clone(&self) -> (r: TestStatus)
        ensures
            r@ == self@,
    {
        match self {
            TestStatus::Passed => TestStatus::Passed,
            TestStatus::Skipped(m) => TestStatus::Skipped(m.clone()),
            TestStatus::Failed(m) => TestStatus::Failed(m.clone()),
            TestStatus::Error(m) => TestStatus::Error(m.clone()),
        }
    }
}

/// Mathematical model of a `TestStatus`: the same variants over character
/// sequences.
pub enum StatusModel {
    Passed,
    Skipped(Seq<char>),
    Failed(Seq<char>),
    Error(Seq<char>),
}

impl View for TestStatus {
    type V = StatusModel;

    open spec fn view(&self) -> StatusModel {
        match self {
            TestStatus::Passed => StatusModel::Passed,
            TestStatus::Skipped(m) => StatusModel::Skipped(m@),
            TestStatus::Failed(m) => StatusModel::Failed(m@),
            TestStatus::Error(m) => StatusModel::Error(m@),
        }
    }
}

/// One test's outcome: its name, its elapsed time in decimal seconds as
/// written in the source document, and its status.
#[derive(Debug, Clone)]
pub struct Test {
    pub name: String,
    pub time: String,
    pub status: TestStatus,
}

/// Mathematical model of a `Test`.
pub struct TestModel {
    pub name: Seq<char>,
    pub time: Seq<char>,
    pub status: StatusModel,
}

impl View for Test {
    type V = TestModel;

    open spec fn view(&self) -> TestModel {
        TestModel { name: self.name@, time: self.time@, status: self.status@ }
    }
}

impl DeepView for Test {
    type V = TestModel;

    open spec fn deep_view(&self) -> TestModel {
        self.view()
    }
}

/// One test run's named group of test outcomes.
#[derive(Debug, Clone)]
pub struct TestSuite {
    pub name: String,
    pub duration: String,
    pub timestamp: String,
    pub tests: Vec<Test>,
}

/// Mathematical model of a `TestSuite`.
pub struct TestSuiteModel {
    pub name: Seq<char>,
    pub duration: Seq<char>,
    pub timestamp: Seq<char>,
    pub tests: Seq<TestModel>,
}

impl View for TestSuite {
    type V = TestSuiteModel;

    open spec fn view(&self) -> TestSuiteModel {
        TestSuiteModel {
            name: self.name@,
            duration: self.duration@,
            timestamp: self.timestamp@,
            tests: self.tests.deep_view(),
        }
    }
}

impl DeepView for TestSuite {
    type V = TestSuiteModel;

    open spec fn deep_view(&self) -> TestSuiteModel {
        self.view()
    }
}

} // verus!
