//! The JUnit report format: the shapes a JUnit XML document decodes into,
//! and their normalization into the canonical test model.
//!
//! The document root may be a lone `testsuite` or a `testsuites` wrapper
//! holding zero or more suites; both normalize to a sequence of suites. Per
//! test case, the status derives from the optional child markers with the
//! priority failure > error > skipped > passed.

use vstd::prelude::*;
use crate::test_models::{StatusModel, Test, TestModel, TestStatus, TestSuite, TestSuiteModel};

verus! {

/// A `<failure>` marker's data: its optional message, empty if absent.
#[derive(Debug, Clone)]
pub struct JunitFailure {
    pub message: String,
}

/// An `<error>` marker's data: its optional message, empty if absent.
#[derive(Debug, Clone)]
pub struct JunitError {
    pub message: String,
}

/// A `<skipped>` marker's data: its optional message, empty if absent.
#[derive(Debug, Clone)]
pub struct JunitSkipped {
    pub message: String,
}

/// A `<testcase>` element: its attributes (absent ones already defaulted to
/// the empty string) and at most one of the three child markers.
#[derive(Debug, Clone)]
pub struct JunitTestCase {
    pub name: String,
    pub classname: String,
    pub time: String,
    pub failure: Option<JunitFailure>,
    pub error: Option<JunitError>,
    pub skipped: Option<JunitSkipped>,
}

/// Mathematical model of a `<testcase>`: each marker reduced to its
/// optional message.
pub struct JunitCaseModel {
    pub name: Seq<char>,
    pub classname: Seq<char>,
    pub time: Seq<char>,
    pub failure: Option<Seq<char>>,
    pub error: Option<Seq<char>>,
    pub skipped: Option<Seq<char>>,
}

impl View for JunitTestCase {
    type V = JunitCaseModel;

    open spec fn view(&self) -> JunitCaseModel {
        JunitCaseModel {
            name: self.name@,
            classname: self.classname@,
            time: self.time@,
            failure: match self.failure {
                Option::None => Option::None,
                Option::Some(f) => Option::Some(f.message@),
            },
            error: match self.error {
                Option::None => Option::None,
                Option::Some(e) => Option::Some(e.message@),
            },
            skipped: match self.skipped {
                Option::None => Option::None,
                Option::Some(s) => Option::Some(s.message@),
            },
        }
    }
}

impl DeepView for JunitTestCase {
    type V = JunitCaseModel;

    open spec fn deep_view(&self) -> JunitCaseModel {
        self.view()
    }
}

/// A `<testsuite>` element: its counters and attributes, and its test cases
/// in document order.
#[derive(Debug, Clone)]
pub struct JunitTestSuite {
    pub name: String,
    pub tests: u64,
    pub failures: u64,
    pub errors: u64,
    pub skipped: u64,
    pub time: String,
    pub timestamp: String,
    pub test_cases: Vec<JunitTestCase>,
}

/// Mathematical model of a `<testsuite>`.
pub struct JunitSuiteModel {
    pub name: Seq<char>,
    pub tests: u64,
    pub failures: u64,
    pub errors: u64,
    pub skipped: u64,
    pub time: Seq<char>,
    pub timestamp: Seq<char>,
    pub test_cases: Seq<JunitCaseModel>,
}

impl View for JunitTestSuite {
    type V = JunitSuiteModel;

    open spec fn view(&self) -> JunitSuiteModel {
        JunitSuiteModel {
            name: self.name@,
            tests: self.tests,
            failures: self.failures,
            errors: self.errors,
            skipped: self.skipped,
            time: self.time@,
            timestamp: self.timestamp@,
            test_cases: self.test_cases.deep_view(),
        }
    }
}

impl DeepView for JunitTestSuite {
    type V = JunitSuiteModel;

    open spec fn deep_view(&self) -> JunitSuiteModel {
        self.view()
    }
}

/// A `<testsuites>` wrapper: its suites in document order.
#[derive(Debug, Clone)]
pub struct JunitTestSuites {
    pub test_suites: Vec<JunitTestSuite>,
}

/// The two document roots a JUnit file may have.
#[derive(Debug, Clone)]
pub enum JunitRoot {
    TestSuites(JunitTestSuites),
    TestSuite(JunitTestSuite),
}

/// The status a test case's markers derive, by the fixed priority
/// failure > error > skipped > passed; the first present marker wins and
/// contributes its message.
pub open spec fn spec_status_of_case(c: JunitCaseModel) -> StatusModel {
    if c.failure is Some {
        StatusModel::Failed(c.failure->0)
    } else if c.error is Some {
        StatusModel::Error(c.error->0)
    } else if c.skipped is Some {
        StatusModel::Skipped(c.skipped->0)
    } else {
        StatusModel::Passed
    }
}

/// The canonical test a JUnit test case converts to.
pub open spec fn spec_test_of_case(c: JunitCaseModel) -> TestModel {
    TestModel { name: c.name, time: c.time, status: spec_status_of_case(c) }
}

/// The canonical tests a sequence of JUnit test cases converts to.
pub open spec fn spec_convert_cases(cs: Seq<JunitCaseModel>) -> Seq<TestModel> {
    cs.map_values(|c: JunitCaseModel| spec_test_of_case(c))
}

/// The canonical suite a JUnit suite converts to.
pub open spec fn spec_suite_of_junit(s: JunitSuiteModel) -> TestSuiteModel {
    TestSuiteModel {
        name: s.name,
        duration: s.time,
        timestamp: s.timestamp,
        tests: spec_convert_cases(s.test_cases),
    }
}

/// The canonical suites a sequence of JUnit suites converts to.
pub open spec fn spec_convert_suites(ss: Seq<JunitSuiteModel>) -> Seq<TestSuiteModel> {
    ss.map_values(|s: JunitSuiteModel| spec_suite_of_junit(s))
}

/// The uniform suite sequence each root shape normalizes to: a lone suite
/// becomes a one-element sequence, a wrapper contributes its children in
/// order.
pub open spec fn spec_suites_of_root(root: JunitRoot) -> Seq<JunitSuiteModel> {
    match root {
        JunitRoot::TestSuite(s) => seq![s@],
        JunitRoot::TestSuites(w) => w.test_suites.deep_view(),
    }
}

/// Root-normalization: a lone `<testsuite>` yields the same suite sequence
/// as a `<testsuites>` wrapper holding exactly that suite, and an empty
/// wrapper yields no suites.
pub proof fn lemma_root_normalization(s: JunitTestSuite, w: JunitTestSuites, e: JunitTestSuites)
    requires
        w.test_suites.deep_view() =~= seq![s@],
        e.test_suites.deep_view() =~= Seq::<JunitSuiteModel>::empty(),
    ensures
        spec_suites_of_root(JunitRoot::TestSuite(s)) == spec_suites_of_root(
            JunitRoot::TestSuites(w),
        ),
        spec_suites_of_root(JunitRoot::TestSuites(e)).len() == 0,
{
}

/// A test case with a `failure` marker derives the failed status and keeps
/// the marker's message, whatever other markers stand beside it — in
/// particular one with both `failure` and `skipped` never derives the
/// skipped status.
pub proof fn lemma_failure_has_priority(c: JunitCaseModel)
    requires
        c.failure is Some,
    ensures
        spec_status_of_case(c) == StatusModel::Failed(c.failure->0),
{
}

/// A test case without any marker derives the passed status.
pub proof fn lemma_unmarked_case_passes(c: JunitCaseModel)
    requires
        c.failure is None,
        c.error is None,
        c.skipped is None,
    ensures
        spec_status_of_case(c) is Passed,
{
}

/// The JUnit parser: converts decoded JUnit document shapes into the
/// canonical model.
pub struct JunitParser;

impl JunitParser {
    /// Converts one decoded JUnit document into the canonical suite
    /// sequence.
    pub fn parse(root: JunitRoot) -> (r: Vec<TestSuite>)
        ensures
            r.deep_view() == spec_suites_of_root_converted(root),
    {
        Self::convert_to_test_suites(Self::normalize_root(root))
    }

    /// Normalizes either document root into a uniform suite sequence.
    pub fn normalize_root(root: JunitRoot) -> (r: Vec<JunitTestSuite>)
        ensures
            r.deep_view() == spec_suites_of_root(root),
    {
        match root {
            JunitRoot::TestSuites(wrapper) => wrapper.test_suites,
            JunitRoot::TestSuite(suite) => {
                let mut suites: Vec<JunitTestSuite> = Vec::new();
                suites.push(suite);
                proof {
                    assert(suites.deep_view() =~= spec_suites_of_root(JunitRoot::TestSuite(suite)));
                }
                suites
            },
        }
    }

    /// Converts each JUnit suite into a canonical suite, keeping order.
    pub fn convert_to_test_suites(suites: Vec<JunitTestSuite>) -> (r: Vec<TestSuite>)
        ensures
            r.deep_view() == spec_convert_suites(suites.deep_view()),
    {
        let mut converted: Vec<TestSuite> = Vec::new();
        let mut i: usize = 0;
        while i < suites.len()
            invariant
                i <= suites.len(),
                converted.deep_view() =~= spec_convert_suites(suites.deep_view().take(i as int)),
            decreases suites.len() - i,
        {
            let suite = &suites[i];
            let mut tests: Vec<Test> = Vec::new();
            let mut j: usize = 0;
            while j < suite.test_cases.len()
                invariant
                    j <= suite.test_cases.len(),
                    tests.deep_view() =~= spec_convert_cases(
                        suite.test_cases.deep_view().take(j as int),
                    ),
                decreases suite.test_cases.len() - j,
            {
                let test = Self::convert_to_test(&suite.test_cases[j]);
                proof {
                    assert(suite.test_cases.deep_view().take(j + 1) =~= suite
                        .test_cases
                        .deep_view()
                        .take(j as int)
                        .push(suite.test_cases.deep_view()[j as int]));
                    assert(suite.test_cases.deep_view()[j as int] == suite.test_cases[
                        j as int
                    ].deep_view());
                    assert(tests.deep_view().push(test@) =~= spec_convert_cases(
                        suite.test_cases.deep_view().take(j + 1),
                    ));
                }
                let ghost tests_before = tests.deep_view();
                tests.push(test);
                proof {
                    assert(tests.deep_view() =~= tests_before.push(test.deep_view()));
                }
                j = j + 1;
            }
            proof {
                assert(suite.test_cases.deep_view().take(suite.test_cases.len() as int) =~= suite
                    .test_cases
                    .deep_view());
            }
            let fresh = TestSuite {
                name: suite.name.clone(),
                duration: suite.time.clone(),
                timestamp: suite.timestamp.clone(),
                tests,
            };
            proof {
                assert(fresh.deep_view() == spec_suite_of_junit(suites.deep_view()[i as int]));
                assert(suites.deep_view().take(i + 1) =~= suites.deep_view().take(i as int).push(
                    suites.deep_view()[i as int],
                ));
                assert(converted.deep_view().push(fresh.deep_view()) =~= spec_convert_suites(
                    suites.deep_view().take(i + 1),
                ));
            }
            let ghost converted_before = converted.deep_view();
            converted.push(fresh);
            proof {
                assert(converted.deep_view() =~= converted_before.push(fresh.deep_view()));
            }
            i = i + 1;
        }
        proof {
            assert(suites.deep_view().take(suites.len() as int) =~= suites.deep_view());
            assert(converted.deep_view() =~= spec_convert_suites(suites.deep_view()));
        }
        converted
    }

    /// Converts one JUnit test case into a canonical test, deriving its
    /// status by the marker priority.
    pub fn convert_to_test(case: &JunitTestCase) -> (r: Test)
        ensures
            r@ == spec_test_of_case(case@),
    {
        let status = if let Option::Some(failure) = &case.failure {
            TestStatus::Failed(failure.message.clone())
        } else if let Option::Some(error) = &case.error {
            TestStatus::Error(error.message.clone())
        } else if let Option::Some(skipped) = &case.skipped {
            TestStatus::Skipped(skipped.message.clone())
        } else {
            TestStatus::Passed
        };
        Test { name: case.name.clone(), time: case.time.clone(), status }
    }
}

/// The canonical suites a root converts to, end to end.
pub open spec fn spec_suites_of_root_converted(root: JunitRoot) -> Seq<TestSuiteModel> {
    spec_convert_suites(spec_suites_of_root(root))
}

} // verus!
