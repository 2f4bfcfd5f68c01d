//! The report builder: flattens the canonical suites parsed from each input
//! file into one report document, deriving each entry's status category,
//! truncated millisecond duration, optional message and optional tags.

use vstd::prelude::*;
use crate::duration::{clamped_millis, seconds_str_to_millis};
use crate::tag_command::{add_tags_to_test, clone_tags, spec_add_tags, spec_opt_tags};
use crate::test_models::{Test, TestModel, TestSuite, TestSuiteModel};
use crate::test_report::{
    spec_message_of, spec_status_of, EntryModel, TestReport, TestReportStatus, TestReportTest,
};

verus! {

/// The tag list every built entry receives: none when the caller supplied
/// no tags, otherwise the supplied tags in order with duplicates dropped on
/// first insertion.
pub open spec fn spec_report_tags(tags: Seq<Seq<char>>) -> Option<Seq<Seq<char>>> {
    if tags.len() == 0 {
        None
    } else {
        Some(spec_add_tags(Seq::<Seq<char>>::empty(), tags))
    }
}

/// The report entry one canonical test flattens to, under its suite's name.
pub open spec fn spec_entry_of_test(
    suite_name: Seq<char>,
    t: TestModel,
    tags: Option<Seq<Seq<char>>>,
) -> EntryModel {
    EntryModel {
        last_execution_type: spec_status_of(t.status),
        name: t.name,
        path: suite_name,
        duration_ms: clamped_millis(t.time),
        message: spec_message_of(t.status),
        tags,
    }
}

/// The entries one suite contributes, in test order.
pub open spec fn spec_entries_of_suite(s: TestSuiteModel, tags: Option<Seq<Seq<char>>>) -> Seq<
    EntryModel,
> {
    s.tests.map_values(|t: TestModel| spec_entry_of_test(s.name, t, tags))
}

/// The entries a sequence of suites contributes, concatenated in order.
pub open spec fn spec_entries_of_suites(
    suites: Seq<TestSuiteModel>,
    tags: Option<Seq<Seq<char>>>,
) -> Seq<EntryModel> {
    suites.map_values(|s: TestSuiteModel| spec_entries_of_suite(s, tags)).flatten()
}

/// The entries a batch of files contributes: each file's suites in file
/// order, concatenated.
pub open spec fn spec_entries_of_files(
    files: Seq<Seq<TestSuiteModel>>,
    tags: Option<Seq<Seq<char>>>,
) -> Seq<EntryModel> {
    files.map_values(|suites: Seq<TestSuiteModel>| spec_entries_of_suites(suites, tags)).flatten()
}

/// One more suite contributes its entries at the end.
pub proof fn lemma_entries_of_suites_push(
    suites: Seq<TestSuiteModel>,
    s: TestSuiteModel,
    tags: Option<Seq<Seq<char>>>,
)
    ensures
        spec_entries_of_suites(suites.push(s), tags) == spec_entries_of_suites(suites, tags)
            + spec_entries_of_suite(s, tags),
{
    let mapped = suites.map_values(|x: TestSuiteModel| spec_entries_of_suite(x, tags));
    assert(suites.push(s).map_values(|x: TestSuiteModel| spec_entries_of_suite(x, tags))
        =~= mapped.push(spec_entries_of_suite(s, tags)));
    mapped.lemma_flatten_push(spec_entries_of_suite(s, tags));
    assert(spec_entries_of_suites(suites.push(s), tags) =~= spec_entries_of_suites(suites, tags)
        + spec_entries_of_suite(s, tags));
}

/// One more file contributes its entries at the end.
pub proof fn lemma_entries_of_files_push(
    files: Seq<Seq<TestSuiteModel>>,
    suites: Seq<TestSuiteModel>,
    tags: Option<Seq<Seq<char>>>,
)
    ensures
        spec_entries_of_files(files.push(suites), tags) == spec_entries_of_files(files, tags)
            + spec_entries_of_suites(suites, tags),
{
    let mapped = files.map_values(|x: Seq<TestSuiteModel>| spec_entries_of_suites(x, tags));
    assert(files.push(suites).map_values(
        |x: Seq<TestSuiteModel>| spec_entries_of_suites(x, tags),
    ) =~= mapped.push(spec_entries_of_suites(suites, tags)));
    mapped.lemma_flatten_push(spec_entries_of_suites(suites, tags));
    assert(spec_entries_of_files(files.push(suites), tags) =~= spec_entries_of_files(files, tags)
        + spec_entries_of_suites(suites, tags));
}

/// A test case with no failure, error or skipped marker flattens to a
/// successful entry with no message field at all.
pub proof fn lemma_unmarked_case_entry(
    suite_name: Seq<char>,
    c: crate::junit::JunitCaseModel,
    tags: Option<Seq<Seq<char>>>,
)
    requires
        c.failure is None,
        c.error is None,
        c.skipped is None,
    ensures
        spec_entry_of_test(
            suite_name,
            crate::junit::spec_test_of_case(c),
            tags,
        ).last_execution_type == TestReportStatus::Success,
        spec_entry_of_test(suite_name, crate::junit::spec_test_of_case(c), tags).message is None,
{
}

/// A test case with a failure marker — whatever else stands beside it —
/// flattens to a failed entry whose message is the marker's message, the
/// empty string where the marker carried none.
pub proof fn lemma_failed_case_entry(
    suite_name: Seq<char>,
    c: crate::junit::JunitCaseModel,
    tags: Option<Seq<Seq<char>>>,
)
    requires
        c.failure is Some,
    ensures
        spec_entry_of_test(
            suite_name,
            crate::junit::spec_test_of_case(c),
            tags,
        ).last_execution_type == TestReportStatus::Failure,
        spec_entry_of_test(suite_name, crate::junit::spec_test_of_case(c), tags).message
            == Some(c.failure->0),
{
}

/// Prepares the uniform tag list for a parse run: absent when no tags were
/// supplied, otherwise the supplied tags deduplicated on first insertion.
pub fn prepare_tags(tags: &Vec<String>) -> (r: Option<Vec<String>>)
    ensures
        spec_opt_tags(r) == spec_report_tags(tags.deep_view()),
{
    if tags.len() == 0 {
        None
    } else {
        add_tags_to_test(None, tags)
    }
}

/// Builds the report entry for one canonical test.
pub fn entry_of_test(suite_name: &String, test: &Test, tags: &Option<Vec<String>>) -> (r:
    TestReportTest)
    ensures
        r@ == spec_entry_of_test(suite_name@, test@, spec_opt_tags(*tags)),
{
    TestReportTest {
        last_execution_type: TestReportStatus::from_test_status(test.status.clone()),
        name: test.name.clone(),
        path: suite_name.clone(),
        duration_ms: seconds_str_to_millis(test.time.as_str()),
        message: TestReportTest::message_from_test_status(test.status.clone()),
        tags: match tags {
            None => None,
            Some(v) => Some(clone_tags(v)),
        },
    }
}

/// Builds the report for one parse run: every test of every suite of every
/// file becomes one entry, in file, suite and document order; the report
/// carries format version 1 and the given generation date.
pub fn parse_command(parsed_files: Vec<Vec<TestSuite>>, current_date: String, tags: Vec<String>)
    -> (r: TestReport)
    ensures
        r.version == 1,
        r.date@ == current_date@,
        r@.tests == spec_entries_of_files(
            parsed_files.deep_view(),
            spec_report_tags(tags.deep_view()),
        ),
{
    let report_tags = prepare_tags(&tags);
    let ghost tags_model = spec_opt_tags(report_tags);
    let mut entries: Vec<TestReportTest> = Vec::new();
    let mut i: usize = 0;
    while i < parsed_files.len()
        invariant
            i <= parsed_files.len(),
            tags_model == spec_opt_tags(report_tags),
            entries.deep_view() =~= spec_entries_of_files(
                parsed_files.deep_view().take(i as int),
                tags_model,
            ),
        decreases parsed_files.len() - i,
    {
        let suites = &parsed_files[i];
        let mut j: usize = 0;
        while j < suites.len()
            invariant
                j <= suites.len(),
                tags_model == spec_opt_tags(report_tags),
                entries.deep_view() =~= spec_entries_of_files(
                    parsed_files.deep_view().take(i as int),
                    tags_model,
                ) + spec_entries_of_suites(suites.deep_view().take(j as int), tags_model),
                i < parsed_files.len(),
                *suites == parsed_files@[i as int],
            decreases suites.len() - j,
        {
            let suite = &suites[j];
            let mut k: usize = 0;
            while k < suite.tests.len()
                invariant
                    k <= suite.tests.len(),
                    tags_model == spec_opt_tags(report_tags),
                    entries.deep_view() =~= spec_entries_of_files(
                        parsed_files.deep_view().take(i as int),
                        tags_model,
                    ) + spec_entries_of_suites(suites.deep_view().take(j as int), tags_model)
                        + spec_entries_of_suite(suite@, tags_model).take(k as int),
                    i < parsed_files.len(),
                    suites == parsed_files[i as int],
                    j < suites.len(),
                    suite == suites[j as int],
                decreases suite.tests.len() - k,
            {
                let entry = entry_of_test(&suite.name, &suite.tests[k], &report_tags);
                let ghost before = entries.deep_view();
                entries.push(entry);
                proof {
                    assert(entries.deep_view() =~= before.push(entry@));
                    assert(spec_entries_of_suite(suite@, tags_model)[k as int] == spec_entry_of_test(
                        suite@.name,
                        suite@.tests[k as int],
                        tags_model,
                    ));
                    assert(suite@.tests[k as int] == suite.tests.deep_view()[k as int]);
                    assert(spec_entries_of_suite(suite@, tags_model).take(k + 1)
                        =~= spec_entries_of_suite(suite@, tags_model).take(k as int).push(
                        spec_entries_of_suite(suite@, tags_model)[k as int],
                    ));
                }
                k = k + 1;
            }
            proof {
                assert(spec_entries_of_suite(suite@, tags_model).take(
                    suite.tests.len() as int,
                ) =~= spec_entries_of_suite(suite@, tags_model));
                lemma_entries_of_suites_push(
                    suites.deep_view().take(j as int),
                    suite@,
                    tags_model,
                );
                assert(suites.deep_view().take(j + 1) =~= suites.deep_view().take(j as int).push(
                    suite@,
                ));
            }
            j = j + 1;
        }
        proof {
            assert(suites.deep_view().take(suites.len() as int) =~= suites.deep_view());
            lemma_entries_of_files_push(
                parsed_files.deep_view().take(i as int),
                suites.deep_view(),
                tags_model,
            );
            assert(parsed_files.deep_view().take(i + 1) =~= parsed_files.deep_view().take(
                i as int,
            ).push(suites.deep_view()));
        }
        i = i + 1;
    }
    proof {
        assert(parsed_files.deep_view().take(parsed_files.len() as int) =~= parsed_files
            .deep_view());
    }
    TestReport { version: 1, date: current_date, tests: entries }
}

} // verus!
