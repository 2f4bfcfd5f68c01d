//! Normalizes machine-generated test-execution reports (JUnit XML) into a
//! stable, tool-agnostic test-report document, and mutates such a document
//! with regex-driven tag rules.
//!
//! The crate holds the logic of the pipeline: the canonical test model, the
//! JUnit conversion and its status-derivation priority, the report builder
//! with its duration conversion, and the tag-expression engine. Reading and
//! writing files, and the raw XML/JSON decoding, stay with the caller.

pub mod duration;
pub mod junit;
pub mod parse_command;
pub mod pattern;
pub mod strutil;
pub mod tag_command;
pub mod test_models;
pub mod test_report;

use vstd::prelude::*;

verus! {

/// The input report formats this crate understands. Only JUnit is defined;
/// other formats plug in as further variants.
#[derive(Clone, Copy, Debug, PartialEq, Eq, Structural)]
pub enum ReportType {
    Junit,
}

/// Recognizes a report-type discriminator. Exactly the string `junit` names
/// a defined format; every other string is a configuration error, which the
/// caller reports.
pub fn report_type_from_str(s: &str) -> (r: Option<ReportType>)
    ensures
        r == if s@ == "junit"@ {
            Some(ReportType::Junit)
        } else {
            None::<ReportType>
        },
{
    if crate::strutil::str_eq(s, "junit") {
        Some(ReportType::Junit)
    } else {
        None
    }
}

} // verus!
