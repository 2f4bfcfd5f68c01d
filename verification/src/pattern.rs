//! Regular-expression matching for tag rules, done by the `regex` crate
//! behind a small trusted boundary.
//!
//! A pattern's compilability and what it matches are deterministic in the
//! pattern text alone, so both get a name here that contracts can speak of.

use vstd::prelude::*;

verus! {

#[verifier::external_type_specification]
#[verifier::external_body]
pub struct ExRegex(regex::Regex);

/// Whether `regex::Regex::new` accepts a pattern: valid regex syntax whose
/// compiled form stays within the crate's default size limit. This depends
/// on the pattern alone.
pub uninterp spec fn regex_valid(pattern: Seq<char>) -> bool;

/// Whether the regex compiled from `pattern` matches anywhere within `text`.
/// This depends on the pattern and the text alone.
pub uninterp spec fn regex_matches(pattern: Seq<char>, text: Seq<char>) -> bool;

/// A compiled regex paired with the pattern it was compiled from. `compile`
/// is the one constructor, so the two fields always belong together.
pub struct CompiledPattern {
    regex: regex::Regex,
    source: String,
}

impl CompiledPattern {
    /// The pattern this value was compiled from.
    pub closed spec fn spec_source(&self) -> Seq<char> {
        self.source@
    }

    /// Relies on regex::Regex::new: compilation succeeds iff the pattern is
    /// valid regex syntax within the default size limit, which depends on
    /// the pattern alone.
    #[verifier::external_body]
    pub fn compile(pattern: &str) -> (r: Option<CompiledPattern>)
        ensures
            r is Some <==> regex_valid(pattern@),
            r is Some ==> r->0.spec_source() == pattern@,
    {
        match regex::Regex::new(pattern) {
            Ok(regex) => Some(CompiledPattern { regex, source: pattern.to_string() }),
            Err(_) => None,
        }
    }

    /// Relies on regex::Regex::is_match: true iff the regex matches anywhere
    /// within `text`, which depends only on the pattern it was compiled from
    /// and on the text.
    #[verifier::external_body]
    pub fn is_match(&self, text: &str) -> (r: bool)
        ensures
            r == regex_matches(self.spec_source(), text@),
    {
        self.regex.is_match(text)
    }
}

} // verus!
