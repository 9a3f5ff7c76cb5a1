//! Regular expressions compiled once and matched many times.
//!
//! A `Pattern` keeps the text it was compiled from beside the compiled
//! expression. Its fields are private and `Pattern::compile` is the only way
//! to make one, so the compiled expression is always the one its text gives.

use vstd::prelude::*;
use crate::detection::regex_finds;

verus! {

#[verifier::external_type_specification]
#[verifier::external_body]
pub struct ExRegex(regex::Regex);

/// A regular expression, compiled from `source`; `None` where `source`
/// does not compile.
pub struct Pattern {
    source: &'static str,
    compiled: Option<regex::Regex>,
}

impl Pattern {
    /// The text this pattern was compiled from.
    pub closed spec fn source(&self) -> Seq<char> {
        self.source@
    }

    /// Relies on `regex::Regex::new`: compiles `source` once. A source that
    /// does not compile is kept as such, and then matches nothing.
    #[verifier::external_body]
    pub fn compile(source: &'static str) -> (r: Pattern)
        ensures
            r.source() == source@,
    {
        Pattern { source, compiled: regex::Regex::new(source).ok() }
    }

    /// Relies on `regex::Regex::is_match` of the expression compiled from
    /// this pattern's source: whether it matches anywhere in `text`.
    #[verifier::external_body]
    pub fn is_match(&self, text: &str) -> (r: bool)
        ensures
            r == regex_finds(self.source(), text@),
    {
        match &self.compiled {
            Some(re) => re.is_match(text),
            None => false,
        }
    }
}

} // verus!
