//! Glob matching over channel names, provided by the globset crate.

use vstd::prelude::*;

verus! {

/// The outside matcher type, carried opaquely.
#[verifier::external_type_specification]
#[verifier::external_body]
pub struct ExGlobSet(globset::GlobSet);

/// Patterns longer than this are refused before compilation. Far below
/// this bound, every failure inside globset's set builder is returned as
/// an error rather than raised; the bound keeps the one remaining panic
/// path (an internal literal automaton overflowing its index space,
/// which needs pattern data in the gigabytes) out of reach.
pub const GLOB_PATTERN_MAX: usize = 1048576;

/// Whether globset accepts `pattern`: it parses as a glob and compiles
/// as a one-pattern set within globset's fixed size limits; a function
/// of the pattern alone.
pub uninterp spec fn glob_pattern_ok(pattern: Seq<char>) -> bool;

/// Whether the one-pattern set compiled from `pattern` matches `name`;
/// a function of the two strings alone.
pub uninterp spec fn glob_match(pattern: Seq<char>, name: Seq<char>) -> bool;

/// A compiled glob, remembering the pattern it was compiled from.
pub(crate) struct CompiledGlob {
    pattern: String,
    set: globset::GlobSet,
}

impl CompiledGlob {
    /// The pattern this matcher was compiled from.
    pub(crate) closed spec fn pattern(&self) -> Seq<char> {
        self.pattern@
    }

    /// Relies on globset's `Glob::new` and `GlobSetBuilder::build`: for
    /// a pattern within the length bound, parsing and compiling either
    /// succeed or return an error, and both are functions of the
    /// pattern alone.
    #[verifier::external_body]
    pub(crate) fn compile(pattern: &str) -> (r: Option<CompiledGlob>)
        requires
            pattern@.len() <= GLOB_PATTERN_MAX,
        ensures
            r is Some <==> glob_pattern_ok(pattern@),
            r matches Some(g) ==> g.pattern() == pattern@,
    {
        let glob = match globset::Glob::new(pattern) {
            Ok(g) => g,
            Err(_) => return None,
        };
        let mut builder = globset::GlobSetBuilder::new();
        builder.add(glob);
        match builder.build() {
            Ok(set) => Some(CompiledGlob { pattern: pattern.to_string(), set }),
            Err(_) => None,
        }
    }

    /// Relies on globset's `GlobSet::is_match`: whether `name` matches
    /// the one pattern this set was compiled from; a function of the
    /// two strings alone. (globset normalizes platform path separators
    /// in the name; the names matched here are channel names, which hold
    /// none.)
    #[verifier::external_body]
    pub(crate) fn is_match(&self, name: &str) -> (r: bool)
        ensures
            r == glob_match(self.pattern(), name@),
    {
        self.set.is_match(name)
    }
}

} // verus!
