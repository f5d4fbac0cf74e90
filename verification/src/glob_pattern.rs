//! Glob patterns (as in shell file name matching) used to select parameters
//! and conditions by name.  Compiling and matching are done by the `glob`
//! crate.
use vstd::prelude::*;

verus! {

#[verifier::external_type_specification]
#[verifier::external_body]
pub struct ExGlobPattern(glob::Pattern);

/// What `glob::Pattern::new` makes of `pattern`: `None` when it compiles,
/// else the message of the error.
pub uninterp spec fn glob_compile_error(pattern: Seq<char>) -> Option<Seq<char>>;

/// `glob::Pattern::matches` with default options: does `name` match the
/// compiled form of `pattern`?
pub uninterp spec fn glob_matches(pattern: Seq<char>, name: Seq<char>) -> bool;

/// Calls `glob::Pattern::new`.  The result is `Ok` exactly when
/// `glob_compile_error` says the pattern compiles, and the error is its
/// message; the pattern `*` compiles (the crate documents `*` as matching
/// any sequence of characters).
#[verifier::external_body]
fn compile_glob(pattern: &str) -> (r: Result<glob::Pattern, String>)
    ensures
        r is Ok <==> glob_compile_error(pattern@) is None,
        r matches Err(m) ==> glob_compile_error(pattern@) == Some(m@),
        pattern@ == seq!['*'] ==> r is Ok,
{
    match glob::Pattern::new(pattern) {
        Ok(p) => Ok(p),
        Err(e) => Err(e.msg.to_string()),
    }
}

/// A compiled glob pattern with the text it was compiled from.  The only way
/// to make one is `GlobPattern::new`, so the two always belong together.
pub struct GlobPattern {
    text: String,
    compiled: glob::Pattern,
}

/// Calls `glob::Pattern::matches` on the compiled form of `p`.  The result
/// is `glob_matches` of the text `p` was compiled from; the pattern `*`
/// matches every string, as the crate documents.
#[verifier::external_body]
fn glob_pattern_matches(p: &GlobPattern, name: &str) -> (r: bool)
    ensures
        r == glob_matches(p.spec_text(), name@),
        p.spec_text() == seq!['*'] ==> r,
{
    p.compiled.matches(name)
}

impl GlobPattern {
    /// The text of the pattern.
    pub closed spec fn spec_text(&self) -> Seq<char> {
        self.text@
    }

    /// Compiles `pattern`; `Err` with the message of the glob crate when it
    /// is not a valid pattern.
    pub fn new(pattern: &str) -> (r: Result<GlobPattern, String>)
        ensures
            r is Ok <==> glob_compile_error(pattern@) is None,
            r matches Ok(p) ==> p.spec_text() == pattern@,
            r matches Err(m) ==> glob_compile_error(pattern@) == Some(m@),
            pattern@ == seq!['*'] ==> r is Ok,
    {
        match compile_glob(pattern) {
            Ok(c) => Ok(GlobPattern { text: String::from_str(pattern), compiled: c }),
            Err(m) => Err(m),
        }
    }

    /// Does `name` match the pattern?
    pub fn matches(&self, name: &str) -> (r: bool)
        ensures
            r == glob_matches(self.spec_text(), name@),
            self.spec_text() == seq!['*'] ==> r,
    {
        glob_pattern_matches(self, name)
    }
}

} // verus!
