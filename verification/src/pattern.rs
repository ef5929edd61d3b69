//! Removing parts of a statement that a regular expression matches, through the
//! `regex` crate.
use vstd::prelude::*;

verus! {

#[verifier::external_type_specification]
#[verifier::external_body]
pub struct ExRegex(regex::Regex);

/// Whether `regex::Regex::new` accepts `pattern`.
pub uninterp spec fn regex_compiles(pattern: Seq<char>) -> bool;

/// What `regex::Regex::replace_all(text, "")` returns for the regex compiled from
/// `pattern`: `text` with every leftmost-first, non-overlapping match removed.
pub uninterp spec fn regex_remove_all(pattern: Seq<char>, text: Seq<char>) -> Seq<char>;

/// A compiled regular expression together with the pattern it was compiled from.
/// Only `compile` makes one, so `re` is always the compilation of `pattern`.
pub struct CompiledPattern {
    pattern: String,
    re: regex::Regex,
}

impl View for CompiledPattern {
    type V = Seq<char>;

    closed spec fn view(&self) -> Seq<char> {
        self.pattern@
    }
}

impl CompiledPattern {
    /// Calls `regex::Regex::new(&pattern)`. It succeeds exactly when the pattern
    /// compiles, and then keeps the pattern; the error's text is handed back as is.
    #[verifier::external_body]
    pub(crate) fn compile(pattern: String) -> (r: Result<CompiledPattern, String>)
        ensures
            r is Ok == regex_compiles(pattern@),
            r matches Ok(c) ==> c@ == pattern@,
    {
        match regex::Regex::new(&pattern) {
            Ok(re) => Ok(CompiledPattern { pattern, re }),
            Err(e) => Err(e.to_string()),
        }
    }

    /// Calls `regex::Regex::replace_all(text, "")` on the compiled pattern.
    #[verifier::external_body]
    pub(crate) fn remove_all(&self, text: &str) -> (r: String)
        ensures
            r@ == regex_remove_all(self@, text@),
    {
        self.re.replace_all(text, "").into_owned()
    }
}

} // verus!
