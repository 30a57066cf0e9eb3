//! Path patterns: regular expressions over template-relative paths.

use vstd::prelude::*;

verus! {

/// Whether `regex::Regex::new` accepts `pattern`.
pub uninterp spec fn regex_valid(pattern: Seq<char>) -> bool;

/// Whether `regex::Regex::is_match` finds the regular expression `pattern`
/// anywhere in `text`.
pub uninterp spec fn regex_matches(pattern: Seq<char>, text: Seq<char>) -> bool;

/// The pattern of the rule that catches every path.
pub open spec fn catch_all() -> Seq<char> {
    ".*"@
}

/// The patterns of the rules that every template definition ends with.
pub open spec fn is_fallback_pattern(pattern: Seq<char>) -> bool {
    ||| pattern == "^template\\.yml$"@
    ||| pattern == "^\\.git/"@
    ||| pattern == "^\\.git$"@
    ||| pattern == catch_all()
}

/// Calls `regex::Regex::new` and reports whether the pattern compiled.
///
/// Trusted: the answer depends on the pattern alone, and the four fallback
/// patterns are well-formed expressions of the regex syntax.
#[verifier::external_body]
fn compiles(pattern: &str) -> (ok: bool)
    ensures
        ok == regex_valid(pattern@),
        is_fallback_pattern(pattern@) ==> ok,
{
    regex::Regex::new(pattern).is_ok()
}

/// Compiles `pattern` and calls `regex::Regex::is_match` on `text`.
///
/// Trusted: the answer depends on the pattern and the text alone, and `.*`
/// matches at the start of every text, the empty one included.
#[verifier::external_body]
fn matches_anywhere(pattern: &str, text: &str) -> (found: bool)
    requires
        regex_valid(pattern@),
    ensures
        found == regex_matches(pattern@, text@),
        pattern@ == catch_all() ==> found,
{
    regex::Regex::new(pattern).unwrap().is_match(text)
}

/// A regular expression that is known to compile.
#[derive(Debug)]
pub struct Pattern {
    text: String,
}

impl View for Pattern {
    type V = Seq<char>;

    closed spec fn view(&self) -> Seq<char> {
        self.text@
    }
}

impl Clone for Pattern {
    fn clone(&self) -> (copy: Pattern)
        ensures
            copy@ == self@,
    {
        proof {
            use_type_invariant(self);
        }
        Pattern { text: self.text.clone() }
    }
}

impl Pattern {
    #[verifier::type_invariant]
    spec fn compiled(self) -> bool {
        regex_valid(self.text@)
    }

    /// Accepts `text` as a pattern if it compiles as a regular expression,
    /// as the fallback patterns do.
    pub fn new(text: String) -> (made: Option<Pattern>)
        ensures
            made is Some <==> regex_valid(text@),
            made matches Some(p) ==> p@ == text@,
            is_fallback_pattern(text@) ==> made is Some,
    {
        if compiles(text.as_str()) {
            Some(Pattern { text })
        } else {
            None
        }
    }

    /// The source text of the pattern.
    pub fn as_str(&self) -> (text: &str)
        ensures
            text@ == self@,
    {
        self.text.as_str()
    }

    /// Whether the pattern has a match anywhere in `path`.
    pub fn is_match(&self, path: &str) -> (found: bool)
        ensures
            found == regex_matches(self@, path@),
            self@ == catch_all() ==> found,
    {
        proof {
            use_type_invariant(self);
        }
        matches_anywhere(self.text.as_str(), path)
    }
}

} // verus!
