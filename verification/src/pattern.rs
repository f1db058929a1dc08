//! Compiled regular expressions.

use vstd::prelude::*;
use regex::Regex;
use crate::error::FindError;

verus! {

/// `regex::Regex`, a compiled regular expression. Nothing inside it is
/// visible to the proofs.
#[verifier::external_type_specification]
#[verifier::external_body]
pub struct ExRegex(regex::Regex);

/// `regex::Error`, what `regex::Regex::new` returns for a pattern it
/// rejects. Nothing inside it is visible to the proofs.
#[verifier::external_type_specification]
#[verifier::external_body]
pub struct ExRegexError(regex::Error);

/// Whether the regular expression written as `pattern` has a match anywhere
/// in `haystack`, as `regex::Regex::is_match` finds it.
pub uninterp spec fn pattern_matches(pattern: Seq<char>, haystack: Seq<char>) -> bool;

/// A regular expression together with the text it was compiled from. The
/// only way to obtain one is [`Pattern::new`], so the two always belong
/// together.
#[derive(Debug)]
pub struct Pattern {
    source: String,
    regex: Regex,
}

impl View for Pattern {
    type V = Seq<char>;

    /// The pattern text.
    closed spec fn view(&self) -> Seq<char> {
        self.source@
    }
}

/// Calls `regex::Regex::new`. Whether a pattern compiles depends on its
/// syntax and on a size limit measured in this machine's memory, so nothing
/// is claimed of the outcome.
#[verifier::external_body]
fn compile_regex(source: &str) -> (r: Result<Regex, regex::Error>) {
    Regex::new(source)
}

/// Calls `regex::Regex::is_match` on the compiled expression of `pattern`.
/// The expression was compiled from the pattern's own text with the default
/// options, so the answer is the one that text gives on `haystack`.
#[verifier::external_body]
fn regex_is_match(pattern: &Pattern, haystack: &str) -> (b: bool)
    ensures
        b == pattern_matches(pattern@, haystack@),
{
    pattern.regex.is_match(haystack)
}

impl Pattern {
    /// Pairs a pattern text with the outcome of compiling it: a pattern when
    /// it compiled, `InvalidPattern` when it did not.
    fn from_compiled(source: &str, compiled: Result<Regex, regex::Error>) -> (r: Result<
        Pattern,
        FindError,
    >)
        ensures
            r is Ok <==> compiled is Ok,
            r matches Ok(p) ==> p@ == source@,
            r matches Err(e) ==> e == FindError::InvalidPattern,
    {
        match compiled {
            Ok(regex) => Ok(Pattern { source: source.to_owned(), regex }),
            Err(_) => Err(FindError::InvalidPattern),
        }
    }

    /// Compiles `source`. A text that is not a valid regular expression, or
    /// whose compiled form would be too large, gives `InvalidPattern`.
    pub fn new(source: &str) -> (r: Result<Pattern, FindError>)
        ensures
            r matches Ok(p) ==> p@ == source@,
            r matches Err(e) ==> e == FindError::InvalidPattern,
    {
        Pattern::from_compiled(source, compile_regex(source))
    }

    /// The text this pattern was compiled from.
    pub fn as_str(&self) -> (text: &str)
        ensures
            text@ == self@,
    {
        self.source.as_str()
    }

    /// Whether the pattern has a match anywhere in `haystack`.
    pub fn is_match(&self, haystack: &str) -> (b: bool)
        ensures
            b == pattern_matches(self@, haystack@),
    {
        regex_is_match(self, haystack)
    }
}

} // verus!
