//! Trigger extraction: a configured pattern is searched for in each raw chat
//! line; the text after the first match is the command text, a line without a
//! match carries no command.

use vstd::prelude::*;
use vstd::string::*;
use vstd::utf8::is_char_boundary;

verus! {

#[verifier::external_type_specification]
#[verifier::external_body]
pub struct ExRegex(regex::Regex);

/// The byte offset just past the first match of the compiled pattern in the
/// text, or `None` when the pattern matches nowhere in the text. The offset
/// is determined by the pattern and the text alone.
pub uninterp spec fn trigger_end(pattern: Seq<u8>, text: Seq<u8>) -> Option<int>;

/// Whether a pattern is one that the regex engine compiles: valid syntax,
/// within the compilation limits. Determined by the pattern alone.
pub uninterp spec fn trigger_pattern_ok(pattern: Seq<u8>) -> bool;

/// Finds the configured trigger in raw chat lines and hands back what
/// follows it.
pub struct TriggerExtractor {
    re: regex::Regex,
    pattern: Vec<u8>,
}

impl TriggerExtractor {
    /// The bytes of the pattern this extractor was compiled from.
    pub closed spec fn pattern(&self) -> Seq<u8> {
        self.pattern@
    }

    /// Relies on regex::Regex::new: compiles the pattern, returning `Err`
    /// exactly on invalid syntax or an over-large compilation — which
    /// depends on the pattern alone, here named `trigger_pattern_ok`. The
    /// compiled regex is stored beside the bytes of the very pattern it was
    /// compiled from; only this constructor builds a `TriggerExtractor`, so
    /// `find_end` may speak of that pattern.
    #[verifier::external_body]
    pub fn new(pattern: &str) -> (r: Option<TriggerExtractor>)
        ensures
            r is Some <==> trigger_pattern_ok(pattern.spec_bytes()),
            r matches Some(t) ==> t.pattern() == pattern.spec_bytes(),
    {
        match regex::Regex::new(pattern) {
            Ok(re) => Some(TriggerExtractor { re, pattern: pattern.as_bytes().to_vec() }),
            Err(_) => None,
        }
    }

    /// Relies on regex::Regex::find: returns the first (leftmost) match in
    /// the haystack; `Match::end` is a byte offset no larger than the
    /// haystack's length and guaranteed to fall on a UTF-8 character
    /// boundary.
    #[verifier::external_body]
    fn find_end(&self, text: &str) -> (r: Option<usize>)
        ensures
            r is Some <==> trigger_end(self.pattern(), text.spec_bytes()) is Some,
            r matches Some(e) ==> trigger_end(self.pattern(), text.spec_bytes()) == Some(e as int)
                && e <= text.spec_bytes().len()
                && is_char_boundary(text.spec_bytes(), e as int),
    {
        self.re.find(text).map(|m| m.end())
    }

    /// Strips everything up to and including the first trigger match; a text
    /// in which the pattern matches nowhere yields no command at all.
    pub fn extract<'a>(&self, text: &'a str) -> (r: Option<&'a str>)
        ensures
            r is Some <==> trigger_end(self.pattern(), text.spec_bytes()) is Some,
            r matches Some(rest) ==> (trigger_end(self.pattern(), text.spec_bytes()) matches Some(e)
                && rest.spec_bytes() == text.spec_bytes().subrange(e, text.spec_bytes().len() as int)),
    {
        match self.find_end(text) {
            None => None,
            Some(e) => {
                let (_, rest) = text.split_at(e);
                Some(rest)
            },
        }
    }
}

} // verus!
