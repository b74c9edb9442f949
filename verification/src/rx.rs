//! Trusted boundary to the `regex` crate: compiled patterns and matching.
//!
//! What a pattern matches is named, not restated: `regex_match(p, t)` stands
//! for "the regex compiled from pattern text `p` finds a match somewhere in
//! `t`", exactly as `regex::Regex::is_match` computes it.  The library's
//! contracts speak of that name; tests exercise it through the real crate.

use vstd::prelude::*;

verus! {

#[verifier::external_type_specification]
#[verifier::external_body]
pub struct ExRegex(regex::Regex);

/// Whether the regex compiled from pattern text `pattern` finds a match
/// anywhere in `text`.  The result of `regex::Regex::is_match` depends on the
/// pattern and the haystack alone.
pub uninterp spec fn regex_match(pattern: Seq<char>, text: Seq<char>) -> bool;

/// Whether pattern text compiles as a regex.  `regex::Regex::new` succeeds
/// or fails on the pattern text alone (against the default size limit).
pub uninterp spec fn regex_compiles(pattern: Seq<char>) -> bool;

/// A compiled pattern together with the text it was compiled from.
pub struct Pattern {
    src: String,
    re: regex::Regex,
}

impl Pattern {
    /// The pattern text this value was compiled from.
    pub closed spec fn src_spec(&self) -> Seq<char> {
        self.src@
    }

    /// Relies on `regex::Regex::new`: compiles the pattern, failing exactly
    /// on invalid pattern text (or a pattern over the default size limit) —
    /// a decision on the pattern text alone, named `regex_compiles`.  On
    /// success the returned value holds the compiled regex of `pat`; on
    /// failure the error's display text is returned.
    #[verifier::external_body]
    pub fn compile(pat: &str) -> (r: Result<Pattern, String>)
        ensures
            r matches Ok(p) ==> p.src_spec() == pat@,
            r is Ok <==> regex_compiles(pat@),
    {
        match regex::Regex::new(pat) {
            Ok(re) => Ok(Pattern { src: pat.to_owned(), re }),
            Err(e) => Err(format!("{}", e)),
        }
    }

    /// Relies on `regex::Regex::is_match`: true iff the compiled pattern
    /// matches anywhere in `text`.
    #[verifier::external_body]
    pub fn is_match(&self, text: &str) -> (r: bool)
        ensures
            r == regex_match(self.src_spec(), text@),
    {
        self.re.is_match(text)
    }
}

} // verus!
