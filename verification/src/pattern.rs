//! The stacking-order pattern and the regex engine that searches for it.

use crate::error::ScanError;
use regex::Regex;
use vstd::prelude::*;

verus! {

/// The four ways in which a stacking order is declared: a bracketed utility
/// class, a bare utility class, a style-object property and a CSS property.
/// Each alternative captures its digits in a group of its own.
pub const Z_INDEX_PATTERN: &'static str = r"z-\[(\d+)\]|z-(\d+)|zIndex:\s*(\d+)|z-index:\s*(\d+)";

/// The value recorded for a match in which no group took part.
pub const UNKNOWN_VALUE: &'static str = "unknown";

/// `regex::Regex`, a compiled regular expression. Opaque to the verifier.
#[verifier::external_type_specification]
#[verifier::external_body]
pub struct ExRegex(regex::Regex);

/// `regex::Error`, the reason why a pattern did not compile. Opaque to the
/// verifier.
#[verifier::external_type_specification]
#[verifier::external_body]
pub struct ExRegexError(regex::Error);

/// Whether `Regex::new` accepts `pattern`: the pattern is well formed and
/// the program that the engine compiles from it stays within the engine's
/// default size limit.
pub uninterp spec fn pattern_compiles(pattern: Seq<char>) -> bool;

/// What `Regex::captures` finds when the regex compiled from `pattern` by
/// `Regex::new` searches `haystack`: `None` where nothing matches; otherwise
/// the groups of the leftmost match in the order of their opening
/// parentheses, group 0 being the whole match, each with the text it matched
/// or `None` where it took no part.
pub uninterp spec fn regex_captures(pattern: Seq<char>, haystack: Seq<char>) -> Option<
    Seq<Option<Seq<char>>>,
>;

/// The text of each group, where it took part in the match.
pub open spec fn groups_view(groups: Seq<Option<String>>) -> Seq<Option<Seq<char>>> {
    groups.map_values(
        |g: Option<String>|
            match g {
                Some(text) => Some(text@),
                None => None,
            },
    )
}

/// The model of an optional list of groups.
pub open spec fn captures_view(captured: Option<Vec<Option<String>>>) -> Option<
    Seq<Option<Seq<char>>>,
> {
    match captured {
        Some(groups) => Some(groups_view(groups@)),
        None => None,
    }
}

/// Calls `to_string` on a `regex::Error`, which gives the engine's own
/// description of the failure. Nothing is claimed of the words.
#[verifier::external_body]
fn describe(error: &regex::Error) -> (detail: String) {
    error.to_string()
}

/// A compiled pattern together with the text it was compiled from.
///
/// The only way to obtain one is [`Matcher::new`], so the regex inside is
/// always the one that `Regex::new` built from `source`.
pub struct Matcher {
    source: String,
    regex: Regex,
}

impl Matcher {
    /// The pattern that this matcher searches for.
    pub closed spec fn source(&self) -> Seq<char> {
        self.source@
    }

    /// Calls `Regex::new`. A regex comes back exactly where the engine
    /// accepts `pattern`, and it then searches for `pattern`.
    #[verifier::external_body]
    fn compile(pattern: &str) -> (compiled: Result<Matcher, regex::Error>)
        ensures
            compiled is Ok <==> pattern_compiles(pattern@),
            compiled matches Ok(matcher) ==> matcher.source() == pattern@,
    {
        Regex::new(pattern).map(|regex| Matcher { source: pattern.to_string(), regex })
    }

    /// Calls `Regex::captures` and copies the text of every group out of the
    /// haystack, in the order in which `Captures::iter` yields the groups.
    #[verifier::external_body]
    pub(crate) fn captures(&self, haystack: &str) -> (captured: Option<Vec<Option<String>>>)
        ensures
            captures_view(captured) == regex_captures(self.source(), haystack@),
    {
        self.regex.captures(haystack).map(
            |found| found.iter().map(|group| group.map(|m| m.as_str().to_string())).collect(),
        )
    }

    /// Compiles `pattern`.
    ///
    /// A matcher is made exactly where the regex engine accepts the
    /// pattern; where it does not, the engine's explanation is kept in the
    /// error.
    pub fn new(pattern: &str) -> (made: Result<Matcher, ScanError>)
        ensures
            made is Ok <==> pattern_compiles(pattern@),
            made matches Ok(matcher) ==> matcher.source() == pattern@,
            made matches Err(error) ==> error is InvalidPattern,
    {
        match Matcher::compile(pattern) {
            Ok(matcher) => Ok(matcher),
            Err(error) => Err(ScanError::InvalidPattern { detail: describe(&error) }),
        }
    }
}

/// The text of the first group after group 0 that took part in the match,
/// looking from index `from` on; the fallback value where there is none.
pub open spec fn first_participating_from(groups: Seq<Option<Seq<char>>>, from: int) -> Seq<char>
    decreases groups.len() - from,
{
    if from >= groups.len() {
        UNKNOWN_VALUE@
    } else {
        match groups[from] {
            Some(text) => text,
            None => first_participating_from(groups, from + 1),
        }
    }
}

/// The value that a match stands for: the text of its first participating
/// group, the whole match in group 0 left aside.
pub open spec fn first_participating(groups: Seq<Option<Seq<char>>>) -> Seq<char> {
    first_participating_from(groups, 1)
}

/// Picks the value of a match out of its groups.
pub fn matched_value(groups: &Vec<Option<String>>) -> (value: String)
    ensures
        value@ == first_participating(groups_view(groups@)),
{
    let mut i: usize = 1;
    while i < groups.len()
        invariant
            1 <= i,
            first_participating(groups_view(groups@)) == first_participating_from(
                groups_view(groups@),
                i as int,
            ),
        decreases groups.len() - i,
    {
        match &groups[i] {
            Some(text) => {
                return text.clone();
            },
            None => {},
        }
        i += 1;
    }
    UNKNOWN_VALUE.to_owned()
}

} // verus!
