//! The rules of the directory walk: which entries are descended into and
//! which files are scanned.

use crate::text::chars_of;
use vstd::prelude::*;

verus! {

/// A path that holds this text lies below a dependency-cache directory.
pub const DEPENDENCY_CACHE_SEGMENT: &'static str = "/node_modules/";

/// Whether `part` stands in `text` at index `at`.
pub open spec fn occurs_at(text: Seq<char>, part: Seq<char>, at: int) -> bool {
    &&& 0 <= at
    &&& at + part.len() <= text.len()
    &&& text.subrange(at, at + part.len()) == part
}

/// Whether `part` stands somewhere in `text`.
pub open spec fn contains_text(text: Seq<char>, part: Seq<char>) -> bool {
    exists|at: int| occurs_at(text, part, at)
}

/// Whether a file name marks a hidden entry: it starts with a dot.
pub open spec fn is_hidden_name(name: Seq<char>) -> bool {
    name.len() > 0 && name[0] == '.'
}

/// Whether a path lies below a dependency-cache directory.
pub open spec fn in_dependency_cache(path: Seq<char>) -> bool {
    contains_text(path, DEPENDENCY_CACHE_SEGMENT@)
}

/// Whether the walk keeps an entry: its name, where it has one that is
/// text, is not hidden, and its path does not lie below a dependency cache.
/// An entry that is not kept is skipped with everything below it.
pub open spec fn is_kept(file_name: Option<Seq<char>>, path: Seq<char>) -> bool {
    &&& file_name matches Some(name) ==> !is_hidden_name(name)
    &&& !in_dependency_cache(path)
}

/// Whether a lower-case extension is one of the front-end source extensions.
pub open spec fn is_source_extension(lowered: Seq<char>) -> bool {
    lowered == "js"@ || lowered == "jsx"@ || lowered == "ts"@ || lowered == "tsx"@
}

/// What `str::to_lowercase` makes of `text`: its lower-case form by the
/// rules of Unicode.
pub uninterp spec fn lowercase_of(text: Seq<char>) -> Seq<char>;

/// Whether a file is scanned: it is a regular file and its extension, in
/// lower case, is a front-end source extension.
pub open spec fn is_candidate(is_file: bool, extension: Option<Seq<char>>) -> bool {
    &&& is_file
    &&& extension matches Some(text) && is_source_extension(lowercase_of(text))
}

/// Whether a failure of the walk ends the run. The root is at depth 0: a
/// root that cannot be walked leaves nothing to report on, while a failure
/// below it costs the entry that failed and nothing more.
pub open spec fn is_fatal_at(depth: nat) -> bool {
    depth == 0
}

/// Calls `str::to_lowercase`. What comes back is the lower-case form that
/// `lowercase_of` names; nothing is claimed of single characters.
#[verifier::external_body]
fn to_lowercase(text: &str) -> (lowered: String)
    ensures
        lowered@ == lowercase_of(text@),
{
    text.to_lowercase()
}

/// Tells whether `part` stands in `text` at index `at`.
fn stands_at(text: &Vec<char>, part: &Vec<char>, at: usize) -> (found: bool)
    requires
        at + part.len() <= text.len(),
    ensures
        found == occurs_at(text@, part@, at as int),
{
    let mut i: usize = 0;
    while i < part.len()
        invariant
            i <= part.len(),
            at + part.len() <= text.len(),
            text@.subrange(at as int, at + i) == part@.take(i as int),
        decreases part.len() - i,
    {
        if text[at + i] != part[i] {
            return false;
        }
        i += 1;
    }
    assert(part@.take(part.len() as int) =~= part@);
    true
}

/// Tells whether `part` stands somewhere in `text`.
pub fn contains(text: &str, part: &str) -> (found: bool)
    ensures
        found == contains_text(text@, part@),
{
    let haystack = chars_of(text);
    let needle = chars_of(part);
    if needle.len() > haystack.len() {
        return false;
    }
    let last = haystack.len() - needle.len();
    let mut at: usize = 0;
    loop
        invariant
            at <= last,
            last == haystack.len() - needle.len(),
            haystack@ == text@,
            needle@ == part@,
            forall|before: int| 0 <= before < at ==> !occurs_at(text@, part@, before),
        decreases last - at,
    {
        if stands_at(&haystack, &needle, at) {
            return true;
        }
        if at == last {
            return false;
        }
        at += 1;
    }
}

/// Tells whether a file name marks a hidden entry.
pub fn is_hidden(name: &str) -> (hidden: bool)
    ensures
        hidden == is_hidden_name(name@),
{
    let mut it = name.chars();
    match it.next() {
        Some(first) => first == '.',
        None => false,
    }
}

/// Decides whether the walk keeps an entry and descends into it.
///
/// `file_name` is the last component of the entry's path where it has one
/// that is text, `path` the whole path as text.
pub fn keep_entry(file_name: Option<&str>, path: &str) -> (kept: bool)
    ensures
        kept == is_kept(
            match file_name {
                Some(name) => Some(name@),
                None => None,
            },
            path@,
        ),
        file_name matches Some(name) && is_hidden_name(name@) ==> !kept,
        in_dependency_cache(path@) ==> !kept,
{
    let hidden = match file_name {
        Some(name) => is_hidden(name),
        None => false,
    };
    !hidden && !contains(path, DEPENDENCY_CACHE_SEGMENT)
}

/// Tells whether a lower-case extension is a front-end source extension.
pub fn is_listed_extension(lowered: &str) -> (listed: bool)
    ensures
        listed == is_source_extension(lowered@),
{
    let chars = chars_of(lowered);
    same_text(&chars, "js") || same_text(&chars, "jsx") || same_text(&chars, "ts") || same_text(
        &chars,
        "tsx",
    )
}

/// Tells whether `chars` spells `word`.
fn same_text(chars: &Vec<char>, word: &str) -> (same: bool)
    ensures
        same == (chars@ == word@),
{
    let word = chars_of(word);
    if chars.len() != word.len() {
        return false;
    }
    let same = stands_at(chars, &word, 0);
    assert(chars@.subrange(0, chars.len() as int) =~= chars@);
    same
}

/// Tells whether an extension, in whatever case it is written, is a
/// front-end source extension.
pub fn has_source_extension(extension: &str) -> (listed: bool)
    ensures
        listed == is_source_extension(lowercase_of(extension@)),
{
    let lowered = to_lowercase(extension);
    is_listed_extension(lowered.as_str())
}

/// Decides whether a file is scanned.
pub fn scans_file(is_file: bool, extension: Option<&str>) -> (scanned: bool)
    ensures
        scanned == is_candidate(
            is_file,
            match extension {
                Some(text) => Some(text@),
                None => None,
            },
        ),
        !is_file ==> !scanned,
        extension is None ==> !scanned,
{
    match extension {
        Some(text) => is_file && has_source_extension(text),
        None => false,
    }
}

/// Decides whether a failure of the walk at `depth` ends the run, or only
/// drops the entry that failed.
pub fn is_fatal_failure(depth: usize) -> (fatal: bool)
    ensures
        fatal == is_fatal_at(depth as nat),
{
    depth == 0
}

} // verus!
