//! The line scanner: from the text of one file to the entries found in it.

use crate::entry::{entries_view, EntryView, ZIndexEntry};
use crate::error::ScanError;
use crate::pattern::{
    captures_view, first_participating, groups_view, matched_value, pattern_compiles,
    regex_captures, Matcher, Z_INDEX_PATTERN,
};
use crate::text::{lines_of, split_lines, strings_view};
use vstd::prelude::*;
use vstd::utf8::{decode_utf8, valid_utf8};

verus! {

/// The value recorded for `line`: that of the leftmost match of `pattern`,
/// or `None` where the pattern matches nowhere in the line.
pub open spec fn line_value(pattern: Seq<char>, line: Seq<char>) -> Option<Seq<char>> {
    match regex_captures(pattern, line) {
        Some(groups) => Some(first_participating(groups)),
        None => None,
    }
}

/// The entries of a file whose lines are `lines`: one for each line in which
/// `pattern` matches, in the order of the lines, numbered from 1.
pub open spec fn entries_of_lines(
    pattern: Seq<char>,
    file_path: Seq<char>,
    lines: Seq<Seq<char>>,
) -> Seq<EntryView>
    decreases lines.len(),
{
    if lines.len() == 0 {
        seq![]
    } else {
        let before = entries_of_lines(pattern, file_path, lines.drop_last());
        match line_value(pattern, lines.last()) {
            Some(value) => before.push(
                EntryView { file_path, z_index: value, line_number: lines.len() },
            ),
            None => before,
        }
    }
}

/// Whether every entry names a line of a file that has `line_count` lines.
pub open spec fn line_numbers_within(entries: Seq<EntryView>, line_count: nat) -> bool {
    forall|i: int|
        0 <= i < entries.len() ==> 1 <= (#[trigger] entries[i]).line_number <= line_count
}

/// Every entry of a file points at one of its lines, and at a line in which
/// the pattern matches; later entries point at later lines.
pub proof fn lemma_entries_point_into_the_file(
    pattern: Seq<char>,
    file_path: Seq<char>,
    lines: Seq<Seq<char>>,
)
    ensures
        entries_of_lines(pattern, file_path, lines).len() <= lines.len(),
        line_numbers_within(entries_of_lines(pattern, file_path, lines), lines.len()),
        forall|i: int|
            0 <= i < entries_of_lines(pattern, file_path, lines).len() ==> {
                let entry = #[trigger] entries_of_lines(pattern, file_path, lines)[i];
                &&& 1 <= entry.line_number <= lines.len()
                &&& entry.file_path == file_path
                &&& line_value(pattern, lines[entry.line_number - 1]) == Some(entry.z_index)
            },
        forall|i: int, j: int|
            0 <= i < j < entries_of_lines(pattern, file_path, lines).len() ==> (
            #[trigger] entries_of_lines(pattern, file_path, lines)[i]).line_number < (
            #[trigger] entries_of_lines(pattern, file_path, lines)[j]).line_number,
    decreases lines.len(),
{
    if lines.len() > 0 {
        lemma_entries_point_into_the_file(pattern, file_path, lines.drop_last());
    }
}

/// A line in which the pattern matches has an entry of its own.
pub proof fn lemma_matching_line_has_an_entry(
    pattern: Seq<char>,
    file_path: Seq<char>,
    lines: Seq<Seq<char>>,
    index: int,
)
    requires
        0 <= index < lines.len(),
        line_value(pattern, lines[index]) is Some,
    ensures
        entries_of_lines(pattern, file_path, lines).contains(
            EntryView {
                file_path,
                z_index: line_value(pattern, lines[index])->0,
                line_number: (index + 1) as nat,
            },
        ),
    decreases lines.len(),
{
    let all = entries_of_lines(pattern, file_path, lines);
    if index == lines.len() - 1 {
        assert(all.last() == EntryView {
            file_path,
            z_index: line_value(pattern, lines[index])->0,
            line_number: (index + 1) as nat,
        });
    } else {
        let shorter = lines.drop_last();
        lemma_matching_line_has_an_entry(pattern, file_path, shorter, index);
        let before = entries_of_lines(pattern, file_path, shorter);
        let wanted = EntryView {
            file_path,
            z_index: line_value(pattern, lines[index])->0,
            line_number: (index + 1) as nat,
        };
        let at = choose|at: int| 0 <= at < before.len() && before[at] == wanted;
        assert(all[at] == wanted);
    }
}

/// The entry for one line, given what the search of that line found.
pub fn entry_for_line(
    file_path: &str,
    line_number: usize,
    captured: Option<Vec<Option<String>>>,
) -> (entry: Option<ZIndexEntry>)
    ensures
        match captures_view(captured) {
            Some(groups) => entry is Some && entry->0@ == (EntryView {
                file_path: file_path@,
                z_index: first_participating(groups),
                line_number: line_number as nat,
            }),
            None => entry is None,
        },
{
    match captured {
        Some(groups) => Some(
            ZIndexEntry {
                file_path: file_path.to_owned(),
                z_index: matched_value(&groups),
                line_number,
            },
        ),
        None => None,
    }
}

/// Searches every line with `matcher` and collects the entries.
pub fn scan_lines(matcher: &Matcher, file_path: &str, lines: &Vec<String>) -> (entries: Vec<
    ZIndexEntry,
>)
    ensures
        entries_view(entries@) == entries_of_lines(
            matcher.source(),
            file_path@,
            strings_view(lines@),
        ),
        line_numbers_within(entries_view(entries@), lines@.len()),
{
    let mut entries: Vec<ZIndexEntry> = Vec::new();
    let mut i: usize = 0;
    while i < lines.len()
        invariant
            i <= lines.len(),
            entries_view(entries@) == entries_of_lines(
                matcher.source(),
                file_path@,
                strings_view(lines@).take(i as int),
            ),
        decreases lines.len() - i,
    {
        let captured = matcher.captures(lines[i].as_str());
        let ghost seen = strings_view(lines@).take(i + 1);
        proof {
            assert(seen.drop_last() =~= strings_view(lines@).take(i as int));
        }
        match entry_for_line(file_path, i + 1, captured) {
            Some(entry) => {
                entries.push(entry);
            },
            None => {},
        }
        i += 1;
    }
    proof {
        assert(strings_view(lines@).take(lines.len() as int) =~= strings_view(lines@));
        lemma_entries_point_into_the_file(matcher.source(), file_path@, strings_view(lines@));
    }
    entries
}

/// Scans `content` with the matcher that a compilation gave, or hands on
/// the error with which the compilation failed.
pub fn scan_with(made: Result<Matcher, ScanError>, file_path: &str, content: &str) -> (outcome:
    Result<Vec<ZIndexEntry>, ScanError>)
    ensures
        match made {
            Ok(matcher) => {
                &&& outcome is Ok
                &&& entries_view(outcome->Ok_0@) == entries_of_lines(
                    matcher.source(),
                    file_path@,
                    lines_of(content@),
                )
                &&& line_numbers_within(entries_view(outcome->Ok_0@), lines_of(content@).len())
            },
            Err(error) => outcome == Err::<Vec<ZIndexEntry>, ScanError>(error),
        },
{
    match made {
        Ok(matcher) => {
            let lines = split_lines(content);
            Ok(scan_lines(&matcher, file_path, &lines))
        },
        Err(error) => Err(error),
    }
}

/// Finds the stacking-order declarations in the text of one file.
///
/// The scan succeeds exactly when the regex engine accepts the
/// stacking-order pattern, and the entries are then those of
/// [`entries_of_lines`] for that pattern.
pub fn scan_content(file_path: &str, content: &str) -> (outcome: Result<
    Vec<ZIndexEntry>,
    ScanError,
>)
    ensures
        outcome is Ok <==> pattern_compiles(Z_INDEX_PATTERN@),
        outcome matches Ok(entries) ==> entries_view(entries@) == entries_of_lines(
            Z_INDEX_PATTERN@,
            file_path@,
            lines_of(content@),
        ),
        outcome matches Ok(entries) ==> line_numbers_within(
            entries_view(entries@),
            lines_of(content@).len(),
        ),
        outcome matches Err(error) ==> error is InvalidPattern,
{
    scan_with(Matcher::new(Z_INDEX_PATTERN), file_path, content)
}

/// `String::from_utf8` turns bytes into a string exactly when they are
/// valid UTF-8, and the string then holds the characters they encode.
#[verifier::external_body]
fn decode_text(bytes: Vec<u8>) -> (text: Option<String>)
    ensures
        text is Some <==> valid_utf8(bytes@),
        text matches Some(decoded) ==> decoded@ == decode_utf8(bytes@),
{
    String::from_utf8(bytes).ok()
}

/// Finds the stacking-order declarations in the bytes of one file.
///
/// Bytes that are not valid UTF-8 make the whole file unreadable; otherwise
/// the decoded text is scanned as [`scan_content`] does.
pub fn scan_bytes(file_path: &str, bytes: Vec<u8>) -> (outcome: Result<Vec<ZIndexEntry>, ScanError>)
    ensures
        !valid_utf8(bytes@) ==> (outcome matches Err(ScanError::Unreadable { file_path: path })
            && path@ == file_path@),
        valid_utf8(bytes@) ==> (outcome is Ok <==> pattern_compiles(Z_INDEX_PATTERN@)),
        valid_utf8(bytes@) ==> (outcome matches Ok(entries) ==> entries_view(entries@)
            == entries_of_lines(Z_INDEX_PATTERN@, file_path@, lines_of(decode_utf8(bytes@)))),
        valid_utf8(bytes@) ==> (outcome matches Ok(entries) ==> line_numbers_within(
            entries_view(entries@),
            lines_of(decode_utf8(bytes@)).len(),
        )),
        valid_utf8(bytes@) ==> (outcome matches Err(error) ==> error is InvalidPattern),
{
    match decode_text(bytes) {
        Some(content) => scan_content(file_path, content.as_str()),
        None => Err(ScanError::Unreadable { file_path: file_path.to_owned() }),
    }
}

} // verus!
