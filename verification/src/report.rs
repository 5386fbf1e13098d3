//! The report: a banner, then one block of three lines and a blank line for
//! every entry, highest value first.

use crate::entry::{entries_view, EntryView, ZIndexEntry};
use crate::number::{decimal, decimal_text};
use crate::sort::{
    is_stable_sort_of, lemma_stable_sort_exists, lemma_stable_sort_is_unique, sort_entries,
};
use vstd::prelude::*;
use vstd::string::StringExecFns;

verus! {

/// The banner: a blank line, the title and its underline.
pub open spec fn banner_text() -> Seq<char> {
    "\nZ-Index Tree:\n=============\n"@
}

/// The block of one entry: its value, its file, its line and a blank line.
pub open spec fn block_text(entry: EntryView) -> Seq<char> {
    "z-"@ + entry.z_index + "\n  ├─ File: "@ + entry.file_path + "\n  └─ Line: "@ + decimal_text(
        entry.line_number,
    ) + "\n\n"@
}

/// The blocks of `entries`, one after the other.
pub open spec fn blocks_text(entries: Seq<EntryView>) -> Seq<char>
    decreases entries.len(),
{
    if entries.len() == 0 {
        Seq::empty()
    } else {
        blocks_text(entries.drop_last()) + block_text(entries.last())
    }
}

/// The report that shows `entries` in the order in which they stand.
pub open spec fn report_text(entries: Seq<EntryView>) -> Seq<char> {
    banner_text() + blocks_text(entries)
}

/// The entries of `unsorted` in the order of the report.
pub open spec fn report_order(unsorted: Seq<EntryView>) -> Seq<EntryView> {
    choose|sorted: Seq<EntryView>| is_stable_sort_of(sorted, unsorted)
}

/// The order of the report is the stable sort of the entries.
pub proof fn lemma_report_order_is_stable_sort(unsorted: Seq<EntryView>)
    ensures
        is_stable_sort_of(report_order(unsorted), unsorted),
{
    lemma_stable_sort_exists(unsorted);
}

/// The report is settled by the entries that were collected: however they
/// were sorted, a stable sort by descending key shows them as the same text.
pub proof fn lemma_report_is_determined(
    first: Seq<EntryView>,
    second: Seq<EntryView>,
    unsorted: Seq<EntryView>,
)
    requires
        is_stable_sort_of(first, unsorted),
        is_stable_sort_of(second, unsorted),
    ensures
        report_text(first) == report_text(second),
        report_text(first) == report_text(report_order(unsorted)),
{
    lemma_stable_sort_is_unique(first, second, unsorted);
    lemma_stable_sort_is_unique(first, report_order(unsorted), unsorted);
}

/// Renders the block of one entry.
pub fn render_entry(entry: &ZIndexEntry) -> (text: String)
    ensures
        text@ == block_text(entry@),
{
    let mut text = String::from_str("z-");
    text.append(entry.z_index.as_str());
    text.append("\n  ├─ File: ");
    text.append(entry.file_path.as_str());
    text.append("\n  └─ Line: ");
    text.append(decimal(entry.line_number).as_str());
    text.append("\n\n");
    text
}

/// Renders the report for entries that are already in order.
pub fn render_report(entries: &Vec<ZIndexEntry>) -> (text: String)
    ensures
        text@ == report_text(entries_view(entries@)),
{
    let mut text = String::from_str("\nZ-Index Tree:\n=============\n");
    let mut i: usize = 0;
    while i < entries.len()
        invariant
            i <= entries.len(),
            text@ == report_text(entries_view(entries@).take(i as int)),
        decreases entries.len() - i,
    {
        let block = render_entry(&entries[i]);
        proof {
            let shown = entries_view(entries@).take(i + 1);
            assert(shown.drop_last() =~= entries_view(entries@).take(i as int));
        }
        text.append(block.as_str());
        i += 1;
    }
    assert(entries_view(entries@).take(entries.len() as int) =~= entries_view(entries@));
    text
}

/// Sorts the collected entries and renders the report.
pub fn build_report(entries: Vec<ZIndexEntry>) -> (text: String)
    ensures
        text@ == report_text(report_order(entries_view(entries@))),
{
    let ghost unsorted = entries_view(entries@);
    let sorted = sort_entries(entries);
    proof {
        lemma_report_is_determined(entries_view(sorted@), entries_view(sorted@), unsorted);
    }
    render_report(&sorted)
}

} // verus!
