//! The record produced for every line that declares a stacking order.

use vstd::prelude::*;

verus! {

/// One stacking-order declaration found in a source file.
#[derive(Debug, Clone, PartialEq, Eq)]
pub struct ZIndexEntry {
    /// Path of the file in which the declaration was found.
    pub file_path: String,
    /// The declared value, exactly as it is written in the source.
    pub z_index: String,
    /// 1-based number of the line that holds the declaration.
    pub line_number: usize,
}

/// Mathematical model of a [`ZIndexEntry`].
pub struct EntryView {
    pub file_path: Seq<char>,
    pub z_index: Seq<char>,
    pub line_number: nat,
}

impl View for ZIndexEntry {
    type V = EntryView;

    open spec fn view(&self) -> EntryView {
        EntryView {
            file_path: self.file_path@,
            z_index: self.z_index@,
            line_number: self.line_number as nat,
        }
    }
}

/// The models of a sequence of entries, in the same order.
pub open spec fn entries_view(entries: Seq<ZIndexEntry>) -> Seq<EntryView> {
    entries.map_values(|e: ZIndexEntry| e@)
}

impl ZIndexEntry {
    /// Builds an entry from borrowed text.
    pub fn new(file_path: &str, z_index: &str, line_number: usize) -> (entry: ZIndexEntry)
        ensures
            entry@ == (EntryView {
                file_path: file_path@,
                z_index: z_index@,
                line_number: line_number as nat,
            }),
    {
        ZIndexEntry {
            file_path: file_path.to_owned(),
            z_index: z_index.to_owned(),
            line_number,
        }
    }
}

} // verus!
