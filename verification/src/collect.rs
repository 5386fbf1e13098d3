//! Gathering the outcomes of the single files: entries go into the
//! collection, a failure becomes a diagnostic line and nothing else.

use crate::entry::ZIndexEntry;
use crate::error::ScanError;
use vstd::prelude::*;
use vstd::string::StringExecFns;

verus! {

/// The diagnostic line for a file whose scan failed with `error`.
pub open spec fn diagnostic_text(file_path: Seq<char>, error: ScanError) -> Seq<char> {
    "Error scanning "@ + file_path + ": "@ + error.message_text()
}

/// Words the diagnostic line for a file whose scan failed.
pub fn diagnostic(file_path: &str, error: &ScanError) -> (line: String)
    ensures
        line@ == diagnostic_text(file_path@, *error),
{
    let mut line = String::from_str("Error scanning ");
    line.append(file_path);
    line.append(": ");
    line.append(error.message().as_str());
    line
}

/// Takes the outcome of one file's scan into the collection.
///
/// The entries of a file that was scanned are added behind those collected
/// so far. A file whose scan failed adds nothing and takes nothing away: it
/// gives the diagnostic line to report, and the scan goes on.
pub fn absorb(
    collected: &mut Vec<ZIndexEntry>,
    file_path: &str,
    outcome: Result<Vec<ZIndexEntry>, ScanError>,
) -> (report: Option<String>)
    ensures
        match outcome {
            Ok(entries) => final(collected)@ == old(collected)@ + entries@ && report is None,
            Err(error) => final(collected)@ == old(collected)@ && report is Some && report->0@
                == diagnostic_text(file_path@, error),
        },
{
    match outcome {
        Ok(entries) => {
            let mut found = entries;
            collected.append(&mut found);
            None
        },
        Err(error) => Some(diagnostic(file_path, &error)),
    }
}

} // verus!
