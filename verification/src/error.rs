//! Why the scan of a single file can fail.

use vstd::prelude::*;
use vstd::string::StringExecFns;

verus! {

/// A failure that is confined to one file: the file contributes no entries
/// and the scan of the other files goes on.
#[derive(Debug, Clone, PartialEq, Eq)]
pub enum ScanError {
    /// The file could not be read, or its bytes are not valid UTF-8.
    Unreadable { file_path: String },
    /// The stacking-order pattern was rejected by the regex engine.
    InvalidPattern { detail: String },
}

/// The text that introduces the path of an unreadable file.
pub open spec fn unreadable_prefix() -> Seq<char> {
    "Failed to read file: "@
}

impl ScanError {
    /// Model of [`ScanError::message`].
    pub open spec fn message_text(self) -> Seq<char> {
        match self {
            ScanError::Unreadable { file_path } => unreadable_prefix() + file_path@,
            ScanError::InvalidPattern { detail } => detail@,
        }
    }

    /// The human-readable description of the failure.
    pub fn message(&self) -> (text: String)
        ensures
            text@ == self.message_text(),
    {
        match self {
            ScanError::Unreadable { file_path } => {
                let mut text = String::from_str("Failed to read file: ");
                text.append(file_path.as_str());
                text
            },
            ScanError::InvalidPattern { detail } => detail.clone(),
        }
    }
}

} // verus!
