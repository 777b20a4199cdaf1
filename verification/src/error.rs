//! What can go wrong while archiving or extracting, and at which entry.

use vstd::prelude::*;

verus! {

/// The kinds of failure an operation reports.
#[derive(Clone, Copy, Debug, PartialEq, Eq, Structural)]
pub enum ArchiveError {
    /// The source directory, one of its children, or the archive file could
    /// not be read.
    SourceUnreadable,
    /// The output archive could not be created.
    TargetUnwritable,
    /// The bytes are not a readable archive, or one of its entries cannot be
    /// read back.
    ArchiveCorrupt,
    /// An entry could not be written.
    EntryWriteFailed,
}

impl ArchiveError {
    /// The words that name a kind of failure.
    pub open spec fn label_of(self) -> Seq<char> {
        match self {
            ArchiveError::SourceUnreadable => "source unreadable"@,
            ArchiveError::TargetUnwritable => "target unwritable"@,
            ArchiveError::ArchiveCorrupt => "archive corrupt"@,
            ArchiveError::EntryWriteFailed => "entry write failed"@,
        }
    }

    /// Names the kind of failure in words, for a status line.
    pub fn label(&self) -> (r: &'static str)
        ensures
            r@ == self.label_of(),
    {
        match self {
            ArchiveError::SourceUnreadable => "source unreadable",
            ArchiveError::TargetUnwritable => "target unwritable",
            ArchiveError::ArchiveCorrupt => "archive corrupt",
            ArchiveError::EntryWriteFailed => "entry write failed",
        }
    }
}

/// A failure together with the position of the entry it stopped at, where it
/// stopped at one.
#[derive(Clone, Copy, Debug, PartialEq, Eq)]
pub struct Failure {
    pub kind: ArchiveError,
    pub entry: Option<usize>,
}

} // verus!
