//! Archiving: one stored entry for each immediate child of a source
//! directory.

use crate::container::accepting;
use crate::container::directory_mode;
use crate::container::file_mode;
use crate::container::finished_container;
use crate::container::writer_add_directory;
use crate::container::writer_finish;
use crate::container::writer_new;
use crate::container::writer_start_file;
use crate::container::writer_write;
use crate::container::written;
use crate::container::ContainerWriter;
use crate::container::MAX_ENTRY_BYTES;
use crate::container::STORED;
use crate::error::ArchiveError;
use crate::error::Failure;
use crate::names::directory_entry_name;
use crate::names::directory_marker;
use vstd::prelude::*;

verus! {

/// The unix permissions recorded for every entry.
pub const ENTRY_PERMISSIONS: u32 = 0o755;

/// An immediate child of the source directory, as enumerating and reading it
/// gave it.
#[derive(Debug)]
pub enum Child {
    /// A regular file with its name relative to the source and its bytes.
    File { name: String, content: Vec<u8> },
    /// A directory with its name relative to the source. What lies inside it
    /// is not looked at.
    Directory { name: String },
    /// Neither a regular file nor a directory: left out of the archive.
    Other,
    /// A child that could not be enumerated or opened.
    Unreadable,
}

/// What enumerating the source directory gave.
#[derive(Debug)]
pub enum Listing {
    /// The source could not be read as a directory.
    Unreadable,
    /// The immediate children, in the order they were enumerated.
    Children(Vec<Child>),
}

/// What archiving comes to: the archive, holding the entries stored before
/// anything failed, and the failure that cut it short, if one did. There is
/// no archive where the source itself could not be read.
#[derive(Debug, PartialEq, Eq)]
pub struct Archiving {
    pub archive: Option<Vec<u8>>,
    pub failure: Option<Failure>,
}

impl Archiving {
    /// The failure to report once the archive was handed to the disk.
    /// `written` tells whether writing it went well, and is `None` where
    /// there was no archive to write. A target that could not be written is
    /// reported first; else the failure of the archiving itself, if there was
    /// one.
    pub fn after_write(&self, written: Option<bool>) -> (r: Option<Failure>)
        ensures
            r == if written == Some(false) {
                Some(Failure { kind: ArchiveError::TargetUnwritable, entry: None })
            } else {
                self.failure
            },
    {
        match written {
            Some(false) => Some(Failure { kind: ArchiveError::TargetUnwritable, entry: None }),
            _ => self.failure,
        }
    }
}

/// The entry that stands for a child in the archive, if it gets one: a file
/// under its name with its bytes, a directory under its marker name without
/// bytes, both with the stored method.
pub open spec fn child_entry(child: Child) -> Option<(Seq<char>, u32, u16, Seq<u8>)> {
    match child {
        Child::File { name, content } => Some(
            (name@, file_mode(ENTRY_PERMISSIONS), STORED, content@),
        ),
        Child::Directory { name } => Some(
            (
                directory_marker(name@),
                directory_mode(ENTRY_PERMISSIONS),
                STORED,
                Seq::<u8>::empty(),
            ),
        ),
        Child::Other => None,
        Child::Unreadable => None,
    }
}

/// The entries that archiving these children stores, in their order: one for
/// each file and each directory, none for anything else.
pub open spec fn stored_entries(children: Seq<Child>) -> Seq<(Seq<char>, u32, u16, Seq<u8>)>
    decreases children.len(),
{
    if children.len() == 0 {
        Seq::empty()
    } else {
        let before = stored_entries(children.drop_last());
        match child_entry(children.last()) {
            Some(entry) => before.push(entry),
            None => before,
        }
    }
}

/// Why a child stops the archiving, if it does: it could not be read, or it
/// is a file with more bytes than an entry takes.
pub open spec fn child_failure(child: Child) -> Option<ArchiveError> {
    match child {
        Child::Unreadable => Some(ArchiveError::SourceUnreadable),
        Child::File { name, content } => if content@.len() > MAX_ENTRY_BYTES {
            Some(ArchiveError::EntryWriteFailed)
        } else {
            None
        },
        _ => None,
    }
}

/// Whether none of the first `n` children stops the archiving.
pub open spec fn storable_up_to(children: Seq<Child>, n: int) -> bool {
    forall|i: int| 0 <= i < n && i < children.len() ==> child_failure(#[trigger] children[i]) is None
}

/// Whether `r` is what archiving a listing comes to. A source that could not
/// be read gives no archive. Otherwise the archive holds the entries of the
/// children before the first one that stops the archiving, or of all of them,
/// and the failure names that child and says why it stopped.
pub open spec fn archiving_of(listing: Listing, r: Archiving) -> bool {
    match listing {
        Listing::Unreadable => {
            &&& r.archive is None
            &&& r.failure == Some(Failure { kind: ArchiveError::SourceUnreadable, entry: None })
        },
        Listing::Children(children) => {
            let stored = match r.failure {
                Some(failure) => failure.entry->0 as int,
                None => children@.len() as int,
            };
            &&& r.failure matches Some(failure) ==> {
                &&& failure.entry is Some
                &&& stored < children@.len()
                &&& child_failure(children@[stored]) == Some(failure.kind)
            }
            &&& storable_up_to(children@, stored)
            &&& r.archive matches Some(bytes)
            &&& bytes@ == finished_container(stored_entries(children@.take(stored)))
        },
    }
}

/// Hands one child to the writer, unless it is one that stops the archiving.
fn store_child(w: &mut ContainerWriter, child: &Child) -> (r: Option<ArchiveError>)
    requires
        accepting(*old(w)),
    ensures
        r == child_failure(*child),
        accepting(*final(w)),
        written(*final(w)) == match r {
            Some(_) => written(*old(w)),
            None => match child_entry(*child) {
                Some(entry) => written(*old(w)).push(entry),
                None => written(*old(w)),
            },
        },
{
    match child {
        Child::File { name, content } => {
            if content.len() > MAX_ENTRY_BYTES {
                return Some(ArchiveError::EntryWriteFailed);
            }
            let started = writer_start_file(w, name.as_str(), ENTRY_PERMISSIONS, STORED);
            let filled = writer_write(w, content.as_slice());
            assert(started is Ok && filled is Ok);
            assert(written(*w) =~= written(*old(w)).push(child_entry(*child)->0));
            None
        },
        Child::Directory { name } => {
            let marker = directory_entry_name(name.as_str());
            let added = writer_add_directory(w, marker.as_str(), ENTRY_PERMISSIONS);
            assert(added is Ok);
            None
        },
        Child::Other => None,
        Child::Unreadable => Some(ArchiveError::SourceUnreadable),
    }
}

/// Builds the archive for a source directory: its immediate children in
/// order, files stored with their bytes, directories as markers, everything
/// else skipped. Stops at the first child that cannot be read or is too large
/// for an entry and reports its position; the entries stored before it stay
/// in the archive.
pub fn compress(listing: &Listing) -> (r: Archiving)
    ensures
        archiving_of(*listing, r),
{
    let children = match listing {
        Listing::Unreadable => {
            return Archiving {
                archive: None,
                failure: Some(Failure { kind: ArchiveError::SourceUnreadable, entry: None }),
            };
        },
        Listing::Children(children) => children,
    };
    let mut w = writer_new();
    let mut failure: Option<Failure> = None;
    let mut i: usize = 0;
    while i < children.len() && failure.is_none()
        invariant
            i <= children@.len(),
            accepting(w),
            storable_up_to(children@, i as int),
            written(w) == stored_entries(children@.take(i as int)),
            failure matches Some(f) ==> {
                &&& f.entry == Some(i)
                &&& i < children@.len()
                &&& child_failure(children@[i as int]) == Some(f.kind)
            },
        decreases children@.len() - i + if failure is None { 1int } else { 0int },
    {
        match store_child(&mut w, &children[i]) {
            Some(kind) => {
                failure = Some(Failure { kind, entry: Some(i) });
            },
            None => {
                proof {
                    assert(children@.take(i + 1).drop_last() =~= children@.take(i as int));
                    assert(children@.take(i + 1).last() == children@[i as int]);
                }
                i += 1;
            },
        }
    }
    let archive = match writer_finish(&mut w) {
        Ok(bytes) => Some(bytes),
        Err(_) => None,
    };
    Archiving { archive, failure }
}

} // verus!
