//! Comparing an archive with the children it was made from.

use crate::archiver::child_entry;
use crate::archiver::stored_entries;
use crate::archiver::Child;
use crate::container::archive_entries;
use crate::container::archive_entry_data;
use crate::container::archive_entry_name;
use crate::container::archive_len;
use crate::container::archive_open;
use crate::container::parsed_container;
use crate::names::directory_entry_name;
use std::io::Cursor;
use vstd::prelude::*;
use vstd::string::*;
use zip::ZipArchive;

verus! {

/// What a reader that gives back every stored entry whole makes of them:
/// each name and each entry's bytes, in order.
pub open spec fn read_back(stored: Seq<(Seq<char>, u32, u16, Seq<u8>)>) -> Seq<
    (Option<Seq<char>>, Option<Seq<u8>>),
> {
    Seq::new(stored.len(), |i: int| (Some(stored[i].0), Some(stored[i].3)))
}

/// The entries stored for the first children are the first of the entries
/// stored for all of them.
pub proof fn lemma_stored_entries_grow(children: Seq<Child>, n: int)
    requires
        0 <= n <= children.len(),
    ensures
        stored_entries(children.take(n)).is_prefix_of(stored_entries(children)),
    decreases children.len() - n,
{
    if n < children.len() {
        lemma_stored_entries_grow(children, n + 1);
        assert(children.take(n + 1).drop_last() =~= children.take(n));
    } else {
        assert(children.take(n) =~= children);
    }
}

/// Tells whether two runs of bytes are the same.
fn same_bytes(a: &[u8], b: &[u8]) -> (r: bool)
    ensures
        r == (a@ == b@),
{
    if a.len() != b.len() {
        return false;
    }
    let mut i: usize = 0;
    while i < a.len()
        invariant
            a@.len() == b@.len(),
            i <= a@.len(),
            forall|k: int| 0 <= k < i ==> a@[k] == b@[k],
        decreases a@.len() - i,
    {
        if a[i] != b[i] {
            return false;
        }
        i += 1;
    }
    assert(a@ =~= b@);
    true
}

/// Tells whether the entry at `index` opens under this name and reads back
/// these bytes.
fn entry_is(opened: &mut ZipArchive<Cursor<Vec<u8>>>, index: usize, name: &str, data: &[u8]) -> (r:
    bool)
    requires
        index < archive_entries(*old(opened)).len(),
    ensures
        archive_entries(*final(opened)) == archive_entries(*old(opened)),
        r == (archive_entries(*old(opened))[index as int] == (Some(name@), Some(data@))),
{
    let found = match archive_entry_name(opened, index) {
        Ok(found) => found,
        Err(_) => {
            return false;
        },
    };
    let expected = String::from_str(name);
    if found != expected {
        return false;
    }
    match archive_entry_data(opened, index) {
        Ok(bytes) => same_bytes(bytes.as_slice(), data),
        Err(_) => false,
    }
}

/// Tells whether an archive reads back exactly what archiving these children
/// stores: as many entries, and each with the name and the bytes of its
/// child, in order.
pub fn reads_back_as_stored(archive: Vec<u8>, children: &Vec<Child>) -> (r: bool)
    ensures
        r == (parsed_container(archive@) == Some(read_back(stored_entries(children@)))),
{
    let mut opened = match archive_open(archive) {
        Ok(opened) => opened,
        Err(_) => {
            return false;
        },
    };
    let n = archive_len(&opened);
    let ghost expected = read_back(stored_entries(children@));
    let mut found: usize = 0;
    let mut i: usize = 0;
    while i < children.len()
        invariant
            parsed_container(archive@) == Some(archive_entries(opened)),
            n == archive_entries(opened).len(),
            expected == read_back(stored_entries(children@)),
            i <= children@.len(),
            found <= n,
            found == stored_entries(children@.take(i as int)).len(),
            forall|t: int| 0 <= t < found ==> archive_entries(opened)[t] == #[trigger] expected[t],
        decreases children@.len() - i,
    {
        proof {
            lemma_stored_entries_grow(children@, i + 1);
            assert(children@.take(i + 1).drop_last() =~= children@.take(i as int));
            assert(children@.take(i + 1).last() == children@[i as int]);
        }
        let same = match &children[i] {
            Child::File { name, content } => Some(
                found < n && entry_is(&mut opened, found, name.as_str(), content.as_slice()),
            ),
            Child::Directory { name } => {
                let marker = directory_entry_name(name.as_str());
                let nothing: Vec<u8> = Vec::new();
                Some(found < n && entry_is(&mut opened, found, marker.as_str(), nothing.as_slice()))
            },
            _ => None,
        };
        proof {
            if child_entry(children@[i as int]) is Some {
                let entry = child_entry(children@[i as int])->0;
                let upto = stored_entries(children@.take(i + 1));
                assert(upto[found as int] == entry);
                assert(stored_entries(children@)[found as int] == entry);
                assert(expected[found as int] == (Some(entry.0), Some(entry.3)));
            }
        }
        match same {
            Some(true) => {
                found += 1;
            },
            Some(false) => {
                return false;
            },
            None => {},
        }
        i += 1;
    }
    proof {
        assert(children@.take(i as int) =~= children@);
        if found == n {
            assert(archive_entries(opened) =~= expected);
        }
    }
    found == n
}

} // verus!
