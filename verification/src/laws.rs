//! What holds of archiving and extracting, each alone and together.

use crate::archiver::archiving_of;
use crate::archiver::child_entry;
use crate::archiver::child_failure;
use crate::archiver::storable_up_to;
use crate::archiver::stored_entries;
use crate::archiver::Archiving;
use crate::archiver::Child;
use crate::archiver::Listing;
use crate::audit::read_back;
use crate::container::finished_container;
use crate::container::parsed_container;
use crate::container::MAX_ENTRY_BYTES;
use crate::error::Failure;
use crate::extractor::entry_step;
use crate::extractor::extract_outcome;
use crate::extractor::extraction_of;
use crate::extractor::step_models;
use crate::extractor::usable;
use crate::extractor::usable_up_to;
use crate::extractor::ArchiveFile;
use crate::extractor::Extraction;
use crate::extractor::StepModel;
use crate::names::entry_path_of;
use crate::names::names_directory;
use crate::names::parent_path_of;
use vstd::prelude::*;

verus! {

/// Whether the children are those of a flat directory: regular files only,
/// none with a name that ends with the separator, none too large for an
/// entry.
pub open spec fn flat(children: Seq<Child>) -> bool {
    forall|i: int|
        0 <= i < children.len() ==> (#[trigger] children[i] matches Child::File { name, content }
            && !names_directory(name@) && content@.len() <= MAX_ENTRY_BYTES)
}

/// Archiving is determined by the listing: two outcomes for the same listing
/// have the same archive and the same failure.
pub proof fn lemma_archiving_determined(listing: Listing, first: Archiving, second: Archiving)
    requires
        archiving_of(listing, first),
        archiving_of(listing, second),
    ensures
        first.failure == second.failure,
        first.archive is Some <==> second.archive is Some,
        first.archive matches Some(a) ==> second.archive matches Some(b) && a@ == b@,
{
    if let Listing::Children(children) = listing {
        let n = children@.len() as int;
        let k1 = if first.failure is Some { first.failure->0.entry->0 as int } else { n };
        let k2 = if second.failure is Some { second.failure->0.entry->0 as int } else { n };
        if k1 < k2 {
            assert(child_failure(children@[k1]) is None);
        } else if k2 < k1 {
            assert(child_failure(children@[k2]) is None);
        }
    }
}

/// Archiving a listing of which no child stops it fails nowhere, and the
/// archive holds the entries of all the children.
pub proof fn lemma_storable_listing_is_archived(children: Vec<Child>, r: Archiving)
    requires
        archiving_of(Listing::Children(children), r),
        storable_up_to(children@, children@.len() as int),
    ensures
        r.failure is None,
        r.archive matches Some(bytes) && bytes@ == finished_container(stored_entries(children@)),
{
    if r.failure is Some {
        let k = r.failure->0.entry->0 as int;
        assert(child_failure(children@[k]) is None);
    }
    assert(children@.take(children@.len() as int) =~= children@);
}

/// Where every child is a file or a directory, archiving stores exactly one
/// entry per child, in the order of the children, and nothing else.
pub proof fn lemma_one_entry_per_child(children: Seq<Child>)
    requires
        forall|i: int| 0 <= i < children.len() ==> child_entry(#[trigger] children[i]) is Some,
    ensures
        stored_entries(children).len() == children.len(),
        forall|i: int|
            0 <= i < children.len() ==> #[trigger] stored_entries(children)[i] == child_entry(
                children[i],
            )->0,
    decreases children.len(),
{
    if children.len() > 0 {
        let before = children.drop_last();
        assert forall|i: int| 0 <= i < before.len() implies child_entry(
            #[trigger] before[i],
        ) is Some by {
            assert(before[i] == children[i]);
        }
        lemma_one_entry_per_child(before);
        assert(children.last() == children[children.len() - 1]);
        assert forall|i: int| 0 <= i < children.len() implies #[trigger] stored_entries(
            children,
        )[i] == child_entry(children[i])->0 by {
            if i < before.len() {
                assert(before[i] == children[i]);
                assert(stored_entries(children)[i] == stored_entries(before)[i]);
            }
        }
    }
}

/// Extraction is determined by the entries: two outcomes for the same
/// entries under the same root have the same steps and the same failure.
pub proof fn lemma_extraction_determined(
    root: Seq<char>,
    entries: Seq<(Option<Seq<char>>, Option<Seq<u8>>)>,
    steps1: Seq<StepModel>,
    failure1: Option<Failure>,
    steps2: Seq<StepModel>,
    failure2: Option<Failure>,
)
    requires
        extraction_of(root, entries, steps1, failure1),
        extraction_of(root, entries, steps2, failure2),
    ensures
        steps1 == steps2,
        failure1 == failure2,
{
    if steps1.len() < steps2.len() {
        assert(usable(entries[steps1.len() as int]));
    } else if steps2.len() < steps1.len() {
        assert(usable(entries[steps2.len() as int]));
    }
    assert(steps1 =~= steps2);
}

/// Extracting an archive of which every entry can be used fails nowhere and
/// recreates each entry, in container order, at its name under the root: a
/// directory for a name that ends with the separator, and for every other
/// name a file that holds the entry's bytes unchanged.
pub proof fn lemma_extraction_recreates_entries(
    root: Seq<char>,
    entries: Seq<(Option<Seq<char>>, Option<Seq<u8>>)>,
    steps: Seq<StepModel>,
    failure: Option<Failure>,
)
    requires
        extraction_of(root, entries, steps, failure),
        usable_up_to(entries, entries.len() as int),
    ensures
        failure is None,
        steps.len() == entries.len(),
        forall|i: int|
            0 <= i < entries.len() ==> {
                let name = entries[i].0->0;
                let path = entry_path_of(root, name);
                #[trigger] steps[i] == if names_directory(name) {
                    StepModel::CreateDir { entry: i, path }
                } else {
                    StepModel::WriteFile {
                        entry: i,
                        path,
                        parent: parent_path_of(path),
                        data: entries[i].1->0,
                    }
                }
            },
{
    if failure is Some {
        assert(usable(entries[steps.len() as int]));
    }
    assert forall|i: int| 0 <= i < entries.len() implies {
        let name = entries[i].0->0;
        let path = entry_path_of(root, name);
        #[trigger] steps[i] == if names_directory(name) {
            StepModel::CreateDir { entry: i, path }
        } else {
            StepModel::WriteFile {
                entry: i,
                path,
                parent: parent_path_of(path),
                data: entries[i].1->0,
            }
        }
    } by {
        assert(steps[i] == entry_step(root, i, entries[i]));
    }
}

/// Round trip. Take a flat directory, what archiving it came to, and what
/// extracting the archive under a root came to. The archiving fails nowhere.
/// Where the archive reads back as stored, which `reads_back_as_stored`
/// tells, the extraction fails nowhere either and writes one file per file
/// of the directory, in order, at the file's name under the root and with
/// the file's bytes.
pub proof fn lemma_round_trip(
    children: Vec<Child>,
    archiving: Archiving,
    root: Seq<char>,
    extraction: Extraction,
)
    requires
        flat(children@),
        archiving_of(Listing::Children(children), archiving),
        archiving.archive matches Some(archive) ==> {
            &&& parsed_container(archive@) == Some(read_back(stored_entries(children@)))
            &&& extract_outcome(root, ArchiveFile::Bytes(archive), extraction)
        },
    ensures
        archiving.failure is None,
        archiving.archive is Some,
        extraction.failure is None,
        extraction.steps@.len() == children@.len(),
        forall|i: int|
            0 <= i < children@.len() ==> {
                let path = entry_path_of(root, children@[i]->File_name@);
                (#[trigger] extraction.steps@[i])@ == StepModel::WriteFile {
                    entry: i,
                    path,
                    parent: parent_path_of(path),
                    data: children@[i]->content@,
                }
            },
{
    assert(storable_up_to(children@, children@.len() as int));
    lemma_storable_listing_is_archived(children, archiving);
    let stored = stored_entries(children@);
    let entries = read_back(stored);
    let steps = step_models(extraction.steps@);
    lemma_one_entry_per_child(children@);
    assert(usable_up_to(entries, entries.len() as int)) by {
        assert forall|i: int| 0 <= i < entries.len() implies usable(#[trigger] entries[i]) by {
            assert(entries[i].0 == Some(stored[i].0));
        }
    }
    lemma_extraction_recreates_entries(root, entries, steps, extraction.failure);
    assert forall|i: int| 0 <= i < children@.len() implies {
        let path = entry_path_of(root, children@[i]->File_name@);
        (#[trigger] extraction.steps@[i])@ == StepModel::WriteFile {
            entry: i,
            path,
            parent: parent_path_of(path),
            data: children@[i]->content@,
        }
    } by {
        assert(steps[i] == extraction.steps@[i]@);
        assert(entries[i] == (Some(stored[i].0), Some(stored[i].3)));
        assert(stored[i] == child_entry(children@[i])->0);
        assert(!names_directory(children@[i]->File_name@));
    }
}

} // verus!
