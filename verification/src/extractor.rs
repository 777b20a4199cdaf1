//! Extracting: one step for each entry of a container, in container order.

use crate::container::archive_entries;
use crate::container::archive_entry_data;
use crate::container::archive_entry_name;
use crate::container::archive_len;
use crate::container::archive_open;
use crate::container::parsed_container;
use crate::error::ArchiveError;
use crate::error::Failure;
use crate::names::entry_path;
use crate::names::entry_path_of;
use crate::names::is_directory_name;
use crate::names::names_directory;
use crate::names::parent_path;
use crate::names::parent_path_of;
use vstd::prelude::*;

verus! {

/// The archive file, as reading it gave it.
#[derive(Debug)]
pub enum ArchiveFile {
    /// The file could not be read.
    Unreadable,
    /// The file's bytes.
    Bytes(Vec<u8>),
}

/// One thing to do on disk for one entry.
#[derive(Debug, PartialEq, Eq)]
pub enum ExtractStep {
    /// Make the directory at `path`, with any ancestor that is missing.
    CreateDir { entry: usize, path: String },
    /// Make sure `parent` exists where there is one, then create the file at
    /// `path` and fill it with `data`.
    WriteFile { entry: usize, path: String, parent: Option<String>, data: Vec<u8> },
}

/// A step as a plain value.
pub enum StepModel {
    CreateDir { entry: int, path: Seq<char> },
    WriteFile { entry: int, path: Seq<char>, parent: Option<Seq<char>>, data: Seq<u8> },
}

impl View for ExtractStep {
    type V = StepModel;

    open spec fn view(&self) -> StepModel {
        match *self {
            ExtractStep::CreateDir { entry, path } => StepModel::CreateDir {
                entry: entry as int,
                path: path@,
            },
            ExtractStep::WriteFile { entry, path, parent, data } => StepModel::WriteFile {
                entry: entry as int,
                path: path@,
                parent: match parent {
                    Some(p) => Some(p@),
                    None => None,
                },
                data: data@,
            },
        }
    }
}

/// What extracting an archive comes to: the steps to take, in order, and the
/// failure that cut them short, if one did. The steps before a failure stand.
#[derive(Debug)]
pub struct Extraction {
    pub steps: Vec<ExtractStep>,
    pub failure: Option<Failure>,
}

/// The position of the entry a step is for.
pub open spec fn entry_of(step: ExtractStep) -> usize {
    match step {
        ExtractStep::CreateDir { entry, .. } => entry,
        ExtractStep::WriteFile { entry, .. } => entry,
    }
}

impl Extraction {
    /// The failure to report once the steps were carried out. `failed` is
    /// the place of the first step that could not be carried out, if there
    /// was one: its entry is reported as not written. Else the failure of the
    /// extraction itself is reported, if there was one.
    pub fn after_steps(&self, failed: Option<usize>) -> (r: Option<Failure>)
        ensures
            r == match failed {
                Some(k) if k < self.steps@.len() => Some(
                    Failure {
                        kind: ArchiveError::EntryWriteFailed,
                        entry: Some(entry_of(self.steps@[k as int])),
                    },
                ),
                _ => self.failure,
            },
    {
        match failed {
            Some(k) if k < self.steps.len() => Some(step_failure(&self.steps[k])),
            _ => self.failure,
        }
    }
}

/// The steps of a sequence, each as a plain value.
pub open spec fn step_models(steps: Seq<ExtractStep>) -> Seq<StepModel> {
    Seq::new(steps.len(), |i: int| steps[i]@)
}

/// The step for the entry at `index` with this name and these bytes: a
/// directory for a name that ends with the separator, whatever the bytes, and
/// else a file holding the bytes.
pub open spec fn step_of(root: Seq<char>, index: int, name: Seq<char>, data: Seq<u8>) -> StepModel {
    let path = entry_path_of(root, name);
    if names_directory(name) {
        StepModel::CreateDir { entry: index, path }
    } else {
        StepModel::WriteFile { entry: index, path, parent: parent_path_of(path), data }
    }
}

/// Whether extraction can use an entry: it can be opened, and its bytes can
/// be read back unless it stands for a directory.
pub open spec fn usable(entry: (Option<Seq<char>>, Option<Seq<u8>>)) -> bool {
    entry.0 matches Some(name) && (names_directory(name) || entry.1 is Some)
}

/// Whether each of the first `n` entries is usable.
pub open spec fn usable_up_to(entries: Seq<(Option<Seq<char>>, Option<Seq<u8>>)>, n: int) -> bool {
    forall|i: int| 0 <= i < n && i < entries.len() ==> usable(#[trigger] entries[i])
}

/// The step for a usable entry.
pub open spec fn entry_step(
    root: Seq<char>,
    index: int,
    entry: (Option<Seq<char>>, Option<Seq<u8>>),
) -> StepModel {
    step_of(
        root,
        index,
        entry.0->0,
        if names_directory(entry.0->0) {
            Seq::<u8>::empty()
        } else {
            entry.1->0
        },
    )
}

/// Whether `steps` and `failure` are what extracting these entries under
/// `root` comes to: one step per entry, in order, up to the first entry that
/// cannot be used, and a failure that names that entry if there is one.
pub open spec fn extraction_of(
    root: Seq<char>,
    entries: Seq<(Option<Seq<char>>, Option<Seq<u8>>)>,
    steps: Seq<StepModel>,
    failure: Option<Failure>,
) -> bool {
    &&& steps.len() <= entries.len()
    &&& usable_up_to(entries, steps.len() as int)
    &&& forall|i: int| 0 <= i < steps.len() ==> #[trigger] steps[i] == entry_step(root, i, entries[i])
    &&& match failure {
        None => steps.len() == entries.len(),
        Some(f) => {
            &&& steps.len() < entries.len()
            &&& !usable(entries[steps.len() as int])
            &&& f.kind == ArchiveError::ArchiveCorrupt
            &&& f.entry matches Some(at)
            &&& at == steps.len()
        },
    }
}

/// What `extract` owes for an archive file and a root.
pub open spec fn extract_outcome(root: Seq<char>, archive: ArchiveFile, r: Extraction) -> bool {
    match archive {
        ArchiveFile::Unreadable => {
            &&& r.steps@.len() == 0
            &&& r.failure == Some(Failure { kind: ArchiveError::SourceUnreadable, entry: None })
        },
        ArchiveFile::Bytes(bytes) => match parsed_container(bytes@) {
            None => {
                &&& r.steps@.len() == 0
                &&& r.failure == Some(Failure { kind: ArchiveError::ArchiveCorrupt, entry: None })
            },
            Some(entries) => extraction_of(root, entries, step_models(r.steps@), r.failure),
        },
    }
}

/// Plans the step for one entry from its name and its bytes.
pub fn plan_entry(root: &str, index: usize, name: &str, data: Vec<u8>) -> (r: ExtractStep)
    ensures
        r@ == step_of(root@, index as int, name@, data@),
{
    let path = entry_path(root, name);
    if is_directory_name(name) {
        ExtractStep::CreateDir { entry: index, path }
    } else {
        let parent = parent_path(path.as_str());
        ExtractStep::WriteFile { entry: index, path, parent, data }
    }
}

/// The failure to report when a step could not be carried out: the entry of
/// that step could not be written.
pub fn step_failure(step: &ExtractStep) -> (f: Failure)
    ensures
        f.kind == ArchiveError::EntryWriteFailed,
        f.entry == Some(entry_of(*step)),
{
    let entry = match step {
        ExtractStep::CreateDir { entry, .. } => *entry,
        ExtractStep::WriteFile { entry, .. } => *entry,
    };
    Failure { kind: ArchiveError::EntryWriteFailed, entry: Some(entry) }
}

/// Plans the extraction of an archive under `root`: a directory for each
/// entry whose name ends with the separator, a file with the entry's bytes
/// for each other entry, in container order. Stops at the first entry that
/// cannot be opened or read back and reports its position; the steps planned
/// before it stand.
pub fn extract(root: &str, archive: ArchiveFile) -> (r: Extraction)
    ensures
        extract_outcome(root@, archive, r),
{
    let bytes = match archive {
        ArchiveFile::Unreadable => {
            return Extraction {
                steps: Vec::new(),
                failure: Some(Failure { kind: ArchiveError::SourceUnreadable, entry: None }),
            };
        },
        ArchiveFile::Bytes(bytes) => bytes,
    };
    let mut opened = match archive_open(bytes) {
        Ok(opened) => opened,
        Err(_) => {
            return Extraction {
                steps: Vec::new(),
                failure: Some(Failure { kind: ArchiveError::ArchiveCorrupt, entry: None }),
            };
        },
    };
    let n = archive_len(&opened);
    let mut steps: Vec<ExtractStep> = Vec::new();
    let mut i: usize = 0;
    while i < n
        invariant
            archive matches ArchiveFile::Bytes(given) && parsed_container(given@) == Some(
                archive_entries(opened),
            ),
            n == archive_entries(opened).len(),
            i <= n,
            steps@.len() == i,
            usable_up_to(archive_entries(opened), i as int),
            forall|k: int|
                0 <= k < i ==> #[trigger] steps@[k]@ == entry_step(
                    root@,
                    k,
                    archive_entries(opened)[k],
                ),
        decreases n - i,
    {
        let name = match archive_entry_name(&mut opened, i) {
            Ok(name) => name,
            Err(_) => {
                return Extraction {
                    steps,
                    failure: Some(Failure { kind: ArchiveError::ArchiveCorrupt, entry: Some(i) }),
                };
            },
        };
        let data = if is_directory_name(name.as_str()) {
            Vec::new()
        } else {
            match archive_entry_data(&mut opened, i) {
                Ok(data) => data,
                Err(_) => {
                    return Extraction {
                        steps,
                        failure: Some(
                            Failure { kind: ArchiveError::ArchiveCorrupt, entry: Some(i) },
                        ),
                    };
                },
            }
        };
        let step = plan_entry(root, i, name.as_str(), data);
        steps.push(step);
        i += 1;
    }
    Extraction { steps, failure: None }
}

} // verus!
