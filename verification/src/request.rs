//! What the user asked for: a source, a target and a mode, turned into the
//! job to run.

use crate::names::archive_path;
use crate::names::archive_path_of;
use vstd::prelude::*;
use vstd::string::*;

verus! {

/// Which of the two operations is selected.
#[derive(Clone, Copy, Debug, PartialEq, Eq, Structural)]
pub enum Mode {
    /// Archive a folder.
    Compress,
    /// Extract an archive.
    Extract,
}

impl Default for Mode {
    /// A fresh selection archives.
    fn default() -> (r: Mode)
        ensures
            r == Mode::Compress,
    {
        Mode::Compress
    }
}

/// A job that is ready to run.
#[derive(Debug, PartialEq, Eq)]
pub enum Job {
    /// Archive the immediate children of `source_dir` into the file at
    /// `archive_path`.
    Compress { source_dir: String, archive_path: String },
    /// Extract the archive at `archive_path` under `target_root`.
    Extract { archive_path: String, target_root: String },
}

/// Whether `job` is the job that the given selection asks for: the target
/// with the archive suffix receives the source folder, or the source archive
/// is extracted under the target taken as a root.
pub open spec fn job_for(source: Seq<char>, target: Seq<char>, mode: Mode, job: Job) -> bool {
    match mode {
        Mode::Compress => job matches Job::Compress { source_dir, archive_path }
            && source_dir@ == source && archive_path@ == archive_path_of(target),
        Mode::Extract => job matches Job::Extract { archive_path, target_root } && archive_path@
            == source && target_root@ == target,
    }
}

/// Turns a selection into the job to run. There is none while the source or
/// the target is still empty.
pub fn plan_job(source: &str, target: &str, mode: Mode) -> (r: Option<Job>)
    ensures
        r is None <==> (source@.len() == 0 || target@.len() == 0),
        r matches Some(job) ==> job_for(source@, target@, mode, job),
{
    if source.is_empty() || target.is_empty() {
        return None;
    }
    match mode {
        Mode::Compress => Some(
            Job::Compress {
                source_dir: String::from_str(source),
                archive_path: archive_path(target),
            },
        ),
        Mode::Extract => Some(
            Job::Extract {
                archive_path: String::from_str(source),
                target_root: String::from_str(target),
            },
        ),
    }
}

} // verus!
