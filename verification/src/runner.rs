//! Job and batch runner decisions.
//!
//! Running a job means choosing one of three routes — archive the source,
//! plan and execute a directory tree, or plan and execute a single file —
//! and the batch runner picks which configured jobs to run.  Those
//! choices are decided here over plain values; dispatching the resulting
//! work concurrently is the caller's concern, and a job's outcome depends
//! on nothing but its own inputs, which is what isolates one job's
//! failure from its siblings.

use vstd::prelude::*;

use crate::application::spec_find_job;
use crate::job::{spec_effective_model, BackupModel, CompressFormat, Job, Level};
use crate::planner::PlanError;
use crate::snapshot::NodeKind;

verus! {

/// Which route one job takes.
#[derive(Debug)]
pub enum JobRoute {
    /// Archive the whole source into one artifact of this format at this
    /// effective level.
    Archive { format: CompressFormat, level: Level },
    /// Plan the source directory against the destination tree and execute
    /// the worklist.
    Tree { model: BackupModel },
    /// Plan the single source file and execute the one action.
    SingleFile { model: BackupModel },
}

/// The compression level a job runs under when `level` is left unset.
pub open spec fn spec_effective_level(level: Option<Level>) -> Level {
    match level {
        Some(l) => l,
        None => Level::Default,
    }
}

/// The route a job takes, or the fatal error that stops it.
pub open spec fn spec_job_route(
    compression: Option<CompressFormat>,
    level: Option<Level>,
    model: Option<BackupModel>,
    source_kind: NodeKind,
    target_kind: NodeKind,
) -> Result<JobRoute, PlanError> {
    match compression {
        Some(format) => {
            if source_kind == NodeKind::Missing {
                Err(PlanError::SourceMissing)
            } else if target_kind == NodeKind::File {
                Err(PlanError::TargetNotDirectory)
            } else {
                Ok(JobRoute::Archive { format, level: spec_effective_level(level) })
            }
        },
        None => {
            if source_kind == NodeKind::Dir {
                if target_kind == NodeKind::File {
                    Err(PlanError::TargetNotDirectory)
                } else {
                    Ok(JobRoute::Tree { model: spec_effective_model(model) })
                }
            } else {
                Ok(JobRoute::SingleFile { model: spec_effective_model(model) })
            }
        },
    }
}

/// Decides how one job runs.
///
/// A job with an archive format delegates the whole source to the archive
/// collaborator; it stops early when the source is missing or the target
/// is a regular file, which cannot host the artifact.  Otherwise a
/// directory source takes the tree route — also refusing a regular file
/// as target — and anything else takes the single-file route, whose
/// planner surfaces the remaining precondition errors.
pub fn classify_job(job: &Job, source_kind: NodeKind, target_kind: NodeKind) -> (r: Result<
    JobRoute,
    PlanError,
>)
    ensures
        r == spec_job_route(job.compression, job.level, job.model, source_kind, target_kind),
{
    match job.compression {
        Some(format) => {
            if matches!(source_kind, NodeKind::Missing) {
                Err(PlanError::SourceMissing)
            } else if matches!(target_kind, NodeKind::File) {
                Err(PlanError::TargetNotDirectory)
            } else {
                let level = match job.level {
                    Some(l) => l,
                    None => Level::Default,
                };
                Ok(JobRoute::Archive { format, level })
            }
        },
        None => {
            if matches!(source_kind, NodeKind::Dir) {
                if matches!(target_kind, NodeKind::File) {
                    Err(PlanError::TargetNotDirectory)
                } else {
                    Ok(JobRoute::Tree { model: job.effective_model() })
                }
            } else {
                Ok(JobRoute::SingleFile { model: job.effective_model() })
            }
        },
    }
}

/// Picks the jobs the given ids name, in id-list order.
///
/// Succeeds exactly when every id names a configured job; otherwise the
/// first id that names none is returned and nothing runs.
pub fn select_jobs_by_ids(jobs: &Vec<Job>, ids: &Vec<u32>) -> (r: Result<Vec<Job>, u32>)
    ensures
        match r {
            Ok(sel) => sel@.len() == ids@.len() && forall|k: int|
                0 <= k < ids@.len() ==> {
                    &&& (#[trigger] spec_find_job(jobs@, ids@[k])) is Some
                    &&& sel@[k]@ == spec_find_job(jobs@, ids@[k])->0@
                },
            Err(missing) => spec_find_job(jobs@, missing) is None && exists|k: int|
                0 <= k < ids@.len() && ids@[k] == missing && forall|k2: int|
                    0 <= k2 < k ==> spec_find_job(jobs@, #[trigger] ids@[k2]) is Some,
        },
{
    let mut sel: Vec<Job> = Vec::new();
    let mut k: usize = 0;
    while k < ids.len()
        invariant
            k <= ids.len(),
            sel@.len() == k,
            forall|k2: int|
                0 <= k2 < k ==> {
                    &&& (#[trigger] spec_find_job(jobs@, ids@[k2])) is Some
                    &&& sel@[k2]@ == spec_find_job(jobs@, ids@[k2])->0@
                },
        decreases ids.len() - k,
    {
        match find_job(jobs, ids[k]) {
            Some(job) => {
                let cl = job.clone();
                let ghost prev = sel@;
                sel.push(cl);
                proof {
                    assert forall|k2: int| 0 <= k2 < k + 1 implies {
                        &&& (#[trigger] spec_find_job(jobs@, ids@[k2])) is Some
                        &&& sel@[k2]@ == spec_find_job(jobs@, ids@[k2])->0@
                    } by {
                        if k2 < k {
                            assert(sel@[k2] == prev[k2]);
                            assert(prev[k2]@ == spec_find_job(jobs@, ids@[k2])->0@);
                        } else {
                            assert(sel@[k2] == cl);
                        }
                    }
                }
            },
            None => {
                proof {
                    assert forall|k2: int|
                        0 <= k2 < k implies spec_find_job(jobs@, #[trigger] ids@[k2]) is Some by {
                        assert((spec_find_job(jobs@, ids@[k2])) is Some);
                    }
                    assert(0 <= k < ids@.len() && ids@[k as int] == ids@[k as int]);
                }
                return Err(ids[k]);
            },
        }
        k = k + 1;
    }
    Ok(sel)
}

/// The first configured job with the given id, if any.
pub fn find_job<'a>(jobs: &'a Vec<Job>, id: u32) -> (r: Option<&'a Job>)
    ensures
        match r {
            Some(job) => spec_find_job(jobs@, id) is Some && *job == spec_find_job(jobs@, id)->0,
            None => spec_find_job(jobs@, id) is None,
        },
{
    let ghost whole = jobs@;
    let mut k: usize = 0;
    proof {
        assert(jobs@.skip(0) =~= jobs@);
    }
    while k < jobs.len()
        invariant
            k <= jobs.len(),
            spec_find_job(jobs@.skip(k as int), id) == spec_find_job(jobs@, id),
        decreases jobs.len() - k,
    {
        let ghost pre = jobs@.skip(k as int);
        assert(pre.first() == jobs@[k as int]);
        if jobs[k].id == id {
            return Some(&jobs[k]);
        }
        assert(pre.drop_first() =~= jobs@.skip(k + 1));
        k = k + 1;
    }
    assert(jobs@.skip(jobs.len() as int) =~= Seq::<Job>::empty());
    None
}

} // verus!
