//! Editing and deleting configured jobs.
//!
//! Editing finds a job by id and rewrites the fields the caller named,
//! clearing before setting; deleting removes jobs by id and reports each
//! outcome.  Both work on the in-memory job list; reading and writing
//! the configuration around them is the caller's concern.

use vstd::prelude::*;
use vstd::string::StringExecFns;

use crate::application::Application;
use crate::job::{BackupModel, CompressFormat, Job, Level};
use crate::pathname::BackupPath;
use crate::textual::{spec_u32_text, u32_text};

verus! {

/// A field the edit command can clear.
#[derive(Clone, Copy, Debug, PartialEq, Eq, Structural)]
pub enum ClearField {
    /// Drop the archive format, and with it the level.
    Compression,
    /// Drop the compression level.
    Level,
    /// Drop the ignore list.
    Ignore,
}

/// Everything an edit request may carry.
pub struct EditParams {
    pub id: u32,
    pub source: Option<BackupPath>,
    pub target: Option<BackupPath>,
    pub compression: Option<CompressFormat>,
    pub level: Option<Level>,
    pub ignore: Option<Vec<BackupPath>>,
    pub clear: Option<Vec<ClearField>>,
    pub model: Option<BackupModel>,
}

/// How an edit request ended.
#[derive(Clone, Copy, Debug, PartialEq, Eq, Structural)]
pub enum EditOutcome {
    /// The job was found and rewritten.
    Edited,
    /// No job carries the requested id; nothing changed.
    NotFound,
    /// A level was given for a job that would end up with no format;
    /// nothing changed.
    LevelWithoutCompression,
}

/// Does position `k` of the clear list name this field?
pub open spec fn spec_clear_at(cs: Seq<ClearField>, k: int, field: ClearField) -> bool {
    cs[k] == field
}

/// Does the clear list name this field?
pub open spec fn spec_clears(clear: Option<Seq<ClearField>>, field: ClearField) -> bool {
    match clear {
        Some(cs) => exists|k: int| 0 <= k < cs.len() && #[trigger] spec_clear_at(cs, k, field),
        None => false,
    }
}

/// The compression the edited job ends up with: cleared first, then set.
pub open spec fn spec_edited_compression(
    old_comp: Option<CompressFormat>,
    set: Option<CompressFormat>,
    clear: Option<Seq<ClearField>>,
) -> Option<CompressFormat> {
    match set {
        Some(f) => Some(f),
        None => if spec_clears(clear, ClearField::Compression) {
            None
        } else {
            old_comp
        },
    }
}

/// The level the edited job ends up with: clearing the compression
/// clears it too, and setting one requires a format to be present.
pub open spec fn spec_edited_level(
    old_level: Option<Level>,
    set: Option<Level>,
    clear: Option<Seq<ClearField>>,
) -> Option<Level> {
    match set {
        Some(l) => Some(l),
        None => if spec_clears(clear, ClearField::Compression) || spec_clears(
            clear,
            ClearField::Level,
        ) {
            None
        } else {
            old_level
        },
    }
}

/// Membership of a field in the clear list.
fn clears(clear: &Option<Vec<ClearField>>, field: ClearField) -> (r: bool)
    ensures
        r == spec_clears(
            match clear {
                Some(cs) => Some(cs@),
                None => None,
            },
            field,
        ),
{
    match clear {
        Some(cs) => {
            let mut k: usize = 0;
            while k < cs.len()
                invariant
                    k <= cs.len(),
                    (*clear) is Some && *cs == clear->0,
                    forall|k2: int| 0 <= k2 < k ==> (#[trigger] cs@[k2]) != field,
                decreases cs.len() - k,
            {
                if cs[k] == field {
                    proof {
                        assert(spec_clear_at(cs@, k as int, field));
                        let copt: Option<Seq<ClearField>> = Some(cs@);
                        assert(spec_clears(copt, field) == (exists|k2: int|
                            0 <= k2 < copt->0.len() && #[trigger] spec_clear_at(
                                copt->0,
                                k2,
                                field,
                            )));
                        assert(spec_clears(Some(cs@), field));
                    }
                    return true;
                }
                k = k + 1;
            }
            false
        },
        None => false,
    }
}

/// Rewrites one job in place per an edit request.
///
/// The job keeps its id; the named source, target, ignore and model
/// replace the old values; compression and level are cleared first and
/// set after, and a level without a resulting format is refused.
#[verifier::loop_isolation(false)]
pub fn apply_edit(app: &mut Application, params: EditParams) -> (r: EditOutcome)
    ensures
        final(app).version == old(app).version,
        match r {
            EditOutcome::Edited => exists|k: int|
                {
                    &&& 0 <= k < old(app).jobs@.len()
                    &&& (#[trigger] old(app).jobs@[k]).id == params.id
                    &&& forall|k2: int| 0 <= k2 < k ==> (#[trigger] old(app).jobs@[k2]).id
                        != params.id
                    &&& final(app).jobs@.len() == old(app).jobs@.len()
                    &&& forall|k2: int|
                        0 <= k2 < old(app).jobs@.len() && k2 != k ==> (#[trigger] final(app).jobs@[k2])
                            == old(app).jobs@[k2]
                    &&& {
                        let new_job = final(app).jobs@[k];
                        let old_job = old(app).jobs@[k];
                        let clear = match params.clear {
                            Some(cs) => Some(cs@),
                            None => None,
                        };
                        &&& new_job.id == params.id
                        &&& new_job.source == (match params.source {
                            Some(p) => p,
                            None => old_job.source,
                        })
                        &&& new_job.target == (match params.target {
                            Some(p) => p,
                            None => old_job.target,
                        })
                        &&& new_job.compression == spec_edited_compression(
                            old_job.compression,
                            params.compression,
                            clear,
                        )
                        &&& new_job.level == spec_edited_level(
                            old_job.level,
                            params.level,
                            clear,
                        )
                        &&& new_job.ignore == (match params.ignore {
                            Some(ps) => Some(ps),
                            None => if spec_clears(clear, ClearField::Ignore) {
                                None
                            } else {
                                old_job.ignore
                            },
                        })
                        &&& new_job.model == (match params.model {
                            Some(m) => Some(m),
                            None => old_job.model,
                        })
                    }
                },
            EditOutcome::NotFound => final(app).jobs@ == old(app).jobs@ && forall|k: int|
                0 <= k < old(app).jobs@.len() ==> (#[trigger] old(app).jobs@[k]).id != params.id,
            EditOutcome::LevelWithoutCompression => final(app).jobs@ == old(app).jobs@
                && params.level is Some,
        },
{
    let EditParams { id, source, target, compression, level, ignore, clear, model } = params;

    let mut k: usize = 0;
    while k < app.jobs.len()
        invariant
            k <= app.jobs.len(),
            app.jobs == old(app).jobs,
            app.version == old(app).version,
            forall|k2: int| 0 <= k2 < k ==> (#[trigger] app.jobs@[k2]).id != id,
        decreases app.jobs.len() - k,
    {
        if app.jobs[k].id == id {
            // Decide the compression and level first: a level that would
            // stand without a format is refused before anything changes.
            let new_compression = match compression {
                Some(f) => Some(f),
                None => if clears(&clear, ClearField::Compression) {
                    None
                } else {
                    app.jobs[k].compression
                },
            };
            let new_level = match level {
                Some(l) => {
                    if new_compression.is_none() {
                        return EditOutcome::LevelWithoutCompression;
                    }
                    Some(l)
                },
                None => if clears(&clear, ClearField::Compression) || clears(
                    &clear,
                    ClearField::Level,
                ) {
                    None
                } else {
                    app.jobs[k].level
                },
            };
            let ghost old_job_v = app.jobs@[k as int];
            let old_job = app.jobs.remove(k);
            assert(old_job == old_job_v);
            let new_job = Job {
                id,
                source: match source {
                    Some(p) => p,
                    None => old_job.source,
                },
                target: match target {
                    Some(p) => p,
                    None => old_job.target,
                },
                compression: new_compression,
                level: new_level,
                ignore: match ignore {
                    Some(ps) => Some(ps),
                    None => if clears(&clear, ClearField::Ignore) {
                        None
                    } else {
                        old_job.ignore
                    },
                },
                model: match model {
                    Some(m) => Some(m),
                    None => old_job.model,
                },
            };
            let ghost njv = new_job;
            app.jobs.insert(k, new_job);
            proof {
                assert(app.jobs@ =~= old(app).jobs@.update(k as int, njv));
                assert(app.jobs@[k as int] == njv);
                assert(old(app).jobs@[k as int].id == id);
                assert(final(app).jobs@.len() == old(app).jobs@.len());
                assert(forall|k2: int|
                    0 <= k2 < old(app).jobs@.len() && k2 != k ==> (#[trigger] final(app).jobs@[k2])
                        == old(app).jobs@[k2]);
            }
            return EditOutcome::Edited;
        }
        k = k + 1;
    }
    EditOutcome::NotFound
}

/// The per-id lines the delete command reports: one success line per
/// removed job, one failure line per id that named none.
pub open spec fn spec_delete_report(results: Seq<(u32, bool)>) -> Seq<char>
    decreases results.len(),
{
    if results.len() == 0 {
        Seq::empty()
    } else {
        let line = if results.last().1 {
            "Job with id "@ + spec_u32_text(results.last().0) + " deleted successfully.\n"@
        } else {
            "Job deletion failed. Job with id "@ + spec_u32_text(results.last().0)
                + " cannot be found.\n"@
        };
        spec_delete_report(results.drop_last()) + line
    }
}

/// Removes every listed id's job and reports each outcome.
///
/// Each id is looked up in turn; ids found are removed, ids absent are
/// reported as failures, and the returned pairs record the order and
/// outcome of every attempt.  The report holds one line per pair.
pub fn delete_jobs(app: &mut Application, ids: &Vec<u32>) -> (r: (Vec<(u32, bool)>, String))
    ensures
        final(app).version == old(app).version,
        r.0@.len() == ids@.len(),
        forall|k: int| 0 <= k < ids@.len() ==> (#[trigger] r.0@[k]).0 == ids@[k],
        r.1@ == spec_delete_report(r.0@),
{
    let mut results: Vec<(u32, bool)> = Vec::new();
    let mut report = String::new();
    let mut k: usize = 0;
    assert(report@ =~= spec_delete_report(results@));
    while k < ids.len()
        invariant
            k <= ids.len(),
            app.version == old(app).version,
            results@.len() == k,
            forall|k2: int| 0 <= k2 < k ==> (#[trigger] results@[k2]).0 == ids@[k2],
            report@ == spec_delete_report(results@),
        decreases ids.len() - k,
    {
        let id = ids[k];
        let removed = app.remove_job(id).is_some();
        let ghost prev = results@;
        results.push((id, removed));
        proof {
            assert(results@.drop_last() =~= prev);
            assert(results@.last() == (id, removed));
        }
        if removed {
            report.append("Job with id ");
            let t = u32_text(id);
            report.append(t.as_str());
            report.append(" deleted successfully.\n");
        } else {
            report.append("Job deletion failed. Job with id ");
            let t = u32_text(id);
            report.append(t.as_str());
            report.append(" cannot be found.\n");
        }
        assert(report@ =~= spec_delete_report(results@));
        k = k + 1;
    }
    (results, report)
}

} // verus!
