//! The planner: from a job and two tree snapshots to a worklist.
//!
//! `resolve_file` handles a single-file job; `resolve_tree` compares a
//! source directory listing against the destination listing and produces
//! copy, skip and delete actions.  Both are pure: they read only the
//! snapshots they are handed.
//!
//! For a directory job, every regular file under the source appears in the
//! destination under the source directory's own name: a source file at
//! relative path `rel` is destined for `target/basename(source)/rel`.
//! Under the `Mirror` model the destination listing is then swept, and
//! every destination file that no non-ignored source file accounts for
//! becomes a deletion; under `Full` nothing is ever deleted.

use vstd::prelude::*;

use crate::item::{delete_item_view, Item, Strategy};
use crate::job::BackupModel;
use crate::pathname::{is_prefix_of, parts_eq, parts_prefix_of, BackupPath, clone_parts,
    concat_parts};
use crate::snapshot::{needs_update, spec_needs_update, spec_lookup, lookup_entry, FileEntry,
    NodeKind};

verus! {

/// A fatal precondition failure: the job does not run at all.
#[derive(Clone, Copy, Debug, PartialEq, Eq, Structural)]
pub enum PlanError {
    /// The source path does not exist.
    SourceMissing,
    /// A single-file job's source is not a regular file.
    SourceNotFile,
    /// A directory job's source is not a directory.
    SourceNotDirectory,
    /// The source path has no final component to name the copy after.
    InvalidFileName,
    /// The target exists and is a regular file where a directory is needed.
    TargetNotDirectory,
}

/// Is `rel` equal to or nested under one of the ignore patterns?
pub open spec fn spec_ignored(rel: Seq<Seq<char>>, ignore: Seq<(bool, Seq<Seq<char>>)>) -> bool {
    exists|k: int| 0 <= k < ignore.len() && #[trigger] is_prefix_of(ignore[k].1, rel)
}

/// Ignore test on a relative path.
pub fn ignored(rel: &Vec<String>, ignore: &Vec<BackupPath>) -> (r: bool)
    ensures
        r == spec_ignored(rel.deep_view(), ignore.deep_view()),
{
    let mut k: usize = 0;
    while k < ignore.len()
        invariant
            k <= ignore.len(),
            forall|k2: int|
                0 <= k2 < k ==> !is_prefix_of(ignore.deep_view()[k2].1, rel.deep_view()),
        decreases ignore.len() - k,
    {
        if parts_prefix_of(&ignore[k].parts, rel) {
            assert(is_prefix_of(ignore.deep_view()[k as int].1, rel.deep_view()));
            return true;
        }
        k = k + 1;
    }
    false
}

/// The destination-relative path a source file is destined for: the
/// source directory's name followed by the file's source-relative path.
pub open spec fn spec_dest_rel(base: Seq<char>, rel: Seq<Seq<char>>) -> Seq<Seq<char>> {
    seq![base] + rel
}

/// The planned action for one non-ignored source file.
pub open spec fn spec_file_item(
    source: (bool, Seq<Seq<char>>),
    target: (bool, Seq<Seq<char>>),
    base: Seq<char>,
    model: BackupModel,
    dest_files: Seq<FileEntry>,
    e: FileEntry,
) -> ((bool, Seq<Seq<char>>), (bool, Seq<Seq<char>>), Strategy) {
    let srcp = (source.0, source.1 + e.rel.deep_view());
    let destp = (target.0, target.1 + spec_dest_rel(base, e.rel.deep_view()));
    let strat = if model == BackupModel::Full {
        Strategy::Copy
    } else if spec_needs_update(
        e.size,
        e.mtime,
        spec_lookup(dest_files, spec_dest_rel(base, e.rel.deep_view())),
    ) {
        Strategy::Copy
    } else {
        Strategy::NotUpdate
    };
    (srcp, destp, strat)
}

/// The copy pass: one action per non-ignored source file, in listing
/// order; ignored files contribute nothing.
pub open spec fn spec_copy_phase(
    source: (bool, Seq<Seq<char>>),
    target: (bool, Seq<Seq<char>>),
    base: Seq<char>,
    model: BackupModel,
    ignore: Seq<(bool, Seq<Seq<char>>)>,
    dest_files: Seq<FileEntry>,
    src_files: Seq<FileEntry>,
) -> Seq<((bool, Seq<Seq<char>>), (bool, Seq<Seq<char>>), Strategy)>
    decreases src_files.len(),
{
    if src_files.len() == 0 {
        Seq::empty()
    } else {
        let rest = spec_copy_phase(
            source,
            target,
            base,
            model,
            ignore,
            dest_files,
            src_files.drop_last(),
        );
        let e = src_files.last();
        if spec_ignored(e.rel.deep_view(), ignore) {
            rest
        } else {
            rest.push(spec_file_item(source, target, base, model, dest_files, e))
        }
    }
}

/// Does some non-ignored source file account for the destination-relative
/// path `key`?
pub open spec fn spec_seen(
    base: Seq<char>,
    ignore: Seq<(bool, Seq<Seq<char>>)>,
    src_files: Seq<FileEntry>,
    key: Seq<Seq<char>>,
) -> bool {
    exists|j: int|
        0 <= j < src_files.len() && !spec_ignored(
            #[trigger] src_files[j].rel.deep_view(),
            ignore,
        ) && key == spec_dest_rel(base, src_files[j].rel.deep_view())
}

/// Membership of a destination path in the seen set.
pub fn is_seen(
    key: &Vec<String>,
    base: &String,
    ignore: &Vec<BackupPath>,
    src_files: &Vec<FileEntry>,
) -> (r: bool)
    ensures
        r == spec_seen(base@, ignore.deep_view(), src_files@, key.deep_view()),
{
    let mut j: usize = 0;
    while j < src_files.len()
        invariant
            j <= src_files.len(),
            forall|j2: int|
                0 <= j2 < j ==> (spec_ignored(
                    #[trigger] src_files@[j2].rel.deep_view(),
                    ignore.deep_view(),
                ) || key.deep_view() != spec_dest_rel(base@, src_files@[j2].rel.deep_view())),
        decreases src_files.len() - j,
    {
        if !ignored(&src_files[j].rel, ignore) {
            let mut head: Vec<String> = Vec::new();
            head.push(base.clone());
            let cand = concat_parts(&head, &src_files[j].rel);
            proof {
                assert(head.deep_view() =~= seq![base@]);
                assert(cand.deep_view() == spec_dest_rel(base@, src_files@[j as int].rel.deep_view()));
            }
            if parts_eq(&cand, key) {
                assert(spec_seen(base@, ignore.deep_view(), src_files@, key.deep_view())) by {
                    assert(!spec_ignored(src_files@[j as int].rel.deep_view(), ignore.deep_view())
                        && key.deep_view() == spec_dest_rel(
                        base@,
                        src_files@[j as int].rel.deep_view(),
                    ));
                }
                return true;
            }
        }
        j = j + 1;
    }
    false
}

/// The deletion pass: one `Delete` per destination file the seen set does
/// not account for, in listing order.
pub open spec fn spec_delete_phase(
    target: (bool, Seq<Seq<char>>),
    base: Seq<char>,
    ignore: Seq<(bool, Seq<Seq<char>>)>,
    src_files: Seq<FileEntry>,
    dest_files: Seq<FileEntry>,
) -> Seq<((bool, Seq<Seq<char>>), (bool, Seq<Seq<char>>), Strategy)>
    decreases dest_files.len(),
{
    if dest_files.len() == 0 {
        Seq::empty()
    } else {
        let rest = spec_delete_phase(target, base, ignore, src_files, dest_files.drop_last());
        let d = dest_files.last();
        if spec_seen(base, ignore, src_files, d.rel.deep_view()) {
            rest
        } else {
            rest.push(delete_item_view((target.0, target.1 + d.rel.deep_view())))
        }
    }
}

/// The whole worklist for a directory job: the copy pass, followed under
/// `Mirror` by the deletion pass.  `Full` never deletes.
pub open spec fn spec_resolve_tree(
    source: (bool, Seq<Seq<char>>),
    target: (bool, Seq<Seq<char>>),
    model: BackupModel,
    ignore: Seq<(bool, Seq<Seq<char>>)>,
    src_files: Seq<FileEntry>,
    dest_files: Seq<FileEntry>,
) -> Seq<((bool, Seq<Seq<char>>), (bool, Seq<Seq<char>>), Strategy)> {
    let base = source.1.last();
    let copies = spec_copy_phase(source, target, base, model, ignore, dest_files, src_files);
    if model == BackupModel::Mirror {
        copies + spec_delete_phase(target, base, ignore, src_files, dest_files)
    } else {
        copies
    }
}

/// The fatal error a directory job stops on, if any.
pub open spec fn spec_resolve_tree_err(
    source: (bool, Seq<Seq<char>>),
    source_kind: NodeKind,
) -> Option<PlanError> {
    if source_kind == NodeKind::Missing {
        Some(PlanError::SourceMissing)
    } else if source_kind == NodeKind::File {
        Some(PlanError::SourceNotDirectory)
    } else if source.1.len() == 0 {
        Some(PlanError::InvalidFileName)
    } else {
        None
    }
}

/// Plans a directory job.
///
/// `source_kind` is what the source path currently is; `src_files` and
/// `dest_files` list every regular file under the source and under the
/// target respectively.  On success the worklist is exactly
/// `spec_resolve_tree` over the inputs; the error cases are exactly those
/// of `spec_resolve_tree_err`.
pub fn resolve_tree(
    source: &BackupPath,
    target: &BackupPath,
    model: BackupModel,
    ignore: &Vec<BackupPath>,
    source_kind: NodeKind,
    src_files: &Vec<FileEntry>,
    dest_files: &Vec<FileEntry>,
) -> (r: Result<Vec<Item>, PlanError>)
    ensures
        match r {
            Ok(plan) => spec_resolve_tree_err(source@, source_kind) is None
                && plan.deep_view() == spec_resolve_tree(
                source@,
                target@,
                model,
                ignore.deep_view(),
                src_files@,
                dest_files@,
            ),
            Err(e) => spec_resolve_tree_err(source@, source_kind) == Some(e),
        },
{
    match source_kind {
        NodeKind::Missing => {
            return Err(PlanError::SourceMissing);
        },
        NodeKind::File => {
            return Err(PlanError::SourceNotDirectory);
        },
        NodeKind::Dir => {},
    }
    let base = match source.base_name() {
        Some(b) => b,
        None => {
            return Err(PlanError::InvalidFileName);
        },
    };
    let ghost sv = source@;
    let ghost tv = target@;
    let ghost iv = ignore.deep_view();
    let ghost sfv = src_files@;
    let ghost dfv = dest_files@;
    let ghost basev = sv.1.last();
    assert(base@ == basev);

    let mut plan: Vec<Item> = Vec::new();
    let mut i: usize = 0;
    assert(plan.deep_view() =~= spec_copy_phase(sv, tv, basev, model, iv, dfv, sfv.take(0)));
    while i < src_files.len()
        invariant
            i <= src_files.len(),
            sv == source@,
            tv == target@,
            iv == ignore.deep_view(),
            sfv == src_files@,
            dfv == dest_files@,
            basev == base@,
            plan.deep_view() == spec_copy_phase(sv, tv, basev, model, iv, dfv, sfv.take(i as int)),
        decreases src_files.len() - i,
    {
        proof {
            assert(sfv.take(i + 1).drop_last() =~= sfv.take(i as int));
            assert(sfv.take(i + 1).last() == sfv[i as int]);
        }
        if ignored(&src_files[i].rel, ignore) {
            proof {
                assert(spec_copy_phase(sv, tv, basev, model, iv, dfv, sfv.take(i + 1))
                    == spec_copy_phase(sv, tv, basev, model, iv, dfv, sfv.take(i as int)));
            }
        } else {
            let e = &src_files[i];
            let mut head: Vec<String> = Vec::new();
            head.push(base.clone());
            let key = concat_parts(&head, &e.rel);
            proof {
                assert(head.deep_view() =~= seq![basev]);
                assert(key.deep_view() == spec_dest_rel(basev, e.rel.deep_view()));
            }
            let strat = match model {
                BackupModel::Full => Strategy::Copy,
                BackupModel::Mirror => {
                    let looked = lookup_entry(dest_files, &key);
                    if needs_update(e.size, e.mtime, looked) {
                        Strategy::Copy
                    } else {
                        Strategy::NotUpdate
                    }
                },
            };
            let srcp = BackupPath {
                absolute: source.absolute,
                parts: concat_parts(&source.parts, &e.rel),
            };
            let destp = BackupPath {
                absolute: target.absolute,
                parts: concat_parts(&target.parts, &key),
            };
            let it = Item::new(srcp, destp, strat);
            proof {
                assert(tv.1 + spec_dest_rel(basev, e.rel.deep_view()) =~= tv.1 + key.deep_view());
                assert(it@ == spec_file_item(sv, tv, basev, model, dfv, sfv[i as int]));
            }
            let ghost prev = plan.deep_view();
            plan.push(it);
            proof {
                assert(plan.deep_view() =~= prev.push(it@));
            }
        }
        i = i + 1;
    }
    assert(sfv.take(src_files.len() as int) =~= sfv);

    match model {
        BackupModel::Full => {
            return Ok(plan);
        },
        BackupModel::Mirror => {},
    }

    let ghost copies = spec_copy_phase(sv, tv, basev, model, iv, dfv, sfv);
    let mut j: usize = 0;
    assert(plan.deep_view() =~= copies + spec_delete_phase(tv, basev, iv, sfv, dfv.take(0)));
    while j < dest_files.len()
        invariant
            j <= dest_files.len(),
            sv == source@,
            tv == target@,
            iv == ignore.deep_view(),
            sfv == src_files@,
            dfv == dest_files@,
            basev == base@,
            copies == spec_copy_phase(sv, tv, basev, model, iv, dfv, sfv),
            plan.deep_view() == copies + spec_delete_phase(tv, basev, iv, sfv, dfv.take(j as int)),
        decreases dest_files.len() - j,
    {
        proof {
            assert(dfv.take(j + 1).drop_last() =~= dfv.take(j as int));
            assert(dfv.take(j + 1).last() == dfv[j as int]);
        }
        let d = &dest_files[j];
        if is_seen(&d.rel, base, ignore, src_files) {
            proof {
                assert(spec_delete_phase(tv, basev, iv, sfv, dfv.take(j + 1))
                    == spec_delete_phase(tv, basev, iv, sfv, dfv.take(j as int)));
            }
        } else {
            let destp = BackupPath {
                absolute: target.absolute,
                parts: concat_parts(&target.parts, &d.rel),
            };
            let it = Item::from_delete_strategy(destp);
            let ghost prev = plan.deep_view();
            plan.push(it);
            proof {
                assert(plan.deep_view() =~= prev.push(it@));
                assert(copies + spec_delete_phase(tv, basev, iv, sfv, dfv.take(j + 1))
                    =~= (copies + spec_delete_phase(tv, basev, iv, sfv, dfv.take(j as int))).push(
                    it@));
            }
        }
        j = j + 1;
    }
    assert(dfv.take(dest_files.len() as int) =~= dfv);
    Ok(plan)
}

/// The effective destination of a single-file job: inside the target when
/// the target is a directory, the target itself otherwise.
pub open spec fn spec_single_dest(
    source: (bool, Seq<Seq<char>>),
    target: (bool, Seq<Seq<char>>),
    target_kind: NodeKind,
) -> (bool, Seq<Seq<char>>) {
    if target_kind == NodeKind::Dir {
        (target.0, target.1.push(source.1.last()))
    } else {
        target
    }
}

/// The planned action for a single-file job.
pub open spec fn spec_resolve_file(
    source: (bool, Seq<Seq<char>>),
    target: (bool, Seq<Seq<char>>),
    model: BackupModel,
    target_kind: NodeKind,
    src_size: u64,
    src_mtime: u64,
    dest_meta: Option<(u64, u64)>,
) -> ((bool, Seq<Seq<char>>), (bool, Seq<Seq<char>>), Strategy) {
    let dest = spec_single_dest(source, target, target_kind);
    let strat = if model == BackupModel::Full {
        Strategy::Copy
    } else if spec_needs_update(src_size, src_mtime, dest_meta) {
        Strategy::Copy
    } else {
        Strategy::NotUpdate
    };
    (source, dest, strat)
}

/// The fatal error a single-file job stops on, if any.
pub open spec fn spec_resolve_file_err(
    source: (bool, Seq<Seq<char>>),
    source_kind: NodeKind,
    target_kind: NodeKind,
) -> Option<PlanError> {
    if source_kind == NodeKind::Missing {
        Some(PlanError::SourceMissing)
    } else if source_kind == NodeKind::Dir {
        Some(PlanError::SourceNotFile)
    } else if target_kind == NodeKind::Dir && source.1.len() == 0 {
        Some(PlanError::InvalidFileName)
    } else {
        None
    }
}

/// Plans a single-file job.
///
/// `dest_meta` is the size and modification time of the file now at the
/// effective destination, or `None` when nothing is there.  On success
/// the single action is exactly `spec_resolve_file` over the inputs; the
/// error cases are exactly those of `spec_resolve_file_err`.
pub fn resolve_file(
    source: &BackupPath,
    target: &BackupPath,
    model: BackupModel,
    source_kind: NodeKind,
    target_kind: NodeKind,
    src_size: u64,
    src_mtime: u64,
    dest_meta: Option<(u64, u64)>,
) -> (r: Result<Item, PlanError>)
    ensures
        match r {
            Ok(item) => spec_resolve_file_err(source@, source_kind, target_kind) is None
                && item@ == spec_resolve_file(
                source@,
                target@,
                model,
                target_kind,
                src_size,
                src_mtime,
                dest_meta,
            ),
            Err(e) => spec_resolve_file_err(source@, source_kind, target_kind) == Some(e),
        },
{
    match source_kind {
        NodeKind::Missing => {
            return Err(PlanError::SourceMissing);
        },
        NodeKind::Dir => {
            return Err(PlanError::SourceNotFile);
        },
        NodeKind::File => {},
    }
    let dest = if matches!(target_kind, NodeKind::Dir) {
        let base = match source.base_name() {
            Some(b) => b,
            None => {
                return Err(PlanError::InvalidFileName);
            },
        };
        let mut parts = clone_parts(&target.parts);
        let ghost before = parts.deep_view();
        parts.push(base.clone());
        proof {
            assert(parts.deep_view() =~= before.push(base@));
        }
        BackupPath { absolute: target.absolute, parts }
    } else {
        BackupPath { absolute: target.absolute, parts: clone_parts(&target.parts) }
    };
    let strat = match model {
        BackupModel::Full => Strategy::Copy,
        BackupModel::Mirror => {
            if needs_update(src_size, src_mtime, dest_meta) {
                Strategy::Copy
            } else {
                Strategy::NotUpdate
            }
        },
    };
    let srcp = BackupPath { absolute: source.absolute, parts: clone_parts(&source.parts) };
    Ok(Item::new(srcp, dest, strat))
}

} // verus!
