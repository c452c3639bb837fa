//! Executor decisions.
//!
//! Performing an action touches the filesystem, which this crate never
//! does.  Instead, `apply_action` turns one planned item and the current
//! state of its destination into the single `Effect` the caller is to
//! perform: copy bytes, remove a file, remove a subtree, or nothing.
//! The copy effect overwrites and implies creating the destination's
//! parent directories; a `Delete` whose destination is already gone
//! succeeds as a no-op, so retrying is harmless.

use vstd::prelude::*;

use crate::item::{Item, Strategy};
use crate::pathname::BackupPath;
use crate::planner::PlanError;
use crate::snapshot::NodeKind;

verus! {

/// One filesystem effect for the caller to perform.
#[derive(Debug)]
pub enum Effect {
    /// Copy file bytes from `src` to `dest`, creating `dest`'s parent
    /// directories and overwriting any existing file.
    CopyFile { src: BackupPath, dest: BackupPath },
    /// Remove the regular file at `dest`.
    RemoveFile { dest: BackupPath },
    /// Remove the directory at `dest` and everything under it.
    RemoveDir { dest: BackupPath },
    /// No effect.
    Nothing,
}

/// Decides the effect of one planned action.
///
/// `dest_kind` is what the action's destination currently is.  `Copy`
/// always copies; `Delete` removes whatever is there and is a no-op when
/// nothing is; `Ignore` and `NotUpdate` never touch the filesystem.
pub fn apply_action(item: Item, dest_kind: NodeKind) -> (e: Effect)
    ensures
        match item.strategy {
            Strategy::Copy => (e matches Effect::CopyFile { src, dest } && src == item.src && dest
                == item.dest),
            Strategy::Delete => (match dest_kind {
                NodeKind::Missing => e matches Effect::Nothing,
                NodeKind::File => (e matches Effect::RemoveFile { dest } && dest == item.dest),
                NodeKind::Dir => (e matches Effect::RemoveDir { dest } && dest == item.dest),
            }),
            Strategy::Ignore => e matches Effect::Nothing,
            Strategy::NotUpdate => e matches Effect::Nothing,
        },
{
    match item.strategy {
        Strategy::Copy => Effect::CopyFile { src: item.src, dest: item.dest },
        Strategy::Delete => match dest_kind {
            NodeKind::Missing => Effect::Nothing,
            NodeKind::File => Effect::RemoveFile { dest: item.dest },
            NodeKind::Dir => Effect::RemoveDir { dest: item.dest },
        },
        Strategy::Ignore => Effect::Nothing,
        Strategy::NotUpdate => Effect::Nothing,
    }
}

/// Where a standalone copy request is to go.
#[derive(Debug)]
pub enum CopyRoute {
    /// The source is a directory: create the destination directory tree
    /// and stop.
    CreateDir,
    /// The source is a file: copy its bytes to this effective destination.
    CopyTo { dest: BackupPath },
}

/// Decides a standalone source-to-destination copy, outside any plan.
///
/// A missing source is a fatal error; a directory source only ensures the
/// destination directory exists and cannot overwrite a regular file; a
/// file source lands inside a destination directory under its own name,
/// or at the destination path itself otherwise.
pub fn copy_route(
    source: &BackupPath,
    dest: &BackupPath,
    source_kind: NodeKind,
    dest_kind: NodeKind,
) -> (r: Result<CopyRoute, PlanError>)
    ensures
        match r {
            Ok(route) => source_kind != NodeKind::Missing && (match route {
                CopyRoute::CreateDir => source_kind == NodeKind::Dir && dest_kind
                    != NodeKind::File,
                CopyRoute::CopyTo { dest: d } => source_kind == NodeKind::File && d@
                    == crate::planner::spec_single_dest(source@, dest@, dest_kind),
            }),
            Err(e) => (if source_kind == NodeKind::Missing {
                e == PlanError::SourceMissing
            } else if source_kind == NodeKind::Dir {
                e == PlanError::TargetNotDirectory && dest_kind == NodeKind::File
            } else {
                e == PlanError::InvalidFileName && dest_kind == NodeKind::Dir && source@.1.len()
                    == 0
            }),
        },
{
    match source_kind {
        NodeKind::Missing => Err(PlanError::SourceMissing),
        NodeKind::Dir => {
            if matches!(dest_kind, NodeKind::File) {
                Err(PlanError::TargetNotDirectory)
            } else {
                Ok(CopyRoute::CreateDir)
            }
        },
        NodeKind::File => {
            if matches!(dest_kind, NodeKind::Dir) {
                let base = match source.base_name() {
                    Some(b) => b,
                    None => {
                        return Err(PlanError::InvalidFileName);
                    },
                };
                let mut parts = crate::pathname::clone_parts(&dest.parts);
                let ghost before = parts.deep_view();
                parts.push(base.clone());
                proof {
                    assert(parts.deep_view() =~= before.push(base@));
                }
                Ok(CopyRoute::CopyTo {
                    dest: BackupPath { absolute: dest.absolute, parts },
                })
            } else {
                Ok(CopyRoute::CopyTo {
                    dest: BackupPath {
                        absolute: dest.absolute,
                        parts: crate::pathname::clone_parts(&dest.parts),
                    },
                })
            }
        },
    }
}

/// The per-job failure policy: per-action failures are collected while
/// every action still runs; the job fails exactly when the collection is
/// non-empty, and the first collected failure is surfaced as the job's
/// error.
pub fn first_failure(outcomes: Vec<Option<String>>) -> (r: Option<String>)
    ensures
        match r {
            Some(msg) => exists|i: int|
                0 <= i < outcomes@.len() && outcomes@[i] == Some(msg) && (forall|k: int|
                    0 <= k < i ==> (#[trigger] outcomes@[k]) is None),
            None => forall|i: int| 0 <= i < outcomes@.len() ==> (#[trigger] outcomes@[i]) is None,
        },
{
    let mut i: usize = 0;
    while i < outcomes.len()
        invariant
            i <= outcomes.len(),
            forall|k: int| 0 <= k < i ==> (#[trigger] outcomes@[k]) is None,
        decreases outcomes.len() - i,
    {
        if outcomes[i].is_some() {
            let r = outcomes[i].clone();
            assert(match r {
                Some(msg) => outcomes@[i as int] == Some(msg),
                None => false,
            });
            return r;
        }
        i = i + 1;
    }
    None
}

} // verus!
