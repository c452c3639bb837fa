//! The legacy task list.
//!
//! A `Task` is the older, bare form of a backup unit: an id and a
//! source-target pair.  The persisted list is handed in as a plain
//! vector; finding, numbering and removing tasks is pure list work.

use vstd::prelude::*;

use crate::application::{smallest_unused_id, spec_unused};
use crate::pathname::BackupPath;

verus! {

/// One stored backup task.
#[derive(Debug)]
pub struct Task {
    pub id: u32,
    pub source: BackupPath,
    pub target: BackupPath,
}

/// The ids the listed tasks carry, in order.
pub open spec fn spec_task_ids(tasks: Seq<Task>) -> Seq<u32> {
    tasks.map_values(|t: Task| t.id)
}

/// The index of the first task with the given id, if any.
pub open spec fn spec_find_task(tasks: Seq<Task>, id: u32) -> Option<int> {
    if exists|k: int| 0 <= k < tasks.len() && (#[trigger] tasks[k]).id == id {
        Some(
            choose|k: int|
                0 <= k < tasks.len() && (#[trigger] tasks[k]).id == id && forall|k2: int|
                    0 <= k2 < k ==> (#[trigger] tasks[k2]).id != id,
        )
    } else {
        None
    }
}

impl Task {
    /// Builds a task under the given id, or numbers it like `new_id` when
    /// no id is given.
    pub fn new(
        id: Option<u32>,
        source: BackupPath,
        target: BackupPath,
        existing: &Vec<Task>,
    ) -> (r: Task)
        requires
            existing@.len() < 0x1_0000_0000,
        ensures
            r.source == source,
            r.target == target,
            match id {
                Some(v) => r.id == v,
                None => spec_unused(spec_task_ids(existing@), r.id) && forall|x: u32|
                    x < r.id ==> !(#[trigger] spec_unused(spec_task_ids(existing@), x)),
            },
    {
        match id {
            Some(id) => Task { id, source, target },
            None => Task::new_id(source, target, existing),
        }
    }

    /// Builds a task under the smallest id, from 0 up, that none of the
    /// existing tasks uses; an empty list gives id 0.
    pub fn new_id(source: BackupPath, target: BackupPath, existing: &Vec<Task>) -> (r: Task)
        requires
            existing@.len() < 0x1_0000_0000,
        ensures
            r.source == source,
            r.target == target,
            spec_unused(spec_task_ids(existing@), r.id),
            forall|x: u32| x < r.id ==> !(#[trigger] spec_unused(spec_task_ids(existing@), x)),
    {
        let mut ids: Vec<u32> = Vec::new();
        let mut k: usize = 0;
        while k < existing.len()
            invariant
                k <= existing.len(),
                ids@ =~= spec_task_ids(existing@).take(k as int),
            decreases existing.len() - k,
        {
            ids.push(existing[k].id);
            assert(ids@ =~= spec_task_ids(existing@).take(k + 1));
            k = k + 1;
        }
        assert(ids@ =~= spec_task_ids(existing@));
        let id = smallest_unused_id(&ids, 0);
        Task { id, source, target }
    }

    /// The first task with the given id, if any is listed.
    pub fn get<'a>(id: &u32, tasks: &'a Vec<Task>) -> (r: Option<&'a Task>)
        ensures
            match r {
                Some(t) => {
                    &&& spec_find_task(tasks@, *id) is Some
                    &&& {
                        let k = spec_find_task(tasks@, *id)->0;
                        0 <= k < tasks@.len() && *t == tasks@[k] && t.id == id
                    }
                },
                None => spec_find_task(tasks@, *id) is None,
            },
    {
        let mut k: usize = 0;
        while k < tasks.len()
            invariant
                k <= tasks.len(),
                forall|k2: int| 0 <= k2 < k ==> (#[trigger] tasks@[k2]).id != id,
            decreases tasks.len() - k,
        {
            if tasks[k].id == *id {
                proof {
                    assert(tasks@[k as int].id == *id && forall|k2: int|
                        0 <= k2 < k ==> (#[trigger] tasks@[k2]).id != *id);
                    let kk = spec_find_task(tasks@, *id)->0;
                    if kk < k {
                        assert(tasks@[kk].id == *id);
                    } else if kk > k {
                        assert(tasks@[k as int].id != *id);
                    }
                }
                return Some(&tasks[k]);
            }
            k = k + 1;
        }
        proof {
            if spec_find_task(tasks@, *id) is Some {
                let kk = choose|kk: int| 0 <= kk < tasks@.len() && (#[trigger] tasks@[kk]).id
                    == id;
                assert(false);
            }
        }
        None
    }

    /// Removes the first task with the given id.  Returns `true` exactly
    /// when a task carried it, with the rest of the list kept in order.
    pub fn delete_by_id(id: u32, tasks: &mut Vec<Task>) -> (r: bool)
        ensures
            match spec_find_task(old(tasks)@, id) {
                Some(k) => r && final(tasks)@ == old(tasks)@.remove(k),
                None => !r && final(tasks)@ == old(tasks)@,
            },
    {
        let mut k: usize = 0;
        while k < tasks.len()
            invariant
                k <= tasks.len(),
                tasks@ == old(tasks)@,
                forall|k2: int| 0 <= k2 < k ==> (#[trigger] tasks@[k2]).id != id,
            decreases tasks.len() - k,
        {
            if tasks[k].id == id {
                proof {
                    assert(tasks@[k as int].id == id && forall|k2: int|
                        0 <= k2 < k ==> (#[trigger] tasks@[k2]).id != id);
                    let kk = spec_find_task(tasks@, id)->0;
                    if kk < k {
                        assert(tasks@[kk].id == id);
                    } else if kk > k {
                        assert(tasks@[k as int].id != id);
                    }
                }
                tasks.remove(k);
                return true;
            }
            k = k + 1;
        }
        proof {
            if spec_find_task(tasks@, id) is Some {
                let kk = choose|kk: int| 0 <= kk < tasks@.len() && (#[trigger] tasks@[kk]).id
                    == id;
                assert(false);
            }
        }
        false
    }
}

} // verus!
