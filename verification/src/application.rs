//! The configured job list.
//!
//! An `Application` value holds the persisted configuration: a version
//! string and the list of backup jobs.  Loading and storing it are the
//! configuration layer's concern; everything here is pure bookkeeping
//! over the in-memory list, including the scan for the smallest unused
//! job id.

use vstd::prelude::*;
use vstd::seq_lib::group_seq_properties;
use vstd::set_lib::{lemma_int_range, lemma_len_subset, set_int_range};

use crate::job::{BackupModel, CompressFormat, Job, Level};
use crate::pathname::BackupPath;

verus! {

/// Is `id` used by none of the listed ids?
pub open spec fn spec_unused(ids: Seq<u32>, id: u32) -> bool {
    forall|k: int| 0 <= k < ids.len() ==> (#[trigger] ids[k]) != id
}

/// The ids the listed jobs carry, in order.
pub open spec fn spec_job_ids(jobs: Seq<Job>) -> Seq<u32> {
    jobs.map_values(|j: Job| j.id)
}

/// Membership of an id in a list.
fn contains_id(ids: &Vec<u32>, id: u32) -> (r: bool)
    ensures
        r == !spec_unused(ids@, id),
{
    let mut k: usize = 0;
    while k < ids.len()
        invariant
            k <= ids.len(),
            forall|k2: int| 0 <= k2 < k ==> (#[trigger] ids@[k2]) != id,
        decreases ids.len() - k,
    {
        if ids[k] == id {
            return true;
        }
        k = k + 1;
    }
    false
}

/// A list too short to fill the id space leaves some id at or above
/// `start` unused: were every one used, the list would hold at least one
/// entry per value of the range.
proof fn lemma_short_list_leaves_an_id(ids: Seq<u32>, start: u32)
    requires
        ids.len() + start < 0x1_0000_0000,
    ensures
        exists|x: u32| start <= x && spec_unused(ids, x),
{
    broadcast use group_seq_properties;

    if !(exists|x: u32| start <= x && spec_unused(ids, x)) {
        let used = ids.map_values(|v: u32| v as int).to_set();
        let range = set_int_range(start as int, 0x1_0000_0000);
        lemma_int_range(start as int, 0x1_0000_0000);
        assert forall|x: int| range.contains(x) implies used.contains(x) by {
            let xu = x as u32;
            assert(!(start <= xu && spec_unused(ids, xu)));
            assert(!spec_unused(ids, xu));
            let k = choose|k: int| 0 <= k < ids.len() && ids[k] == xu;
            assert(ids.map_values(|v: u32| v as int)[k] == x);
            assert(ids.map_values(|v: u32| v as int).contains(x));
        }
        lemma_len_subset(range, used);
        ids.map_values(|v: u32| v as int).lemma_cardinality_of_set();
        assert(false);
    }
}

/// The smallest id at or above `start` that the list does not use.
///
/// The list must leave room below the id space's end: a length bound any
/// in-memory list meets.
pub fn smallest_unused_id(ids: &Vec<u32>, start: u32) -> (r: u32)
    requires
        ids@.len() + start < 0x1_0000_0000,
    ensures
        start <= r,
        spec_unused(ids@, r),
        forall|x: u32| start <= x < r ==> !spec_unused(ids@, x),
{
    let mut cand: u32 = start;
    loop
        invariant
            start <= cand,
            ids@.len() + start < 0x1_0000_0000,
            forall|x: u32| start <= x < cand ==> !spec_unused(ids@, x),
        decreases 0xFFFF_FFFFu32 - cand,
    {
        if !contains_id(ids, cand) {
            return cand;
        }
        proof {
            if cand == 0xFFFF_FFFFu32 {
                lemma_short_list_leaves_an_id(ids@, start);
                let x = choose|x: u32| start <= x && spec_unused(ids@, x);
                assert(x < cand || x == cand);
                assert(false);
            }
        }
        cand = cand + 1;
    }
}

/// The first job with the given id, if any.
pub open spec fn spec_find_job(jobs: Seq<Job>, id: u32) -> Option<Job>
    decreases jobs.len(),
{
    if jobs.len() == 0 {
        None
    } else if jobs.first().id == id {
        Some(jobs.first())
    } else {
        spec_find_job(jobs.drop_first(), id)
    }
}

/// The persisted configuration: a version string and the job list.
pub struct Application {
    /// Configuration version.
    pub version: String,
    /// The configured backup jobs.
    pub jobs: Vec<Job>,
}

impl Default for Application {
    /// An empty configuration at the current version.
    fn default() -> (r: Application)
        ensures
            r.version@ == "1.0"@,
            r.jobs@.len() == 0,
    {
        Application::new()
    }
}

impl Application {
    /// An empty configuration at the current version.
    pub fn new() -> (r: Application)
        ensures
            r.version@ == "1.0"@,
            r.jobs@.len() == 0,
    {
        Application { version: "1.0".to_owned(), jobs: Vec::new() }
    }

    /// Adds a new job under the smallest id not yet in use, starting from
    /// 1, and returns that id.  The rest of the list and the version are
    /// untouched.
    pub fn add_job(
        &mut self,
        source: BackupPath,
        target: BackupPath,
        compression: Option<CompressFormat>,
        level: Option<Level>,
        ignore: Option<Vec<BackupPath>>,
        model: Option<BackupModel>,
    ) -> (id: u32)
        requires
            old(self).jobs@.len() + 1 < 0x1_0000_0000,
        ensures
            1 <= id,
            spec_unused(spec_job_ids(old(self).jobs@), id),
            forall|x: u32|
                1 <= x < id ==> !(#[trigger] spec_unused(spec_job_ids(old(self).jobs@), x)),
            final(self).jobs@.len() == old(self).jobs@.len() + 1,
            final(self).jobs@.drop_last() == old(self).jobs@,
            final(self).jobs@.last().id == id,
            final(self).jobs@.last().source == source,
            final(self).jobs@.last().target == target,
            final(self).jobs@.last().compression == compression,
            final(self).jobs@.last().level == level,
            final(self).jobs@.last().ignore == ignore,
            final(self).jobs@.last().model == model,
            final(self).version == old(self).version,
    {
        let mut ids: Vec<u32> = Vec::new();
        let mut k: usize = 0;
        while k < self.jobs.len()
            invariant
                k <= self.jobs.len(),
                ids@ =~= spec_job_ids(self.jobs@).take(k as int),
            decreases self.jobs.len() - k,
        {
            ids.push(self.jobs[k].id);
            assert(ids@ =~= spec_job_ids(self.jobs@).take(k + 1));
            k = k + 1;
        }
        assert(ids@ =~= spec_job_ids(self.jobs@));
        let id = smallest_unused_id(&ids, 1);
        let job = Job { id, source, target, compression, level, ignore, model };
        self.jobs.push(job);
        assert(final(self).jobs@.drop_last() =~= old(self).jobs@);
        id
    }

    /// Empties the job list; the version is untouched.
    pub fn reset_jobs(&mut self)
        ensures
            final(self).jobs@.len() == 0,
            final(self).version == old(self).version,
    {
        self.jobs = Vec::new();
    }

    /// Removes the first job with the given id.  Returns `Some` exactly
    /// when a job carried it, with the rest of the list kept in order.
    pub fn remove_job(&mut self, id: u32) -> (r: Option<()>)
        ensures
            final(self).version == old(self).version,
            match r {
                Some(_) => exists|k: int|
                    0 <= k < old(self).jobs@.len() && (#[trigger] old(self).jobs@[k]).id == id && (
                    forall|k2: int| 0 <= k2 < k ==> (#[trigger] old(self).jobs@[k2]).id != id)
                        && final(self).jobs@ == old(self).jobs@.remove(k),
                None => final(self).jobs@ == old(self).jobs@ && forall|k: int|
                    0 <= k < old(self).jobs@.len() ==> (#[trigger] old(self).jobs@[k]).id != id,
            },
    {
        let mut k: usize = 0;
        while k < self.jobs.len()
            invariant
                k <= self.jobs.len(),
                self.jobs == old(self).jobs,
                self.version == old(self).version,
                forall|k2: int| 0 <= k2 < k ==> (#[trigger] self.jobs@[k2]).id != id,
            decreases self.jobs.len() - k,
        {
            if self.jobs[k].id == id {
                self.jobs.remove(k);
                return Some(());
            }
            k = k + 1;
        }
        None
    }

    /// The jobs whose ids the given list names, in configuration order.
    pub fn list_by_ids(&self, ids: &Vec<u32>) -> (r: Vec<Job>)
        ensures
            r.deep_view() == spec_filter_jobs_by_ids(self.jobs@, ids@),
    {
        let mut r: Vec<Job> = Vec::new();
        let mut k: usize = 0;
        assert(r.deep_view() =~= spec_filter_jobs_by_ids(self.jobs@.take(0), ids@));
        while k < self.jobs.len()
            invariant
                k <= self.jobs.len(),
                r.deep_view() == spec_filter_jobs_by_ids(self.jobs@.take(k as int), ids@),
            decreases self.jobs.len() - k,
        {
            proof {
                assert(self.jobs@.take(k + 1).drop_last() =~= self.jobs@.take(k as int));
                assert(self.jobs@.take(k + 1).last() == self.jobs@[k as int]);
            }
            if contains_id(ids, self.jobs[k].id) {
                let ghost prev = r.deep_view();
                r.push(self.jobs[k].clone());
                proof {
                    assert(r.deep_view() =~= prev.push(self.jobs@[k as int]@));
                }
            }
            k = k + 1;
        }
        assert(self.jobs@.take(self.jobs.len() as int) =~= self.jobs@);
        r
    }

    /// The jobs whose id is at least `id`, in configuration order.
    pub fn list_by_gte(&self, id: u32) -> (r: Vec<Job>)
        ensures
            r.deep_view() == spec_filter_jobs_gte(self.jobs@, id),
    {
        let mut r: Vec<Job> = Vec::new();
        let mut k: usize = 0;
        assert(r.deep_view() =~= spec_filter_jobs_gte(self.jobs@.take(0), id));
        while k < self.jobs.len()
            invariant
                k <= self.jobs.len(),
                r.deep_view() == spec_filter_jobs_gte(self.jobs@.take(k as int), id),
            decreases self.jobs.len() - k,
        {
            proof {
                assert(self.jobs@.take(k + 1).drop_last() =~= self.jobs@.take(k as int));
                assert(self.jobs@.take(k + 1).last() == self.jobs@[k as int]);
            }
            if self.jobs[k].id >= id {
                let ghost prev = r.deep_view();
                r.push(self.jobs[k].clone());
                proof {
                    assert(r.deep_view() =~= prev.push(self.jobs@[k as int]@));
                }
            }
            k = k + 1;
        }
        assert(self.jobs@.take(self.jobs.len() as int) =~= self.jobs@);
        r
    }

    /// The jobs whose id is at most `id`, in configuration order.
    pub fn list_by_lte(&self, id: u32) -> (r: Vec<Job>)
        ensures
            r.deep_view() == spec_filter_jobs_lte(self.jobs@, id),
    {
        let mut r: Vec<Job> = Vec::new();
        let mut k: usize = 0;
        assert(r.deep_view() =~= spec_filter_jobs_lte(self.jobs@.take(0), id));
        while k < self.jobs.len()
            invariant
                k <= self.jobs.len(),
                r.deep_view() == spec_filter_jobs_lte(self.jobs@.take(k as int), id),
            decreases self.jobs.len() - k,
        {
            proof {
                assert(self.jobs@.take(k + 1).drop_last() =~= self.jobs@.take(k as int));
                assert(self.jobs@.take(k + 1).last() == self.jobs@[k as int]);
            }
            if self.jobs[k].id <= id {
                let ghost prev = r.deep_view();
                r.push(self.jobs[k].clone());
                proof {
                    assert(r.deep_view() =~= prev.push(self.jobs@[k as int]@));
                }
            }
            k = k + 1;
        }
        assert(self.jobs@.take(self.jobs.len() as int) =~= self.jobs@);
        r
    }
}

/// Views of the jobs whose ids the list names, in order.
pub open spec fn spec_filter_jobs_by_ids(jobs: Seq<Job>, ids: Seq<u32>) -> Seq<
    <Job as View>::V,
>
    decreases jobs.len(),
{
    if jobs.len() == 0 {
        Seq::empty()
    } else {
        let rest = spec_filter_jobs_by_ids(jobs.drop_last(), ids);
        if !spec_unused(ids, jobs.last().id) {
            rest.push(jobs.last()@)
        } else {
            rest
        }
    }
}

/// Views of the jobs whose id is at least `id`, in order.
pub open spec fn spec_filter_jobs_gte(jobs: Seq<Job>, id: u32) -> Seq<<Job as View>::V>
    decreases jobs.len(),
{
    if jobs.len() == 0 {
        Seq::empty()
    } else {
        let rest = spec_filter_jobs_gte(jobs.drop_last(), id);
        if jobs.last().id >= id {
            rest.push(jobs.last()@)
        } else {
            rest
        }
    }
}

/// Views of the jobs whose id is at most `id`, in order.
pub open spec fn spec_filter_jobs_lte(jobs: Seq<Job>, id: u32) -> Seq<<Job as View>::V>
    decreases jobs.len(),
{
    if jobs.len() == 0 {
        Seq::empty()
    } else {
        let rest = spec_filter_jobs_lte(jobs.drop_last(), id);
        if jobs.last().id <= id {
            rest.push(jobs.last()@)
        } else {
            rest
        }
    }
}

} // verus!
