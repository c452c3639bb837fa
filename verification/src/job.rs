//! Backup jobs and their settings.
//!
//! A `Job` is an immutable description of one backup unit: where to read,
//! where to write, what to leave out, whether to mirror deletions, and
//! whether to archive instead of copying.

use vstd::prelude::*;

use crate::pathname::BackupPath;

verus! {

/// Supported archive container formats.
#[derive(Clone, Copy, Debug, PartialEq, Eq, Structural)]
pub enum CompressFormat {
    Gzip,
    Zip,
    Sevenz,
    Zstd,
    Bzip2,
    Xz,
    Lz4,
    Tar,
}

/// Supported compression levels, mapped per format to a numeric level.
#[derive(Clone, Copy, Debug, PartialEq, Eq, Structural)]
pub enum Level {
    Fastest,
    Faster,
    Default,
    Better,
    Best,
}

/// How the destination is kept.
///
/// `Full` always copies and never deletes; `Mirror` skips up-to-date files
/// and deletes destination files that no longer correspond to the source.
#[derive(Clone, Copy, Debug, PartialEq, Eq, Structural)]
pub enum BackupModel {
    Full,
    Mirror,
}

impl Default for BackupModel {
    /// The default model copies everything and never deletes.
    fn default() -> (r: BackupModel)
        ensures
            r == BackupModel::Full,
    {
        BackupModel::Full
    }
}

/// One configured or ad-hoc backup unit.
#[derive(Debug)]
pub struct Job {
    /// Unique id among persisted jobs; 0 is reserved for one-shot jobs.
    pub id: u32,
    /// Source file or directory path.
    pub source: BackupPath,
    /// Target path: a directory that receives copies, or a file path for
    /// single-file jobs.
    pub target: BackupPath,
    /// Optional archive format; when set, the job produces one artifact
    /// instead of per-file copies.
    pub compression: Option<CompressFormat>,
    /// Optional compression level.
    pub level: Option<Level>,
    /// Source-relative patterns; paths under any of them are left out.
    pub ignore: Option<Vec<BackupPath>>,
    /// Backup model; `None` means the default, `Full`.
    pub model: Option<BackupModel>,
}

impl View for Job {
    type V = (
        u32,
        (bool, Seq<Seq<char>>),
        (bool, Seq<Seq<char>>),
        Option<CompressFormat>,
        Option<Level>,
        Option<Seq<(bool, Seq<Seq<char>>)>>,
        Option<BackupModel>,
    );

    open spec fn view(&self) -> Self::V {
        (
            self.id,
            self.source@,
            self.target@,
            self.compression,
            self.level,
            match self.ignore {
                Some(ps) => Some(ps.deep_view()),
                None => None,
            },
            self.model,
        )
    }
}

/// Copies a pattern list.
pub fn clone_patterns(patterns: &Vec<BackupPath>) -> (r: Vec<BackupPath>)
    ensures
        r.deep_view() == patterns.deep_view(),
{
    let mut r: Vec<BackupPath> = Vec::new();
    let mut i: usize = 0;
    while i < patterns.len()
        invariant
            i <= patterns.len(),
            r.deep_view() =~= patterns.deep_view().take(i as int),
        decreases patterns.len() - i,
    {
        let ghost prev = r.deep_view();
        r.push(patterns[i].clone());
        proof {
            assert(r.deep_view() =~= prev.push(patterns.deep_view()[i as int]));
            assert(patterns.deep_view().take(i + 1)
                =~= patterns.deep_view().take(i as int).push(patterns.deep_view()[i as int]));
        }
        i = i + 1;
    }
    assert(patterns.deep_view().take(patterns.len() as int) =~= patterns.deep_view());
    r
}

impl Clone for Job {
    /// A clone describes the same backup unit.
    fn clone(&self) -> (r: Self)
        ensures
            r@ == self@,
    {
        Job {
            id: self.id,
            source: self.source.clone(),
            target: self.target.clone(),
            compression: self.compression,
            level: self.level,
            ignore: match &self.ignore {
                Some(ps) => Some(clone_patterns(ps)),
                None => None,
            },
            model: self.model,
        }
    }
}

impl DeepView for Job {
    type V = <Job as View>::V;

    open spec fn deep_view(&self) -> Self::V {
        self@
    }
}

impl Job {
    /// An ephemeral one-shot job; its id is the reserved value 0.
    pub fn temp_job(
        source: BackupPath,
        target: BackupPath,
        compression: Option<CompressFormat>,
        level: Option<Level>,
        ignore: Option<Vec<BackupPath>>,
        model: Option<BackupModel>,
    ) -> (r: Job)
        ensures
            r.id == 0,
            r.source == source,
            r.target == target,
            r.compression == compression,
            r.level == level,
            r.ignore == ignore,
            r.model == model,
    {
        Job { id: 0, source, target, compression, level, ignore, model }
    }

    /// The job's effective model: the stated one, or the default `Full`.
    pub fn effective_model(&self) -> (r: BackupModel)
        ensures
            r == spec_effective_model(self.model),
    {
        match self.model {
            Some(m) => m,
            None => BackupModel::Full,
        }
    }
}

/// The model a job runs under when `model` is left unset.
pub open spec fn spec_effective_model(model: Option<BackupModel>) -> BackupModel {
    match model {
        Some(m) => m,
        None => BackupModel::Full,
    }
}

} // verus!
