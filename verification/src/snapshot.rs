//! Snapshots of the filesystem as plain values.
//!
//! The planner never reads the disk.  The caller walks the source and
//! destination trees, records every regular file as a `FileEntry`, and
//! hands the listings in; what a path currently is arrives as a
//! `NodeKind`.  The update heuristic over sizes and modification times
//! lives here too.

use vstd::prelude::*;

verus! {

/// What a path currently is on disk.
#[derive(Clone, Copy, Debug, PartialEq, Eq, Structural)]
pub enum NodeKind {
    /// Nothing exists at the path.
    Missing,
    /// A regular file.
    File,
    /// A directory.
    Dir,
}

/// One regular file in a tree listing: its path relative to the listed
/// root, its size in bytes, and its modification time in whole seconds.
#[derive(Debug)]
pub struct FileEntry {
    pub rel: Vec<String>,
    pub size: u64,
    pub mtime: u64,
}

impl FileEntry {
    /// Builds an entry from its fields.
    pub fn new(rel: Vec<String>, size: u64, mtime: u64) -> (r: FileEntry)
        ensures
            r.rel == rel,
            r.size == size,
            r.mtime == mtime,
    {
        FileEntry { rel, size, mtime }
    }
}

/// The slack allowed between modification times before a file counts as
/// newer, in seconds.  It absorbs filesystem timestamp granularity.
pub const MTIME_TOLERANCE: u64 = 1;

/// Does the destination need to be rewritten from the source?
///
/// True when the destination is absent, when the sizes differ, or when the
/// source's modification time exceeds the destination's by more than the
/// tolerance.  Equal-size files with close times are treated as up to
/// date even if their contents differ: a heuristic, not a comparison.
pub open spec fn spec_needs_update(
    src_size: u64,
    src_mtime: u64,
    dest: Option<(u64, u64)>,
) -> bool {
    match dest {
        None => true,
        Some((dest_size, dest_mtime)) => src_size != dest_size || src_mtime > dest_mtime
            + MTIME_TOLERANCE,
    }
}

/// The update heuristic; `dest` is the destination file's size and
/// modification time, or `None` when no file exists there.
pub fn needs_update(src_size: u64, src_mtime: u64, dest: Option<(u64, u64)>) -> (r: bool)
    ensures
        r == spec_needs_update(src_size, src_mtime, dest),
{
    match dest {
        None => true,
        Some((dest_size, dest_mtime)) => src_size != dest_size || (src_mtime > dest_mtime
            && src_mtime - dest_mtime > MTIME_TOLERANCE),
    }
}

/// The size and modification time of the first entry whose path equals
/// `key`, searching front to back.
pub open spec fn spec_lookup(entries: Seq<FileEntry>, key: Seq<Seq<char>>) -> Option<(u64, u64)>
    decreases entries.len(),
{
    if entries.len() == 0 {
        None
    } else if entries.first().rel.deep_view() == key {
        Some((entries.first().size, entries.first().mtime))
    } else {
        spec_lookup(entries.drop_first(), key)
    }
}

/// Finds `key` in a tree listing.
pub fn lookup_entry(entries: &Vec<FileEntry>, key: &Vec<String>) -> (r: Option<(u64, u64)>)
    ensures
        r == spec_lookup(entries@, key.deep_view()),
{
    let mut i: usize = 0;
    assert(entries@.skip(0) =~= entries@);
    while i < entries.len()
        invariant
            i <= entries.len(),
            spec_lookup(entries@.skip(i as int), key.deep_view()) == spec_lookup(
                entries@,
                key.deep_view(),
            ),
        decreases entries.len() - i,
    {
        let ghost pre = entries@.skip(i as int);
        assert(pre.first() == entries@[i as int]);
        if crate::pathname::parts_eq(&entries[i].rel, key) {
            return Some((entries[i].size, entries[i].mtime));
        }
        assert(pre.drop_first() =~= entries@.skip(i + 1));
        i = i + 1;
    }
    assert(entries@.skip(entries.len() as int) =~= Seq::<FileEntry>::empty());
    None
}

} // verus!
