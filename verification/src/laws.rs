//! Laws of the planner.
//!
//! Each public proof function here states one guarantee of tree planning
//! over the same spec functions the planner's own contract uses: the
//! `Full` model never deletes, ignored sources are never copied, mirror
//! planning deletes exactly the unaccounted-for destination files, and a
//! destination that already satisfies the source plans to nothing but
//! skips.

use vstd::prelude::*;

use crate::item::{delete_item_view, Strategy};
use crate::job::BackupModel;
use crate::planner::{spec_copy_phase, spec_delete_phase, spec_dest_rel, spec_file_item,
    spec_ignored, spec_resolve_tree, spec_seen};
use crate::snapshot::{spec_lookup, spec_needs_update, FileEntry};

verus! {

/// Every copy-pass action stands for one non-ignored source file.
proof fn lemma_copy_phase_item_shape(
    source: (bool, Seq<Seq<char>>),
    target: (bool, Seq<Seq<char>>),
    base: Seq<char>,
    model: BackupModel,
    ignore: Seq<(bool, Seq<Seq<char>>)>,
    dest_files: Seq<FileEntry>,
    src_files: Seq<FileEntry>,
    i: int,
)
    requires
        0 <= i < spec_copy_phase(source, target, base, model, ignore, dest_files,
        src_files).len(),
    ensures
        exists|j: int|
            0 <= j < src_files.len() && !spec_ignored(
                (#[trigger] src_files[j]).rel.deep_view(),
                ignore,
            ) && spec_copy_phase(source, target, base, model, ignore, dest_files, src_files)[i]
                == spec_file_item(source, target, base, model, dest_files, src_files[j]),
    decreases src_files.len(),
{
    let phase = spec_copy_phase(source, target, base, model, ignore, dest_files, src_files);
    let rest = spec_copy_phase(
        source,
        target,
        base,
        model,
        ignore,
        dest_files,
        src_files.drop_last(),
    );
    let e = src_files.last();
    if spec_ignored(e.rel.deep_view(), ignore) {
        lemma_copy_phase_item_shape(source, target, base, model, ignore, dest_files,
            src_files.drop_last(), i);
        let j = choose|j: int|
            0 <= j < src_files.drop_last().len() && !spec_ignored(
                (#[trigger] src_files.drop_last()[j]).rel.deep_view(),
                ignore,
            ) && rest[i] == spec_file_item(source, target, base, model, dest_files,
                src_files.drop_last()[j]);
        assert(src_files.drop_last()[j] == src_files[j]);
        assert(!spec_ignored(src_files[j].rel.deep_view(), ignore) && phase[i]
            == spec_file_item(source, target, base, model, dest_files, src_files[j]));
    } else {
        if i < rest.len() {
            lemma_copy_phase_item_shape(source, target, base, model, ignore, dest_files,
                src_files.drop_last(), i);
            let j = choose|j: int|
                0 <= j < src_files.drop_last().len() && !spec_ignored(
                    (#[trigger] src_files.drop_last()[j]).rel.deep_view(),
                    ignore,
                ) && rest[i] == spec_file_item(source, target, base, model, dest_files,
                    src_files.drop_last()[j]);
            assert(src_files.drop_last()[j] == src_files[j]);
            assert(!spec_ignored(src_files[j].rel.deep_view(), ignore) && phase[i]
                == spec_file_item(source, target, base, model, dest_files, src_files[j]));
        } else {
            let j = src_files.len() - 1;
            assert(src_files[j] == e);
            assert(phase[i] == spec_file_item(source, target, base, model, dest_files,
                src_files[j]));
        }
    }
}

/// Every deletion-pass action removes the destination path of one
/// destination file the seen set does not account for.
proof fn lemma_delete_phase_sound(
    target: (bool, Seq<Seq<char>>),
    base: Seq<char>,
    ignore: Seq<(bool, Seq<Seq<char>>)>,
    src_files: Seq<FileEntry>,
    dest_files: Seq<FileEntry>,
    i: int,
)
    requires
        0 <= i < spec_delete_phase(target, base, ignore, src_files, dest_files).len(),
    ensures
        exists|d: int|
            0 <= d < dest_files.len() && !spec_seen(
                base,
                ignore,
                src_files,
                (#[trigger] dest_files[d]).rel.deep_view(),
            ) && spec_delete_phase(target, base, ignore, src_files, dest_files)[i]
                == delete_item_view((target.0, target.1 + dest_files[d].rel.deep_view())),
    decreases dest_files.len(),
{
    let phase = spec_delete_phase(target, base, ignore, src_files, dest_files);
    let rest = spec_delete_phase(target, base, ignore, src_files, dest_files.drop_last());
    let d_last = dest_files.last();
    if spec_seen(base, ignore, src_files, d_last.rel.deep_view()) || i < rest.len() {
        lemma_delete_phase_sound(target, base, ignore, src_files, dest_files.drop_last(), i);
        let d = choose|d: int|
            0 <= d < dest_files.drop_last().len() && !spec_seen(
                base,
                ignore,
                src_files,
                (#[trigger] dest_files.drop_last()[d]).rel.deep_view(),
            ) && rest[i] == delete_item_view(
                (target.0, target.1 + dest_files.drop_last()[d].rel.deep_view()),
            );
        assert(dest_files.drop_last()[d] == dest_files[d]);
        assert(!spec_seen(base, ignore, src_files, dest_files[d].rel.deep_view()) && phase[i]
            == delete_item_view((target.0, target.1 + dest_files[d].rel.deep_view())));
    } else {
        let d = dest_files.len() - 1;
        assert(dest_files[d] == d_last);
        assert(!spec_seen(base, ignore, src_files, dest_files[d].rel.deep_view()) && phase[i]
            == delete_item_view((target.0, target.1 + dest_files[d].rel.deep_view())));
    }
}

/// Every destination file the seen set does not account for gets a
/// deletion-pass action.
proof fn lemma_delete_phase_covers(
    target: (bool, Seq<Seq<char>>),
    base: Seq<char>,
    ignore: Seq<(bool, Seq<Seq<char>>)>,
    src_files: Seq<FileEntry>,
    dest_files: Seq<FileEntry>,
    d: int,
)
    requires
        0 <= d < dest_files.len(),
        !spec_seen(base, ignore, src_files, dest_files[d].rel.deep_view()),
    ensures
        exists|i: int|
            0 <= i < spec_delete_phase(target, base, ignore, src_files, dest_files).len()
                && spec_delete_phase(target, base, ignore, src_files, dest_files)[i]
                == delete_item_view((target.0, target.1 + dest_files[d].rel.deep_view())),
    decreases dest_files.len(),
{
    let phase = spec_delete_phase(target, base, ignore, src_files, dest_files);
    let rest = spec_delete_phase(target, base, ignore, src_files, dest_files.drop_last());
    if d == dest_files.len() - 1 {
        assert(phase[phase.len() - 1] == delete_item_view(
            (target.0, target.1 + dest_files[d].rel.deep_view()),
        ));
    } else {
        assert(dest_files.drop_last()[d] == dest_files[d]);
        lemma_delete_phase_covers(target, base, ignore, src_files, dest_files.drop_last(), d);
        let i = choose|i: int|
            0 <= i < rest.len() && rest[i] == delete_item_view(
                (target.0, target.1 + dest_files.drop_last()[d].rel.deep_view()),
            );
        assert(phase[i] == rest[i]);
    }
}

/// Appending to a common front keeps distinct sequences distinct.
proof fn lemma_append_cancel(front: Seq<Seq<char>>, a: Seq<Seq<char>>, b: Seq<Seq<char>>)
    requires
        front + a == front + b,
    ensures
        a == b,
{
    assert((front + a).skip(front.len() as int) =~= a);
    assert((front + b).skip(front.len() as int) =~= b);
}

/// Two distinct deletion-pass actions never name the same destination,
/// as long as the destination listing itself has no duplicate paths.
proof fn lemma_delete_phase_unique(
    target: (bool, Seq<Seq<char>>),
    base: Seq<char>,
    ignore: Seq<(bool, Seq<Seq<char>>)>,
    src_files: Seq<FileEntry>,
    dest_files: Seq<FileEntry>,
    i1: int,
    i2: int,
)
    requires
        forall|a: int, b: int|
            0 <= a < b < dest_files.len() ==> (#[trigger] dest_files[a]).rel.deep_view() != (
            #[trigger] dest_files[b]).rel.deep_view(),
        0 <= i1 < i2 < spec_delete_phase(target, base, ignore, src_files, dest_files).len(),
    ensures
        spec_delete_phase(target, base, ignore, src_files, dest_files)[i1].1 != spec_delete_phase(
            target,
            base,
            ignore,
            src_files,
            dest_files,
        )[i2].1,
    decreases dest_files.len(),
{
    let phase = spec_delete_phase(target, base, ignore, src_files, dest_files);
    let rest = spec_delete_phase(target, base, ignore, src_files, dest_files.drop_last());
    let d_last = dest_files.last();
    if spec_seen(base, ignore, src_files, d_last.rel.deep_view()) {
        lemma_delete_phase_unique(target, base, ignore, src_files, dest_files.drop_last(), i1, i2);
    } else if i2 < rest.len() {
        lemma_delete_phase_unique(target, base, ignore, src_files, dest_files.drop_last(), i1, i2);
    } else {
        // phase[i2] is the action pushed for the last destination file.
        lemma_delete_phase_sound(target, base, ignore, src_files, dest_files.drop_last(), i1);
        let d = choose|d: int|
            0 <= d < dest_files.drop_last().len() && !spec_seen(
                base,
                ignore,
                src_files,
                (#[trigger] dest_files.drop_last()[d]).rel.deep_view(),
            ) && rest[i1] == delete_item_view(
                (target.0, target.1 + dest_files.drop_last()[d].rel.deep_view()),
            );
        assert(dest_files.drop_last()[d] == dest_files[d]);
        assert(dest_files[d].rel.deep_view() != d_last.rel.deep_view());
        assert(phase[i1] == rest[i1]);
        assert(phase[i2] == delete_item_view((target.0, target.1 + d_last.rel.deep_view())));
        if phase[i1].1 == phase[i2].1 {
            lemma_append_cancel(target.1, dest_files[d].rel.deep_view(), d_last.rel.deep_view());
        }
    }
}

/// Under the `Full` model no `Delete` action is ever produced, whatever
/// extra files the destination holds.
pub proof fn lemma_full_model_never_deletes(
    source: (bool, Seq<Seq<char>>),
    target: (bool, Seq<Seq<char>>),
    ignore: Seq<(bool, Seq<Seq<char>>)>,
    src_files: Seq<FileEntry>,
    dest_files: Seq<FileEntry>,
)
    ensures
        forall|i: int|
            0 <= i < spec_resolve_tree(source, target, BackupModel::Full, ignore, src_files,
            dest_files).len() ==> (#[trigger] spec_resolve_tree(
                source,
                target,
                BackupModel::Full,
                ignore,
                src_files,
                dest_files,
            )[i]).2 != Strategy::Delete,
{
    let tree = spec_resolve_tree(source, target, BackupModel::Full, ignore, src_files, dest_files);
    let base = source.1.last();
    assert forall|i: int| 0 <= i < tree.len() implies (#[trigger] tree[i]).2
        != Strategy::Delete by {
        lemma_copy_phase_item_shape(source, target, base, BackupModel::Full, ignore, dest_files,
            src_files, i);
    }
}

/// A file under an ignored subtree is never the source of a `Copy`
/// action: every `Copy` in the worklist copies a non-ignored source file.
pub proof fn lemma_ignored_source_never_copied(
    source: (bool, Seq<Seq<char>>),
    target: (bool, Seq<Seq<char>>),
    model: BackupModel,
    ignore: Seq<(bool, Seq<Seq<char>>)>,
    src_files: Seq<FileEntry>,
    dest_files: Seq<FileEntry>,
)
    ensures
        forall|i: int|
            0 <= i < spec_resolve_tree(source, target, model, ignore, src_files, dest_files).len()
                && (#[trigger] spec_resolve_tree(source, target, model, ignore, src_files,
            dest_files)[i]).2 == Strategy::Copy ==> exists|j: int|
                0 <= j < src_files.len() && !spec_ignored(
                    (#[trigger] src_files[j]).rel.deep_view(),
                    ignore,
                ) && spec_resolve_tree(source, target, model, ignore, src_files, dest_files)[i].0
                == (source.0, source.1 + src_files[j].rel.deep_view()),
{
    let tree = spec_resolve_tree(source, target, model, ignore, src_files, dest_files);
    let base = source.1.last();
    let copies = spec_copy_phase(source, target, base, model, ignore, dest_files, src_files);
    assert forall|i: int|
        0 <= i < tree.len() && (#[trigger] tree[i]).2 == Strategy::Copy implies exists|j: int|
        0 <= j < src_files.len() && !spec_ignored(
            (#[trigger] src_files[j]).rel.deep_view(),
            ignore,
        ) && tree[i].0 == (source.0, source.1 + src_files[j].rel.deep_view()) by {
        if i < copies.len() {
            lemma_copy_phase_item_shape(source, target, base, model, ignore, dest_files,
                src_files, i);
            let j = choose|j: int|
                0 <= j < src_files.len() && !spec_ignored(
                    (#[trigger] src_files[j]).rel.deep_view(),
                    ignore,
                ) && copies[i] == spec_file_item(source, target, base, model, dest_files,
                    src_files[j]);
            assert(tree[i] == copies[i]);
            assert(tree[i].0 == (source.0, source.1 + src_files[j].rel.deep_view()));
        } else {
            // Beyond the copy pass only deletions stand, and those are
            // never `Copy` actions.
            lemma_delete_phase_sound(target, base, ignore, src_files, dest_files,
                i - copies.len());
        }
    }
}

/// Mirror planning deletes exactly the unaccounted-for destination files:
/// each destination file absent from the seen set gets one `Delete` of
/// its destination path, every `Delete` names such a file, and no two
/// `Delete` actions name the same path.
pub proof fn lemma_mirror_deletion_complete(
    source: (bool, Seq<Seq<char>>),
    target: (bool, Seq<Seq<char>>),
    ignore: Seq<(bool, Seq<Seq<char>>)>,
    src_files: Seq<FileEntry>,
    dest_files: Seq<FileEntry>,
)
    requires
        forall|a: int, b: int|
            0 <= a < b < dest_files.len() ==> (#[trigger] dest_files[a]).rel.deep_view() != (
            #[trigger] dest_files[b]).rel.deep_view(),
    ensures
        forall|d: int|
            0 <= d < dest_files.len() && !spec_seen(
                source.1.last(),
                ignore,
                src_files,
                (#[trigger] dest_files[d]).rel.deep_view(),
            ) ==> exists|i: int|
                0 <= i < spec_resolve_tree(source, target, BackupModel::Mirror, ignore, src_files,
                dest_files).len() && spec_resolve_tree(
                    source,
                    target,
                    BackupModel::Mirror,
                    ignore,
                    src_files,
                    dest_files,
                )[i] == delete_item_view((target.0, target.1 + dest_files[d].rel.deep_view())),
        forall|i: int|
            0 <= i < spec_resolve_tree(source, target, BackupModel::Mirror, ignore, src_files,
            dest_files).len() && (#[trigger] spec_resolve_tree(
                source,
                target,
                BackupModel::Mirror,
                ignore,
                src_files,
                dest_files,
            )[i]).2 == Strategy::Delete ==> exists|d: int|
                0 <= d < dest_files.len() && !spec_seen(
                    source.1.last(),
                    ignore,
                    src_files,
                    (#[trigger] dest_files[d]).rel.deep_view(),
                ) && spec_resolve_tree(source, target, BackupModel::Mirror, ignore, src_files,
                dest_files)[i].1 == (target.0, target.1 + dest_files[d].rel.deep_view()),
        forall|i1: int, i2: int|
            0 <= i1 < spec_resolve_tree(source, target, BackupModel::Mirror, ignore, src_files,
            dest_files).len() && 0 <= i2 < spec_resolve_tree(source, target, BackupModel::Mirror,
            ignore, src_files, dest_files).len() && i1 != i2 && (#[trigger] spec_resolve_tree(
                source,
                target,
                BackupModel::Mirror,
                ignore,
                src_files,
                dest_files,
            )[i1]).2 == Strategy::Delete && (#[trigger] spec_resolve_tree(
                source,
                target,
                BackupModel::Mirror,
                ignore,
                src_files,
                dest_files,
            )[i2]).2 == Strategy::Delete ==> spec_resolve_tree(
                source,
                target,
                BackupModel::Mirror,
                ignore,
                src_files,
                dest_files,
            )[i1].1 != spec_resolve_tree(
                source,
                target,
                BackupModel::Mirror,
                ignore,
                src_files,
                dest_files,
            )[i2].1,
{
    let model = BackupModel::Mirror;
    let tree = spec_resolve_tree(source, target, model, ignore, src_files, dest_files);
    let base = source.1.last();
    let copies = spec_copy_phase(source, target, base, model, ignore, dest_files, src_files);
    let dels = spec_delete_phase(target, base, ignore, src_files, dest_files);

    assert forall|d: int|
        0 <= d < dest_files.len() && !spec_seen(
            base,
            ignore,
            src_files,
            (#[trigger] dest_files[d]).rel.deep_view(),
        ) implies exists|i: int|
        0 <= i < tree.len() && tree[i] == delete_item_view(
            (target.0, target.1 + dest_files[d].rel.deep_view()),
        ) by {
        lemma_delete_phase_covers(target, base, ignore, src_files, dest_files, d);
        let i = choose|i: int|
            0 <= i < dels.len() && dels[i] == delete_item_view(
                (target.0, target.1 + dest_files[d].rel.deep_view()),
            );
        assert(tree[copies.len() + i] == dels[i]);
        assert(0 <= copies.len() + i < tree.len() && tree[copies.len() + i] == delete_item_view(
            (target.0, target.1 + dest_files[d].rel.deep_view()),
        ));
    }

    assert forall|i: int|
        0 <= i < tree.len() && (#[trigger] tree[i]).2 == Strategy::Delete implies exists|d: int|
        0 <= d < dest_files.len() && !spec_seen(
            base,
            ignore,
            src_files,
            (#[trigger] dest_files[d]).rel.deep_view(),
        ) && tree[i].1 == (target.0, target.1 + dest_files[d].rel.deep_view()) by {
        if i < copies.len() {
            lemma_copy_phase_item_shape(source, target, base, model, ignore, dest_files,
                src_files, i);
            assert(false);
        } else {
            assert(tree[i] == dels[i - copies.len()]);
            lemma_delete_phase_sound(target, base, ignore, src_files, dest_files,
                i - copies.len());
        }
    }

    assert forall|i1: int, i2: int|
        0 <= i1 < tree.len() && 0 <= i2 < tree.len() && i1 != i2 && (#[trigger] tree[i1]).2
            == Strategy::Delete && (#[trigger] tree[i2]).2 == Strategy::Delete implies tree[i1].1
        != tree[i2].1 by {
        if i1 < copies.len() {
            lemma_copy_phase_item_shape(source, target, base, model, ignore, dest_files,
                src_files, i1);
            assert(false);
        }
        if i2 < copies.len() {
            lemma_copy_phase_item_shape(source, target, base, model, ignore, dest_files,
                src_files, i2);
            assert(false);
        }
        let k1 = i1 - copies.len();
        let k2 = i2 - copies.len();
        assert(tree[i1] == dels[k1]);
        assert(tree[i2] == dels[k2]);
        if k1 < k2 {
            lemma_delete_phase_unique(target, base, ignore, src_files, dest_files, k1, k2);
        } else {
            lemma_delete_phase_unique(target, base, ignore, src_files, dest_files, k2, k1);
        }
    }
}

/// A destination already satisfies the source when every non-ignored
/// source file finds an up-to-date file at its destination path and every
/// destination file is accounted for by the seen set.
pub open spec fn spec_dest_satisfies(
    base: Seq<char>,
    ignore: Seq<(bool, Seq<Seq<char>>)>,
    src_files: Seq<FileEntry>,
    dest_files: Seq<FileEntry>,
) -> bool {
    (forall|j: int|
        0 <= j < src_files.len() && !spec_ignored(
            (#[trigger] src_files[j]).rel.deep_view(),
            ignore,
        ) ==> !spec_needs_update(
            src_files[j].size,
            src_files[j].mtime,
            spec_lookup(dest_files, spec_dest_rel(base, src_files[j].rel.deep_view())),
        )) && (forall|d: int|
        0 <= d < dest_files.len() ==> spec_seen(
            base,
            ignore,
            src_files,
            (#[trigger] dest_files[d]).rel.deep_view(),
        ))
}

/// The deletion pass is empty when every destination file is accounted for.
proof fn lemma_delete_phase_empty(
    target: (bool, Seq<Seq<char>>),
    base: Seq<char>,
    ignore: Seq<(bool, Seq<Seq<char>>)>,
    src_files: Seq<FileEntry>,
    dest_files: Seq<FileEntry>,
)
    requires
        forall|d: int|
            0 <= d < dest_files.len() ==> spec_seen(
                base,
                ignore,
                src_files,
                (#[trigger] dest_files[d]).rel.deep_view(),
            ),
    ensures
        spec_delete_phase(target, base, ignore, src_files, dest_files) == Seq::<
            ((bool, Seq<Seq<char>>), (bool, Seq<Seq<char>>), Strategy),
        >::empty(),
    decreases dest_files.len(),
{
    if dest_files.len() > 0 {
        assert(dest_files.last() == dest_files[dest_files.len() - 1]);
        assert forall|d: int| 0 <= d < dest_files.drop_last().len() implies spec_seen(
            base,
            ignore,
            src_files,
            (#[trigger] dest_files.drop_last()[d]).rel.deep_view(),
        ) by {
            assert(dest_files.drop_last()[d] == dest_files[d]);
        }
        lemma_delete_phase_empty(target, base, ignore, src_files, dest_files.drop_last());
    }
}

/// The first listed entry with the given path is what the lookup finds.
proof fn lemma_lookup_finds(entries: Seq<FileEntry>, key: Seq<Seq<char>>)
    requires
        exists|d: int| 0 <= d < entries.len() && (#[trigger] entries[d]).rel.deep_view() == key,
    ensures
        exists|d: int|
            0 <= d < entries.len() && (#[trigger] entries[d]).rel.deep_view() == key
                && spec_lookup(entries, key) == Some((entries[d].size, entries[d].mtime)),
    decreases entries.len(),
{
    if entries.first().rel.deep_view() == key {
        assert(entries[0].rel.deep_view() == key && spec_lookup(entries, key) == Some(
            (entries[0].size, entries[0].mtime),
        ));
    } else {
        let d = choose|d: int|
            0 <= d < entries.len() && (#[trigger] entries[d]).rel.deep_view() == key;
        assert(entries.drop_first()[d - 1] == entries[d]);
        lemma_lookup_finds(entries.drop_first(), key);
        let d2 = choose|d2: int|
            0 <= d2 < entries.drop_first().len() && (#[trigger] entries.drop_first()[d2]).rel.deep_view()
                == key && spec_lookup(entries.drop_first(), key) == Some(
                (entries.drop_first()[d2].size, entries.drop_first()[d2].mtime),
            );
        assert(entries.drop_first()[d2] == entries[d2 + 1]);
        assert(entries[d2 + 1].rel.deep_view() == key && spec_lookup(entries, key) == Some(
            (entries[d2 + 1].size, entries[d2 + 1].mtime),
        ));
    }
}

/// The destination listing a mirror run leaves behind: every destination
/// file stands for one non-ignored source file, carrying its size and a
/// modification time the tolerance accepts, and every non-ignored source
/// file is present.
pub open spec fn spec_mirror_outcome(
    base: Seq<char>,
    ignore: Seq<(bool, Seq<Seq<char>>)>,
    src_files: Seq<FileEntry>,
    dest_files: Seq<FileEntry>,
) -> bool {
    (forall|d: int|
        0 <= d < dest_files.len() ==> exists|j: int|
            0 <= j < src_files.len() && !spec_ignored(
                (#[trigger] src_files[j]).rel.deep_view(),
                ignore,
            ) && (#[trigger] dest_files[d]).rel.deep_view() == spec_dest_rel(
                base,
                src_files[j].rel.deep_view(),
            ) && dest_files[d].size == src_files[j].size && src_files[j].mtime <= dest_files[d].mtime
                + crate::snapshot::MTIME_TOLERANCE) && (forall|j: int|
        0 <= j < src_files.len() && !spec_ignored(
            (#[trigger] src_files[j]).rel.deep_view(),
            ignore,
        ) ==> exists|d: int|
            0 <= d < dest_files.len() && (#[trigger] dest_files[d]).rel.deep_view()
                == spec_dest_rel(base, src_files[j].rel.deep_view()))
}

/// A destination in the state a mirror run leaves behind satisfies the
/// source, as long as neither listing repeats a path.
proof fn lemma_mirror_outcome_satisfies(
    base: Seq<char>,
    ignore: Seq<(bool, Seq<Seq<char>>)>,
    src_files: Seq<FileEntry>,
    dest_files: Seq<FileEntry>,
)
    requires
        forall|a: int, b: int|
            0 <= a < b < src_files.len() ==> (#[trigger] src_files[a]).rel.deep_view() != (
            #[trigger] src_files[b]).rel.deep_view(),
        spec_mirror_outcome(base, ignore, src_files, dest_files),
    ensures
        spec_dest_satisfies(base, ignore, src_files, dest_files),
{
    assert forall|j: int|
        0 <= j < src_files.len() && !spec_ignored(
            (#[trigger] src_files[j]).rel.deep_view(),
            ignore,
        ) implies !spec_needs_update(
        src_files[j].size,
        src_files[j].mtime,
        spec_lookup(dest_files, spec_dest_rel(base, src_files[j].rel.deep_view())),
    ) by {
        let key = spec_dest_rel(base, src_files[j].rel.deep_view());
        lemma_lookup_finds(dest_files, key);
        let d0 = choose|d0: int|
            0 <= d0 < dest_files.len() && (#[trigger] dest_files[d0]).rel.deep_view() == key
                && spec_lookup(dest_files, key) == Some(
                (dest_files[d0].size, dest_files[d0].mtime),
            );
        // The entry at the looked-up position stands for some non-ignored
        // source file; distinct source paths force it to be file `j`.
        let j2 = choose|j2: int|
            0 <= j2 < src_files.len() && !spec_ignored(
                (#[trigger] src_files[j2]).rel.deep_view(),
                ignore,
            ) && dest_files[d0].rel.deep_view() == spec_dest_rel(
                base,
                src_files[j2].rel.deep_view(),
            ) && dest_files[d0].size == src_files[j2].size && src_files[j2].mtime
                <= dest_files[d0].mtime + crate::snapshot::MTIME_TOLERANCE;
        lemma_append_cancel(
            seq![base],
            src_files[j2].rel.deep_view(),
            src_files[j].rel.deep_view(),
        );
        assert(j2 == j);
    }
    assert forall|d: int| 0 <= d < dest_files.len() implies spec_seen(
        base,
        ignore,
        src_files,
        (#[trigger] dest_files[d]).rel.deep_view(),
    ) by {
        let j = choose|j: int|
            0 <= j < src_files.len() && !spec_ignored(
                (#[trigger] src_files[j]).rel.deep_view(),
                ignore,
            ) && dest_files[d].rel.deep_view() == spec_dest_rel(
                base,
                src_files[j].rel.deep_view(),
            ) && dest_files[d].size == src_files[j].size && src_files[j].mtime
                <= dest_files[d].mtime + crate::snapshot::MTIME_TOLERANCE;
        assert(!spec_ignored(src_files[j].rel.deep_view(), ignore) && dest_files[d].rel.deep_view()
            == spec_dest_rel(base, src_files[j].rel.deep_view()));
    }
}

/// Second-run idempotence, end to end: re-planning an unchanged source
/// under `Mirror` against a destination in the state a mirror run leaves
/// behind produces nothing but `Skip` actions — no copies, no deletions.
pub proof fn lemma_second_mirror_run_all_skip(
    source: (bool, Seq<Seq<char>>),
    target: (bool, Seq<Seq<char>>),
    ignore: Seq<(bool, Seq<Seq<char>>)>,
    src_files: Seq<FileEntry>,
    dest_files: Seq<FileEntry>,
)
    requires
        forall|a: int, b: int|
            0 <= a < b < src_files.len() ==> (#[trigger] src_files[a]).rel.deep_view() != (
            #[trigger] src_files[b]).rel.deep_view(),
        spec_mirror_outcome(source.1.last(), ignore, src_files, dest_files),
    ensures
        forall|i: int|
            0 <= i < spec_resolve_tree(source, target, BackupModel::Mirror, ignore, src_files,
            dest_files).len() ==> (#[trigger] spec_resolve_tree(
                source,
                target,
                BackupModel::Mirror,
                ignore,
                src_files,
                dest_files,
            )[i]).2 == Strategy::NotUpdate,
{
    lemma_mirror_outcome_satisfies(source.1.last(), ignore, src_files, dest_files);
    lemma_satisfied_mirror_plan_all_skip(source, target, ignore, src_files, dest_files);
}

/// Second-run idempotence: once the destination satisfies an unchanged
/// source, mirror planning produces nothing but `Skip` actions — no
/// copies and no deletions.
pub proof fn lemma_satisfied_mirror_plan_all_skip(
    source: (bool, Seq<Seq<char>>),
    target: (bool, Seq<Seq<char>>),
    ignore: Seq<(bool, Seq<Seq<char>>)>,
    src_files: Seq<FileEntry>,
    dest_files: Seq<FileEntry>,
)
    requires
        spec_dest_satisfies(source.1.last(), ignore, src_files, dest_files),
    ensures
        forall|i: int|
            0 <= i < spec_resolve_tree(source, target, BackupModel::Mirror, ignore, src_files,
            dest_files).len() ==> (#[trigger] spec_resolve_tree(
                source,
                target,
                BackupModel::Mirror,
                ignore,
                src_files,
                dest_files,
            )[i]).2 == Strategy::NotUpdate,
{
    let model = BackupModel::Mirror;
    let tree = spec_resolve_tree(source, target, model, ignore, src_files, dest_files);
    let base = source.1.last();
    let copies = spec_copy_phase(source, target, base, model, ignore, dest_files, src_files);
    lemma_delete_phase_empty(target, base, ignore, src_files, dest_files);
    assert(tree =~= copies);
    assert forall|i: int| 0 <= i < tree.len() implies (#[trigger] tree[i]).2
        == Strategy::NotUpdate by {
        lemma_copy_phase_item_shape(source, target, base, model, ignore, dest_files, src_files,
            i);
        let j = choose|j: int|
            0 <= j < src_files.len() && !spec_ignored(
                (#[trigger] src_files[j]).rel.deep_view(),
                ignore,
            ) && copies[i] == spec_file_item(source, target, base, model, dest_files,
                src_files[j]);
        assert(!spec_needs_update(
            src_files[j].size,
            src_files[j].mtime,
            spec_lookup(dest_files, spec_dest_rel(base, src_files[j].rel.deep_view())),
        ));
    }
}

} // verus!
