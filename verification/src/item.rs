//! Planned filesystem actions.
//!
//! The planner turns a job into a worklist of `Item`s.  Each item carries a
//! source path, a destination path and a `Strategy` saying what the
//! executor is to do: copy the file, delete the destination, or nothing.

use vstd::prelude::*;

use crate::pathname::BackupPath;

verus! {

/// What the executor is to do with one planned path pair.
#[derive(Clone, Copy, Debug, PartialEq, Eq, Structural)]
pub enum Strategy {
    /// Copy the source file over the destination.
    Copy,
    /// The source lies under an ignored subtree: no effect.
    Ignore,
    /// The destination already satisfies the source: no effect.
    NotUpdate,
    /// Remove the destination.
    Delete,
}

/// One planned filesystem effect: a source path, a destination path and
/// the strategy to apply.  Actions are value objects; they are produced
/// fresh by each planning call and consumed once by the executor.
#[derive(Debug)]
pub struct Item {
    pub src: BackupPath,
    pub dest: BackupPath,
    pub strategy: Strategy,
}

impl View for Item {
    type V = ((bool, Seq<Seq<char>>), (bool, Seq<Seq<char>>), Strategy);

    open spec fn view(&self) -> Self::V {
        (self.src@, self.dest@, self.strategy)
    }
}

impl DeepView for Item {
    type V = ((bool, Seq<Seq<char>>), (bool, Seq<Seq<char>>), Strategy);

    open spec fn deep_view(&self) -> Self::V {
        self@
    }
}

/// The view an `Item` for a `Delete` takes: an empty source path.
pub open spec fn delete_item_view(dest: (bool, Seq<Seq<char>>)) -> (
    (bool, Seq<Seq<char>>),
    (bool, Seq<Seq<char>>),
    Strategy,
) {
    ((false, Seq::<Seq<char>>::empty()), dest, Strategy::Delete)
}

impl Item {
    /// Builds an item from its three fields.
    pub fn new(src: BackupPath, dest: BackupPath, strategy: Strategy) -> (r: Item)
        ensures
            r@ == (src@, dest@, strategy),
    {
        Item { src, dest, strategy }
    }

    /// An item that removes `dest`; the source path is left empty.
    pub fn from_delete_strategy(dest: BackupPath) -> (r: Item)
        ensures
            r@ == delete_item_view(dest@),
    {
        let empty = BackupPath::empty();
        Item { src: empty, dest, strategy: Strategy::Delete }
    }

    /// An item that copies `src` over `dest`.
    pub fn from_copy_strategy(src: BackupPath, dest: BackupPath) -> (r: Item)
        ensures
            r@ == (src@, dest@, Strategy::Copy),
    {
        Item { src, dest, strategy: Strategy::Copy }
    }

    /// An item recording that `src` was ignored.
    pub fn from_ignore_strategy(src: BackupPath, dest: BackupPath) -> (r: Item)
        ensures
            r@ == (src@, dest@, Strategy::Ignore),
    {
        Item { src, dest, strategy: Strategy::Ignore }
    }

    /// An item recording that `dest` is already up to date.
    pub fn from_notupdate_strategy(src: BackupPath, dest: BackupPath) -> (r: Item)
        ensures
            r@ == (src@, dest@, Strategy::NotUpdate),
    {
        Item { src, dest, strategy: Strategy::NotUpdate }
    }

    /// Turns this item into a deletion of its destination: the source path
    /// is emptied and the strategy becomes `Delete`.
    pub fn change_delete_strategy(&mut self)
        ensures
            final(self)@ == delete_item_view(old(self).dest@),
    {
        self.src = BackupPath::empty();
        self.strategy = Strategy::Delete;
    }
}

} // verus!
