//! The status of one path: raw flags for paths that are not in conflict, and
//! the two sides of a merge conflict for those that are.

use vstd::prelude::*;

verus! {

/// How many kinds of change each side (index, working tree) can show.
pub const STATUSES_LENGTH: usize = 5;

/// The path is new in the index.
pub const INDEX_NEW: u32 = 0x0001;

/// The path is modified in the index.
pub const INDEX_MODIFIED: u32 = 0x0002;

/// The path is deleted in the index.
pub const INDEX_DELETED: u32 = 0x0004;

/// The path is renamed in the index.
pub const INDEX_RENAMED: u32 = 0x0008;

/// The path changed its type in the index.
pub const INDEX_TYPECHANGE: u32 = 0x0010;

/// The path is new in the working tree: untracked.
pub const WT_NEW: u32 = 0x0080;

/// The path is modified in the working tree.
pub const WT_MODIFIED: u32 = 0x0100;

/// The path is deleted in the working tree.
pub const WT_DELETED: u32 = 0x0200;

/// The path changed its type in the working tree.
pub const WT_TYPECHANGE: u32 = 0x0400;

/// The path is renamed in the working tree.
pub const WT_RENAMED: u32 = 0x0800;

/// The path is ignored.
pub const IGNORED: u32 = 0x4000;

/// The path is in a merge conflict.
pub const CONFLICTED: u32 = 0x8000;

/// The index-side flags, in the order in which they are listed and shown.
pub const INDEX_STATUSES: [u32; STATUSES_LENGTH] = [
    INDEX_MODIFIED,
    INDEX_TYPECHANGE,
    INDEX_RENAMED,
    INDEX_DELETED,
    INDEX_NEW,
];

/// The worktree-side flags, in the order in which they are listed and shown.
pub const WORKTREE_STATUSES: [u32; STATUSES_LENGTH] = [
    WT_MODIFIED,
    WT_TYPECHANGE,
    WT_RENAMED,
    WT_DELETED,
    WT_NEW,
];

/// The bits that hold an index-side flag.
pub const INDEX_MASK: u32 = 0x001f;

/// The bits that hold a worktree-side flag.
pub const WORKTREE_MASK: u32 = 0x0f80;

/// How many pairs of sides a path in a merge conflict can show.
pub const CONFLICTING_STATUSES_LENGTH: usize = 7;

/// The pairs of sides (ours, theirs) that a path in a merge conflict can
/// show, in the order in which they are listed.
pub const CONFLICTING_STATUSES: [[ConflictingStatus; 2]; CONFLICTING_STATUSES_LENGTH] = [
    [ConflictingStatus::Unmerged, ConflictingStatus::Unmerged],
    [ConflictingStatus::Deleted, ConflictingStatus::Unmerged],
    [ConflictingStatus::Unmerged, ConflictingStatus::Deleted],
    [ConflictingStatus::Deleted, ConflictingStatus::Deleted],
    [ConflictingStatus::Added, ConflictingStatus::Unmerged],
    [ConflictingStatus::Unmerged, ConflictingStatus::Added],
    [ConflictingStatus::Added, ConflictingStatus::Added],
];

/// One side of a path in a merge conflict.
#[derive(Clone, Copy, PartialEq, Eq, Hash, Debug, Structural)]
pub enum ConflictingStatus {
    Unmerged,
    Added,
    Deleted,
}

/// The status of one path.
#[derive(Clone, Copy, PartialEq, Eq, Hash, Debug, Structural)]
pub enum Status {
    /// Raw flags of a path that is in no conflict.
    NonConflicting(u32),
    /// The two sides of a path in a merge conflict.
    Conflicting { ours: ConflictingStatus, theirs: ConflictingStatus },
}

/// The index-side flags among `flags`.
pub open spec fn index_side(flags: u32) -> u32 {
    flags & INDEX_MASK
}

/// The worktree-side flags among `flags`.
pub open spec fn worktree_side(flags: u32) -> u32 {
    flags & WORKTREE_MASK
}

/// Whether two sets of flags share a flag.
pub open spec fn flags_intersect(flags: u32, other: u32) -> bool {
    flags & other != 0
}

/// Whether `flags` and `other` share a flag.
pub fn intersects(flags: u32, other: u32) -> (shared: bool)
    ensures
        shared == flags_intersect(flags, other),
{
    flags & other != 0
}

/// Whether the path is new in the index.
pub fn is_index_new(flags: u32) -> (set: bool)
    ensures
        set == flags_intersect(flags, INDEX_NEW),
{
    intersects(flags, INDEX_NEW)
}

/// Whether the path is deleted in the working tree.
pub fn is_wt_deleted(flags: u32) -> (set: bool)
    ensures
        set == flags_intersect(flags, WT_DELETED),
{
    intersects(flags, WT_DELETED)
}

/// Whether the path is in a merge conflict.
pub fn is_conflicted(flags: u32) -> (set: bool)
    ensures
        set == flags_intersect(flags, CONFLICTED),
{
    intersects(flags, CONFLICTED)
}

} // verus!
