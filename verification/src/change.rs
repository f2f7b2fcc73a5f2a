//! One entry of the working tree: a path and its status.

use crate::index::{bare_index_entry, IndexAction, IndexActionView, Oid};
use crate::statuses::{flags_intersect, is_index_new, is_wt_deleted, Status, INDEX_NEW, WT_DELETED};
use crate::utils::{message_naming, new_index_entry, lossy_text, utf8_lossy};
use vstd::prelude::*;

verus! {

/// One entry of the working tree. The path is kept as bytes: it need not be
/// text.
#[derive(Clone, Debug, PartialEq, Eq)]
pub struct Change {
    pub path: Vec<u8>,
    pub status: Status,
}

/// A change as contracts see it.
pub ghost struct ChangeView {
    pub path: Seq<u8>,
    pub status: Status,
}

impl View for Change {
    type V = ChangeView;

    open spec fn view(&self) -> ChangeView {
        ChangeView { path: self.path@, status: self.status }
    }
}

/// The changes of a list as contracts see them.
pub open spec fn change_views(changes: Seq<Change>) -> Seq<ChangeView> {
    Seq::new(changes.len(), |i: int| changes[i]@)
}

/// The paths of changes, in their order.
pub open spec fn paths_of(changes: Seq<ChangeView>) -> Seq<Seq<u8>> {
    Seq::new(changes.len(), |i: int| changes[i].path)
}

/// What the last commit holds of a path: the object and the file mode of
/// its tree entry.
#[derive(Clone, Copy, Debug, PartialEq, Eq)]
pub struct TreeEntry {
    pub id: Oid,
    pub filemode: i32,
}

/// Why no step on the index could be given.
#[derive(Clone, Debug, PartialEq, Eq)]
pub enum StagingError {
    /// The last commit holds nothing of the path, which is not new in the
    /// index either: there is nothing to go back to.
    NoTreeEntry { path: Vec<u8> },
}

/// An error of staging as contracts see it.
pub ghost enum StagingErrorView {
    NoTreeEntry { path: Seq<u8> },
}

impl View for StagingError {
    type V = StagingErrorView;

    open spec fn view(&self) -> StagingErrorView {
        match self {
            StagingError::NoTreeEntry { path } => StagingErrorView::NoTreeEntry { path: path@ },
        }
    }
}

/// What is said of an error of staging, with `name` for its path.
pub open spec fn staging_error_text_naming(error: StagingErrorView, name: Seq<char>) -> Seq<char> {
    match error {
        StagingErrorView::NoTreeEntry { .. } => "Failed to get tree entry for '"@ + name
            + "' from HEAD tree in repository"@,
    }
}

/// What is said of an error of staging: what failed, and the path as a
/// reader sees it.
pub open spec fn staging_error_text(error: StagingErrorView) -> Seq<char> {
    match error {
        StagingErrorView::NoTreeEntry { path } => staging_error_text_naming(
            error,
            utf8_lossy(path),
        ),
    }
}

impl StagingError {
    /// The error in words, with `name` for its path.
    pub fn message_naming(&self, name: &str) -> (message: String)
        ensures
            message@ == staging_error_text_naming(self@, name@),
    {
        match self {
            StagingError::NoTreeEntry { .. } => message_naming(
                "Failed to get tree entry for '",
                name,
                "' from HEAD tree in repository",
            ),
        }
    }

    /// The error in words.
    pub fn message(&self) -> (message: String)
        ensures
            message@ == staging_error_text(self@),
    {
        match self {
            StagingError::NoTreeEntry { path } => {
                let name = lossy_text(path.as_slice());
                self.message_naming(name.as_str())
            },
        }
    }
}

/// Whether a status shows that the path is deleted in the working tree.
pub open spec fn is_deleted_in_worktree(status: Status) -> bool {
    status matches Status::NonConflicting(flags) && flags_intersect(flags, WT_DELETED)
}

/// Whether a status shows that the path is new in the index: the last
/// commit holds nothing of it.
pub open spec fn is_new_in_index(status: Status) -> bool {
    status matches Status::NonConflicting(flags) && flags_intersect(flags, INDEX_NEW)
}

/// The byte `*`, which in a pathspec stands for anything.
pub const WILDCARD: u8 = 0x2a;

/// The pathspec that matches all that lies under a directory.
pub open spec fn directory_pathspec(path: Seq<u8>) -> Seq<u8> {
    path.push(WILDCARD)
}

/// The file mode of a tree entry as the index holds it: the same 32 bits,
/// read as a number without sign.
pub open spec fn index_mode(filemode: i32) -> u32 {
    if filemode >= 0 {
        filemode as u32
    } else {
        (filemode + 0x1_0000_0000) as u32
    }
}

/// The step that stages a change. `is_file` says whether the path is a
/// regular file in the working tree.
pub open spec fn stage_action(change: ChangeView, is_file: bool) -> IndexActionView {
    if is_file {
        if is_deleted_in_worktree(change.status) {
            IndexActionView::RemoveDeletedFile { path: change.path }
        } else {
            IndexActionView::AddFile { path: change.path }
        }
    } else {
        if is_deleted_in_worktree(change.status) {
            IndexActionView::RemoveDeletedDirectory {
                path: change.path,
                pathspec: directory_pathspec(change.path),
            }
        } else {
            IndexActionView::AddDirectory {
                path: change.path,
                pathspec: directory_pathspec(change.path),
            }
        }
    }
}

/// The step that unstages a change. `head_entry` is what the last commit
/// holds of the path.
pub open spec fn unstage_action(change: ChangeView, head_entry: Option<TreeEntry>) -> Result<
    IndexActionView,
    StagingErrorView,
> {
    if is_new_in_index(change.status) {
        Ok(IndexActionView::RemoveNewFile { path: change.path })
    } else {
        match head_entry {
            Some(tree_entry) => Ok(
                IndexActionView::Restore {
                    entry: bare_index_entry(
                        tree_entry.id,
                        index_mode(tree_entry.filemode),
                        change.path,
                    ),
                },
            ),
            None => Err(StagingErrorView::NoTreeEntry { path: change.path }),
        }
    }
}

/// A step or an error as contracts see it.
pub open spec fn action_result_view(result: Result<IndexAction, StagingError>) -> Result<
    IndexActionView,
    StagingErrorView,
> {
    match result {
        Ok(action) => Ok(action@),
        Err(error) => Err(error@),
    }
}

/// The file mode of a tree entry as the index holds it.
pub fn mode_for_index(filemode: i32) -> (mode: u32)
    ensures
        mode == index_mode(filemode),
{
    if filemode >= 0 {
        filemode as u32
    } else {
        (filemode as i64 + 0x1_0000_0000) as u32
    }
}

impl Change {
    /// A change that holds the same as this one.
    pub fn duplicate(&self) -> (change: Change)
        ensures
            change@ == self@,
    {
        Change { path: self.path.clone(), status: self.status }
    }

    /// The step that stages the change: a path that is deleted in the
    /// working tree is removed from the index, any other is added as the
    /// working tree holds it. `is_file` says whether the path is a regular
    /// file there; for any other path the step takes all that lies under
    /// it.
    pub fn stage(&self, is_file: bool) -> (action: IndexAction)
        ensures
            action@ == stage_action(self@, is_file),
    {
        let path = self.path.clone();
        let is_deleted = match self.status {
            Status::NonConflicting(flags) => is_wt_deleted(flags),
            Status::Conflicting { .. } => false,
        };
        if is_file {
            if is_deleted {
                IndexAction::RemoveDeletedFile { path }
            } else {
                IndexAction::AddFile { path }
            }
        } else {
            let mut pathspec = self.path.clone();
            pathspec.push(WILDCARD);
            if is_deleted {
                IndexAction::RemoveDeletedDirectory { path, pathspec }
            } else {
                IndexAction::AddDirectory { path, pathspec }
            }
        }
    }

    /// The step that unstages the change: a path that is new in the index
    /// is removed from it; for any other path the index goes back to what
    /// the last commit holds of it, `head_entry`, with the same object and
    /// file mode and nothing else. Where the last commit holds nothing of
    /// such a path there is no step.
    pub fn unstage(&self, head_entry: Option<TreeEntry>) -> (result: Result<
        IndexAction,
        StagingError,
    >)
        ensures
            action_result_view(result) == unstage_action(self@, head_entry),
    {
        let is_new = match self.status {
            Status::NonConflicting(flags) => is_index_new(flags),
            Status::Conflicting { .. } => false,
        };
        if is_new {
            Ok(IndexAction::RemoveNewFile { path: self.path.clone() })
        } else {
            match head_entry {
                Some(tree_entry) => {
                    let index_entry = new_index_entry(
                        tree_entry.id,
                        mode_for_index(tree_entry.filemode),
                        self.path.clone(),
                    );
                    Ok(IndexAction::Restore { entry: index_entry })
                },
                None => Err(StagingError::NoTreeEntry { path: self.path.clone() }),
            }
        }
    }
}

/// Unstaging a path that the last commit holds, and that is not new in the
/// index, puts the object and the file mode of the last commit back under
/// that path, whatever the index held.
pub proof fn lemma_unstage_restores_head(change: ChangeView, tree_entry: TreeEntry)
    requires
        !is_new_in_index(change.status),
    ensures
        unstage_action(change, Some(tree_entry)) matches Ok(
            IndexActionView::Restore { entry },
        ) && entry.id == tree_entry.id && entry.mode == index_mode(tree_entry.filemode)
            && entry.path == change.path,
        tree_entry.filemode >= 0 ==> index_mode(tree_entry.filemode) == tree_entry.filemode,
{
}

/// Unstaging a path that is new in the index removes it from the index,
/// whatever the last commit holds.
pub proof fn lemma_unstage_removes_new(change: ChangeView, head_entry: Option<TreeEntry>)
    requires
        is_new_in_index(change.status),
    ensures
        unstage_action(change, head_entry) == Ok::<IndexActionView, StagingErrorView>(
            IndexActionView::RemoveNewFile { path: change.path },
        ),
{
}

} // verus!
