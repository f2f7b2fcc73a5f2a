//! What is entered in the index, and what is to be done to it.

use crate::utils::{message_naming, lossy_text, utf8_lossy};
use vstd::prelude::*;

verus! {

/// The identity of an object of the repository: twenty raw bytes.
#[derive(Clone, Copy, Debug, PartialEq, Eq)]
pub struct Oid {
    pub bytes: [u8; 20],
}

/// A time as an index entry holds it.
#[derive(Clone, Copy, Debug, PartialEq, Eq)]
pub struct IndexTime {
    pub seconds: i32,
    pub nanoseconds: u32,
}

/// An entry of the index. Of its fields only `id`, `mode` and `path` say
/// what is entered; the others are hints by which a change of the file is
/// noticed, and zero where nothing is known.
#[derive(Clone, Debug, PartialEq, Eq)]
pub struct IndexEntry {
    pub ctime: IndexTime,
    pub mtime: IndexTime,
    pub dev: u32,
    pub ino: u32,
    pub mode: u32,
    pub uid: u32,
    pub gid: u32,
    pub file_size: u32,
    pub id: Oid,
    pub flags: u16,
    pub flags_extended: u16,
    pub path: Vec<u8>,
}

/// An index entry as contracts see it.
pub ghost struct IndexEntryView {
    pub ctime: IndexTime,
    pub mtime: IndexTime,
    pub dev: u32,
    pub ino: u32,
    pub mode: u32,
    pub uid: u32,
    pub gid: u32,
    pub file_size: u32,
    pub id: Oid,
    pub flags: u16,
    pub flags_extended: u16,
    pub path: Seq<u8>,
}

impl View for IndexEntry {
    type V = IndexEntryView;

    open spec fn view(&self) -> IndexEntryView {
        IndexEntryView {
            ctime: self.ctime,
            mtime: self.mtime,
            dev: self.dev,
            ino: self.ino,
            mode: self.mode,
            uid: self.uid,
            gid: self.gid,
            file_size: self.file_size,
            id: self.id,
            flags: self.flags,
            flags_extended: self.flags_extended,
            path: self.path@,
        }
    }
}

/// The entry that says no more than that `path` holds the object `id` with
/// the file mode `mode`.
pub open spec fn bare_index_entry(id: Oid, mode: u32, path: Seq<u8>) -> IndexEntryView {
    IndexEntryView {
        ctime: IndexTime { seconds: 0, nanoseconds: 0 },
        mtime: IndexTime { seconds: 0, nanoseconds: 0 },
        dev: 0,
        ino: 0,
        mode,
        uid: 0,
        gid: 0,
        file_size: 0,
        id,
        flags: 0,
        flags_extended: 0,
        path,
    }
}

/// One step on the index.
#[derive(Clone, Debug, PartialEq, Eq)]
pub enum IndexAction {
    /// Remove the file at `path`, which is deleted in the working tree.
    RemoveDeletedFile { path: Vec<u8> },
    /// Add the file at `path` as it is in the working tree.
    AddFile { path: Vec<u8> },
    /// Remove all that matches `pathspec`: what lies under the directory
    /// `path`, which is deleted in the working tree.
    RemoveDeletedDirectory { path: Vec<u8>, pathspec: Vec<u8> },
    /// Add all that matches `pathspec`: what lies under the directory
    /// `path`.
    AddDirectory { path: Vec<u8>, pathspec: Vec<u8> },
    /// Add all that matches `pathspec`: every change.
    AddAll { pathspec: Vec<u8> },
    /// Remove the file at `path`, which the index holds and the last commit
    /// does not.
    RemoveNewFile { path: Vec<u8> },
    /// Enter `entry`, which is what the last commit holds of its path.
    Restore { entry: IndexEntry },
    /// Write the index to the disk.
    Write,
}

/// A step on the index as contracts see it.
pub ghost enum IndexActionView {
    RemoveDeletedFile { path: Seq<u8> },
    AddFile { path: Seq<u8> },
    RemoveDeletedDirectory { path: Seq<u8>, pathspec: Seq<u8> },
    AddDirectory { path: Seq<u8>, pathspec: Seq<u8> },
    AddAll { pathspec: Seq<u8> },
    RemoveNewFile { path: Seq<u8> },
    Restore { entry: IndexEntryView },
    Write,
}

impl View for IndexAction {
    type V = IndexActionView;

    open spec fn view(&self) -> IndexActionView {
        match self {
            IndexAction::RemoveDeletedFile { path } => IndexActionView::RemoveDeletedFile {
                path: path@,
            },
            IndexAction::AddFile { path } => IndexActionView::AddFile { path: path@ },
            IndexAction::RemoveDeletedDirectory {
                path,
                pathspec,
            } => IndexActionView::RemoveDeletedDirectory { path: path@, pathspec: pathspec@ },
            IndexAction::AddDirectory { path, pathspec } => IndexActionView::AddDirectory {
                path: path@,
                pathspec: pathspec@,
            },
            IndexAction::AddAll { pathspec } => IndexActionView::AddAll { pathspec: pathspec@ },
            IndexAction::RemoveNewFile { path } => IndexActionView::RemoveNewFile { path: path@ },
            IndexAction::Restore { entry } => IndexActionView::Restore { entry: entry@ },
            IndexAction::Write => IndexActionView::Write,
        }
    }
}

/// The path that a step is for, where it is for one.
pub open spec fn action_path(action: IndexActionView) -> Option<Seq<u8>> {
    match action {
        IndexActionView::RemoveDeletedFile { path } => Some(path),
        IndexActionView::AddFile { path } => Some(path),
        IndexActionView::RemoveDeletedDirectory { path, .. } => Some(path),
        IndexActionView::AddDirectory { path, .. } => Some(path),
        IndexActionView::AddAll { .. } => None,
        IndexActionView::RemoveNewFile { path } => Some(path),
        IndexActionView::Restore { entry } => Some(entry.path),
        IndexActionView::Write => None,
    }
}

/// What is said when a step on the index fails, with `name` for the path
/// that the step is for.
pub open spec fn failure_text_naming(action: IndexActionView, name: Seq<char>) -> Seq<char> {
    match action {
        IndexActionView::RemoveDeletedFile { .. } => "Failed to remove deleted file '"@ + name
            + "' from Git index"@,
        IndexActionView::AddFile { .. } => "Failed to add '"@ + name + "' to Git index"@,
        IndexActionView::RemoveDeletedDirectory { .. } => {
            "Failed to remove deleted directory '"@ + name + "' from Git index"@
        },
        IndexActionView::AddDirectory { .. } => "Failed to add directory '"@ + name
            + "' to Git index"@,
        IndexActionView::AddAll { .. } => "Failed to add all changes to Git index"@,
        IndexActionView::RemoveNewFile { .. } => "Failed to remove '"@ + name
            + "' from Git index"@,
        IndexActionView::Restore { .. } => "Failed to restore '"@ + name
            + "' from Git index to HEAD version"@,
        IndexActionView::Write => "Failed to write to Git index"@,
    }
}

/// What is said when a step on the index fails: the step, and the path it
/// was for as a reader sees it.
pub open spec fn failure_text(action: IndexActionView) -> Seq<char> {
    failure_text_naming(
        action,
        match action_path(action) {
            Some(path) => utf8_lossy(path),
            None => Seq::empty(),
        },
    )
}

impl IndexAction {
    /// The path that the step is for, where it is for one.
    pub fn path(&self) -> (path: Option<&Vec<u8>>)
        ensures
            match path {
                Some(path) => action_path(self@) == Some(path@),
                None => action_path(self@) is None,
            },
    {
        match self {
            IndexAction::RemoveDeletedFile { path } => Some(path),
            IndexAction::AddFile { path } => Some(path),
            IndexAction::RemoveDeletedDirectory { path, .. } => Some(path),
            IndexAction::AddDirectory { path, .. } => Some(path),
            IndexAction::AddAll { .. } => None,
            IndexAction::RemoveNewFile { path } => Some(path),
            IndexAction::Restore { entry } => Some(&entry.path),
            IndexAction::Write => None,
        }
    }

    /// What is to be said when the step fails, with `name` for the path
    /// that the step is for.
    pub fn failure_message_naming(&self, name: &str) -> (message: String)
        ensures
            message@ == failure_text_naming(self@, name@),
    {
        match self {
            IndexAction::RemoveDeletedFile { .. } => message_naming(
                "Failed to remove deleted file '",
                name,
                "' from Git index",
            ),
            IndexAction::AddFile { .. } => message_naming("Failed to add '", name, "' to Git index"),
            IndexAction::RemoveDeletedDirectory { .. } => message_naming(
                "Failed to remove deleted directory '",
                name,
                "' from Git index",
            ),
            IndexAction::AddDirectory { .. } => message_naming(
                "Failed to add directory '",
                name,
                "' to Git index",
            ),
            IndexAction::AddAll { .. } => String::from_str("Failed to add all changes to Git index"),
            IndexAction::RemoveNewFile { .. } => message_naming(
                "Failed to remove '",
                name,
                "' from Git index",
            ),
            IndexAction::Restore { .. } => message_naming(
                "Failed to restore '",
                name,
                "' from Git index to HEAD version",
            ),
            IndexAction::Write => String::from_str("Failed to write to Git index"),
        }
    }

    /// What is to be said when the step fails: the step, and the path it
    /// was for as a reader sees it.
    pub fn failure_message(&self) -> (message: String)
        ensures
            message@ == failure_text(self@),
    {
        match self.path() {
            Some(path) => {
                let name = lossy_text(path.as_slice());
                self.failure_message_naming(name.as_str())
            },
            None => self.failure_message_naming(""),
        }
    }
}

/// Steps on the index as contracts see them.
pub open spec fn action_views(actions: Seq<IndexAction>) -> Seq<IndexActionView> {
    Seq::new(actions.len(), |i: int| actions[i]@)
}

} // verus!
