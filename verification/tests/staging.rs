use gadd::change::{mode_for_index, Change, StagingError, TreeEntry};
use gadd::index::{IndexAction, IndexEntry, IndexTime, Oid};
use gadd::statuses::{
    ConflictingStatus, Status, INDEX_MODIFIED, INDEX_NEW, WT_DELETED, WT_MODIFIED, WT_NEW,
};
use gadd::utils::new_index_entry;

fn change(path: &[u8], flags: u32) -> Change {
    Change { path: path.to_vec(), status: Status::NonConflicting(flags) }
}

fn conflict(path: &[u8]) -> Change {
    Change {
        path: path.to_vec(),
        status: Status::Conflicting {
            ours: ConflictingStatus::Deleted,
            theirs: ConflictingStatus::Unmerged,
        },
    }
}

fn head(byte: u8, filemode: i32) -> Option<TreeEntry> {
    Some(TreeEntry { id: Oid { bytes: [byte; 20] }, filemode })
}

#[test]
fn staging_a_file_adds_it() {
    assert_eq!(
        change(b"src/lib.rs", WT_MODIFIED).stage(true),
        IndexAction::AddFile { path: b"src/lib.rs".to_vec() }
    );
    assert_eq!(change(b"new", WT_NEW).stage(true), IndexAction::AddFile { path: b"new".to_vec() });
    assert_eq!(conflict(b"c").stage(true), IndexAction::AddFile { path: b"c".to_vec() });
}

#[test]
fn staging_a_deleted_file_removes_it() {
    assert_eq!(
        change(b"gone", WT_DELETED).stage(true),
        IndexAction::RemoveDeletedFile { path: b"gone".to_vec() }
    );
    assert_eq!(
        change(b"gone", INDEX_MODIFIED | WT_DELETED).stage(true),
        IndexAction::RemoveDeletedFile { path: b"gone".to_vec() }
    );
}

#[test]
fn staging_what_is_no_file_takes_all_that_lies_under_it() {
    assert_eq!(
        change(b"dir/", WT_NEW).stage(false),
        IndexAction::AddDirectory { path: b"dir/".to_vec(), pathspec: b"dir/*".to_vec() }
    );
    assert_eq!(
        change(b"gone", WT_DELETED).stage(false),
        IndexAction::RemoveDeletedDirectory {
            path: b"gone".to_vec(),
            pathspec: b"gone*".to_vec()
        }
    );
    assert_eq!(
        conflict(b"dir").stage(false),
        IndexAction::AddDirectory { path: b"dir".to_vec(), pathspec: b"dir*".to_vec() }
    );
}

#[test]
fn unstaging_a_tracked_file_restores_object_and_mode_of_the_last_commit() {
    let staged = change(b"b.txt", INDEX_MODIFIED);
    let result = staged.unstage(head(0xab, 0o100644)).unwrap();
    match result {
        IndexAction::Restore { entry } => {
            assert_eq!(entry.id, Oid { bytes: [0xab; 20] });
            assert_eq!(entry.mode, 0o100644);
            assert_eq!(entry.path, b"b.txt".to_vec());
            assert_eq!(entry.ctime, IndexTime { seconds: 0, nanoseconds: 0 });
            assert_eq!(entry.mtime, IndexTime { seconds: 0, nanoseconds: 0 });
            assert_eq!(
                (entry.dev, entry.ino, entry.uid, entry.gid, entry.file_size),
                (0, 0, 0, 0, 0)
            );
            assert_eq!((entry.flags, entry.flags_extended), (0, 0));
        }
        other => panic!("unexpected step {:?}", other),
    }
}

#[test]
fn unstaging_a_file_that_is_new_in_the_index_removes_it() {
    assert_eq!(
        change(b"a.txt", INDEX_NEW).unstage(None),
        Ok(IndexAction::RemoveNewFile { path: b"a.txt".to_vec() })
    );
    assert_eq!(
        change(b"a.txt", INDEX_NEW | WT_MODIFIED).unstage(head(1, 0o100644)),
        Ok(IndexAction::RemoveNewFile { path: b"a.txt".to_vec() })
    );
}

#[test]
fn unstaging_without_tree_entry_is_an_error() {
    assert_eq!(
        change(b"b.txt", INDEX_MODIFIED).unstage(None),
        Err(StagingError::NoTreeEntry { path: b"b.txt".to_vec() })
    );
    assert_eq!(
        conflict(b"c.txt").unstage(None),
        Err(StagingError::NoTreeEntry { path: b"c.txt".to_vec() })
    );
    assert_eq!(
        StagingError::NoTreeEntry { path: b"b.txt".to_vec() }.message(),
        "Failed to get tree entry for 'b.txt' from HEAD tree in repository"
    );
}

#[test]
fn unstaging_a_conflict_restores_what_the_last_commit_holds() {
    let result = conflict(b"c.txt").unstage(head(5, 0o100755)).unwrap();
    assert_eq!(
        result,
        IndexAction::Restore {
            entry: new_index_entry(Oid { bytes: [5; 20] }, 0o100755, b"c.txt".to_vec())
        }
    );
}

#[test]
fn the_file_mode_keeps_its_bits() {
    assert_eq!(mode_for_index(0), 0);
    assert_eq!(mode_for_index(0o100644), 0o100644);
    assert_eq!(mode_for_index(0o120000), 0o120000);
    assert_eq!(mode_for_index(i32::MAX), 0x7fff_ffff);
    assert_eq!(mode_for_index(-1), u32::MAX);
    assert_eq!(mode_for_index(i32::MIN), 0x8000_0000);
}

#[test]
fn a_new_index_entry_holds_object_mode_and_path_and_zeros() {
    let entry = new_index_entry(Oid { bytes: [9; 20] }, 0o100644, b"dir/file".to_vec());
    assert_eq!(
        entry,
        IndexEntry {
            ctime: IndexTime { seconds: 0, nanoseconds: 0 },
            mtime: IndexTime { seconds: 0, nanoseconds: 0 },
            dev: 0,
            ino: 0,
            mode: 0o100644,
            uid: 0,
            gid: 0,
            file_size: 0,
            id: Oid { bytes: [9; 20] },
            flags: 0,
            flags_extended: 0,
            path: b"dir/file".to_vec(),
        }
    );
}

#[test]
fn a_duplicate_holds_the_same() {
    let first = change(b"a", WT_NEW);
    assert_eq!(first.duplicate(), first);
}

#[test]
fn every_step_names_what_failed_and_the_path() {
    let path = b"src/main.rs".to_vec();
    assert_eq!(
        IndexAction::RemoveDeletedFile { path: path.clone() }.failure_message(),
        "Failed to remove deleted file 'src/main.rs' from Git index"
    );
    assert_eq!(
        IndexAction::AddFile { path: path.clone() }.failure_message(),
        "Failed to add 'src/main.rs' to Git index"
    );
    assert_eq!(
        IndexAction::RemoveDeletedDirectory { path: b"src".to_vec(), pathspec: b"src*".to_vec() }
            .failure_message(),
        "Failed to remove deleted directory 'src' from Git index"
    );
    assert_eq!(
        IndexAction::AddDirectory { path: b"src".to_vec(), pathspec: b"src*".to_vec() }
            .failure_message(),
        "Failed to add directory 'src' to Git index"
    );
    assert_eq!(
        IndexAction::AddAll { pathspec: b"*".to_vec() }.failure_message(),
        "Failed to add all changes to Git index"
    );
    assert_eq!(
        IndexAction::RemoveNewFile { path: path.clone() }.failure_message(),
        "Failed to remove 'src/main.rs' from Git index"
    );
    assert_eq!(
        IndexAction::Restore { entry: new_index_entry(Oid { bytes: [0; 20] }, 0o100644, path) }
            .failure_message(),
        "Failed to restore 'src/main.rs' from Git index to HEAD version"
    );
    assert_eq!(IndexAction::Write.failure_message(), "Failed to write to Git index");
}

#[test]
fn a_step_names_the_path_it_is_given_a_name_for() {
    assert_eq!(
        IndexAction::AddFile { path: vec![0xff] }.failure_message_naming("shown"),
        "Failed to add 'shown' to Git index"
    );
    assert_eq!(
        IndexAction::AddFile { path: vec![0x61, 0xff] }.failure_message(),
        "Failed to add 'a\u{fffd}' to Git index"
    );
    assert_eq!(IndexAction::Write.failure_message_naming("unused"), "Failed to write to Git index");
    assert_eq!(
        StagingError::NoTreeEntry { path: Vec::new() }.message_naming("shown"),
        "Failed to get tree entry for 'shown' from HEAD tree in repository"
    );
}

#[test]
fn a_step_knows_the_path_it_is_for() {
    let path = b"src/main.rs".to_vec();
    assert_eq!(IndexAction::AddFile { path: path.clone() }.path(), Some(&path));
    assert_eq!(IndexAction::RemoveNewFile { path: path.clone() }.path(), Some(&path));
    assert_eq!(
        IndexAction::AddDirectory { path: path.clone(), pathspec: b"src/main.rs*".to_vec() }
            .path(),
        Some(&path)
    );
    assert_eq!(
        IndexAction::Restore {
            entry: new_index_entry(Oid { bytes: [0; 20] }, 0o100644, path.clone())
        }
        .path(),
        Some(&path)
    );
    assert_eq!(IndexAction::AddAll { pathspec: b"*".to_vec() }.path(), None);
    assert_eq!(IndexAction::Write.path(), None);
}
