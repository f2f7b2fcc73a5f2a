use gadd::change::Change;
use gadd::change_ordering::{are_ranked, ChangeOrdering};
use gadd::statuses::{
    ConflictingStatus, Status, IGNORED, INDEX_MODIFIED, INDEX_NEW, WT_DELETED, WT_MODIFIED, WT_NEW,
};

fn change(path: &[u8], flags: u32) -> Change {
    Change { path: path.to_vec(), status: Status::NonConflicting(flags) }
}

fn paths(changes: &[Change]) -> Vec<Vec<u8>> {
    changes.iter().map(|change| change.path.clone()).collect()
}

fn names(list: &[&[u8]]) -> Vec<Vec<u8>> {
    list.iter().map(|path| path.to_vec()).collect()
}

#[test]
fn with_capacity_has_recorded_nothing() {
    let ordering = ChangeOrdering::with_capacity(8);
    assert_eq!(ordering.len(), 0);
    assert_eq!(ordering.position(b"a.txt"), None);
    assert_eq!(ordering.sort_position(b"a.txt"), 0);
}

#[test]
fn the_first_sort_goes_by_status_and_then_by_path() {
    let mut changes = vec![
        change(b"untracked.txt", WT_NEW),
        change(b"z-modified.txt", WT_MODIFIED),
        change(b"staged.txt", INDEX_MODIFIED),
        change(b"a-modified.txt", WT_MODIFIED),
        Change {
            path: b"conflict.txt".to_vec(),
            status: Status::Conflicting {
                ours: ConflictingStatus::Unmerged,
                theirs: ConflictingStatus::Unmerged,
            },
        },
        change(b"both.txt", INDEX_MODIFIED | WT_MODIFIED),
    ];
    let mut ordering = ChangeOrdering::with_capacity(changes.len());
    ordering.sort_changes_and_save_ordering(&mut changes);
    assert_eq!(
        paths(&changes),
        names(&[
            b"staged.txt",
            b"a-modified.txt",
            b"z-modified.txt",
            b"both.txt",
            b"untracked.txt",
            b"conflict.txt",
        ])
    );
    assert_eq!(changes[0].status, Status::NonConflicting(INDEX_MODIFIED));
    assert_eq!(changes[4].status, Status::NonConflicting(WT_NEW));
    assert_eq!(ordering.len(), 6);
    assert_eq!(ordering.position(b"staged.txt"), Some(0));
    assert_eq!(ordering.position(b"a-modified.txt"), Some(1));
    assert_eq!(ordering.position(b"z-modified.txt"), Some(2));
    assert_eq!(ordering.position(b"both.txt"), Some(3));
    assert_eq!(ordering.position(b"untracked.txt"), Some(4));
    assert_eq!(ordering.position(b"conflict.txt"), Some(5));
    assert_eq!(ordering.position(b"other.txt"), None);
}

#[test]
fn sort_changes_by_status_sorts_without_recording() {
    let mut changes = vec![
        change(b"b", WT_NEW),
        change(b"a", WT_NEW),
        change(b"c", INDEX_NEW),
    ];
    ChangeOrdering::sort_changes_by_status(&mut changes);
    assert_eq!(paths(&changes), names(&[b"c", b"a", b"b"]));
}

#[test]
fn the_first_sort_of_no_changes_records_nothing() {
    let mut changes: Vec<Change> = Vec::new();
    let mut ordering = ChangeOrdering::with_capacity(0);
    ordering.sort_changes_and_save_ordering(&mut changes);
    assert!(changes.is_empty());
    assert_eq!(ordering.len(), 0);
    assert_eq!(ordering.sort_changes(&mut changes), 0);
    assert!(changes.is_empty());
}

#[test]
fn resort_after_seed_with_unchanged_input_changes_nothing() {
    let mut changes = vec![
        change(b"c.txt", WT_NEW),
        change(b"b.txt", WT_MODIFIED),
        change(b"a.txt", WT_NEW),
        change(b"d.txt", INDEX_NEW),
    ];
    let mut ordering = ChangeOrdering::with_capacity(changes.len());
    ordering.sort_changes_and_save_ordering(&mut changes);
    let seeded = changes.clone();
    assert_eq!(paths(&seeded), names(&[b"d.txt", b"b.txt", b"a.txt", b"c.txt"]));
    let new_paths = ordering.sort_changes(&mut changes);
    assert_eq!(new_paths, 0);
    assert_eq!(changes, seeded);
    assert_eq!(ordering.len(), 4);
}

#[test]
fn resort_twice_changes_nothing_the_second_time() {
    let mut changes = vec![change(b"m.txt", WT_MODIFIED)];
    let mut ordering = ChangeOrdering::with_capacity(1);
    ordering.sort_changes_and_save_ordering(&mut changes);
    let mut rescanned = vec![
        change(b"z.txt", WT_NEW),
        change(b"m.txt", INDEX_MODIFIED),
        change(b"a.txt", WT_NEW),
    ];
    assert_eq!(ordering.sort_changes(&mut rescanned), 2);
    let sorted = rescanned.clone();
    assert_eq!(paths(&sorted), names(&[b"m.txt", b"a.txt", b"z.txt"]));
    assert_eq!(ordering.sort_changes(&mut rescanned), 0);
    assert_eq!(rescanned, sorted);
    assert_eq!(ordering.len(), 3);
}

#[test]
fn resort_keeps_positions_when_statuses_change() {
    let mut changes = vec![
        change(b"a.txt", WT_MODIFIED),
        change(b"b.txt", WT_NEW),
        change(b"c.txt", INDEX_MODIFIED),
    ];
    let mut ordering = ChangeOrdering::with_capacity(3);
    ordering.sort_changes_and_save_ordering(&mut changes);
    assert_eq!(paths(&changes), names(&[b"c.txt", b"a.txt", b"b.txt"]));
    // Everything is staged: by status alone the order would change.
    let mut rescanned = vec![
        change(b"a.txt", INDEX_MODIFIED),
        change(b"b.txt", INDEX_NEW),
        change(b"c.txt", INDEX_MODIFIED | WT_MODIFIED),
    ];
    assert_eq!(ordering.sort_changes(&mut rescanned), 0);
    assert_eq!(paths(&rescanned), names(&[b"c.txt", b"a.txt", b"b.txt"]));
    assert_eq!(rescanned[0].status, Status::NonConflicting(INDEX_MODIFIED | WT_MODIFIED));
    assert_eq!(rescanned[1].status, Status::NonConflicting(INDEX_MODIFIED));
}

#[test]
fn resort_places_a_new_path_after_all_known_paths() {
    let mut changes = vec![
        change(b"b.txt", WT_MODIFIED),
        change(b"m.txt", WT_MODIFIED),
        change(b"z.txt", WT_MODIFIED),
    ];
    let mut ordering = ChangeOrdering::with_capacity(3);
    ordering.sort_changes_and_save_ordering(&mut changes);
    // `m.txt` is gone, and `a.txt` is new: it sorts before every known path
    // by its bytes, and is listed after them all the same.
    let mut rescanned = vec![
        change(b"a.txt", INDEX_NEW),
        change(b"z.txt", WT_MODIFIED),
        change(b"b.txt", WT_MODIFIED),
    ];
    assert_eq!(ordering.sort_changes(&mut rescanned), 1);
    assert_eq!(paths(&rescanned), names(&[b"b.txt", b"z.txt", b"a.txt"]));
    assert_eq!(ordering.position(b"b.txt"), Some(0));
    assert_eq!(ordering.position(b"m.txt"), Some(1));
    assert_eq!(ordering.position(b"z.txt"), Some(2));
    assert_eq!(ordering.position(b"a.txt"), Some(3));
}

#[test]
fn a_position_is_not_given_again_when_its_path_is_gone() {
    let mut changes = vec![change(b"gone.txt", WT_MODIFIED), change(b"kept.txt", WT_MODIFIED)];
    let mut ordering = ChangeOrdering::with_capacity(2);
    ordering.sort_changes_and_save_ordering(&mut changes);
    let mut rescanned = vec![change(b"kept.txt", WT_MODIFIED), change(b"new.txt", WT_NEW)];
    assert_eq!(ordering.sort_changes(&mut rescanned), 1);
    assert_eq!(ordering.position(b"gone.txt"), Some(0));
    assert_eq!(ordering.position(b"new.txt"), Some(2));
    // The path comes back, at its old place.
    let mut again = vec![
        change(b"new.txt", WT_NEW),
        change(b"gone.txt", WT_DELETED),
        change(b"kept.txt", WT_MODIFIED),
    ];
    assert_eq!(ordering.sort_changes(&mut again), 0);
    assert_eq!(paths(&again), names(&[b"gone.txt", b"kept.txt", b"new.txt"]));
}

#[test]
fn several_new_paths_are_placed_by_their_bytes() {
    let mut changes = vec![change(b"known.txt", WT_MODIFIED)];
    let mut ordering = ChangeOrdering::with_capacity(1);
    ordering.sort_changes_and_save_ordering(&mut changes);
    let mut rescanned = vec![
        change(b"c.txt", INDEX_MODIFIED),
        change(&[0xff, 0x01], WT_NEW),
        change(b"a.txt", WT_NEW),
        change(b"known.txt", WT_MODIFIED),
        change(b"b.txt", WT_DELETED),
        change(b"B.txt", WT_NEW),
    ];
    assert_eq!(ordering.sort_changes(&mut rescanned), 5);
    assert_eq!(
        paths(&rescanned),
        names(&[b"known.txt", b"B.txt", b"a.txt", b"b.txt", b"c.txt", &[0xff, 0x01]])
    );
    assert_eq!(ordering.position(b"B.txt"), Some(1));
    assert_eq!(ordering.position(b"a.txt"), Some(2));
    assert_eq!(ordering.position(b"b.txt"), Some(3));
    assert_eq!(ordering.position(b"c.txt"), Some(4));
    assert_eq!(ordering.position(&[0xff, 0x01]), Some(5));
    assert_eq!(ordering.len(), 6);
}

#[test]
fn resort_on_an_empty_record_sorts_by_path() {
    let mut ordering = ChangeOrdering::with_capacity(0);
    let mut changes = vec![change(b"b", WT_NEW), change(b"a", INDEX_NEW)];
    assert_eq!(ordering.sort_changes(&mut changes), 2);
    assert_eq!(paths(&changes), names(&[b"a", b"b"]));
}

#[test]
fn changes_with_the_same_path_keep_their_order() {
    let mut ordering = ChangeOrdering::with_capacity(0);
    let mut changes = vec![
        change(b"same", WT_NEW),
        change(b"other", WT_NEW),
        change(b"same", INDEX_NEW),
    ];
    assert_eq!(ordering.sort_changes(&mut changes), 2);
    assert_eq!(
        changes,
        vec![change(b"other", WT_NEW), change(b"same", WT_NEW), change(b"same", INDEX_NEW)]
    );
    assert_eq!(ordering.position(b"other"), Some(0));
    assert_eq!(ordering.position(b"same"), Some(1));
}

#[test]
fn the_first_sort_forgets_what_was_recorded() {
    let mut ordering = ChangeOrdering::with_capacity(0);
    let mut changes = vec![change(b"old", WT_NEW)];
    ordering.sort_changes_and_save_ordering(&mut changes);
    let mut fresh = vec![change(b"new", WT_NEW)];
    ordering.sort_changes_and_save_ordering(&mut fresh);
    assert_eq!(ordering.position(b"old"), None);
    assert_eq!(ordering.position(b"new"), Some(0));
    assert_eq!(ordering.len(), 1);
}

#[test]
fn changes_are_ranked_when_every_status_has_a_place_in_the_order() {
    assert!(are_ranked(&Vec::new()));
    assert!(are_ranked(&vec![change(b"a", WT_NEW), change(b"b", INDEX_NEW | WT_MODIFIED)]));
    assert!(!are_ranked(&vec![change(b"a", WT_NEW), change(b"b", IGNORED)]));
    assert!(!are_ranked(&vec![Change {
        path: b"c".to_vec(),
        status: Status::Conflicting {
            ours: ConflictingStatus::Added,
            theirs: ConflictingStatus::Deleted
        },
    }]));
}
