use gadd::change::Change;
use gadd::classification::{
    classify, conflicting_sides, is_ranked_scan, populate_changes, populate_conflicting_changes,
    ClassifyError, ConflictEntry, StatusEntry,
};
use gadd::statuses::{
    ConflictingStatus, Status, CONFLICTED, IGNORED, INDEX_MODIFIED, INDEX_NEW, WT_MODIFIED, WT_NEW,
};

fn entry(path: &[u8], status: u32) -> StatusEntry {
    StatusEntry { path: path.to_vec(), status }
}

fn conflict(ancestor: bool, our: bool, their: bool, path: &[u8]) -> ConflictEntry {
    let side = |present: bool| if present { Some(path.to_vec()) } else { None };
    ConflictEntry { ancestor: side(ancestor), our: side(our), their: side(their) }
}

fn conflicting(path: &[u8], ours: ConflictingStatus, theirs: ConflictingStatus) -> Change {
    Change { path: path.to_vec(), status: Status::Conflicting { ours, theirs } }
}

#[test]
fn classification_of_ancestor_and_ours_is_unmerged_deleted() {
    let entry = conflict(true, true, false, b"file.txt");
    assert_eq!(
        classify(CONFLICTED, Some(&entry)),
        Ok(Status::Conflicting {
            ours: ConflictingStatus::Unmerged,
            theirs: ConflictingStatus::Deleted
        })
    );
}

#[test]
fn classification_of_an_entry_without_versions_fails() {
    let entry = conflict(false, false, false, b"file.txt");
    assert_eq!(classify(CONFLICTED, Some(&entry)), Err(ClassifyError::InvalidConflictEntry));
}

#[test]
fn classification_of_a_conflicted_path_without_entry_fails() {
    assert_eq!(classify(CONFLICTED, None), Err(ClassifyError::NoMatchingConflictEntry));
    assert_eq!(
        classify(CONFLICTED | WT_MODIFIED, None),
        Err(ClassifyError::NoMatchingConflictEntry)
    );
}

#[test]
fn classification_keeps_flags_that_are_not_conflicted() {
    assert_eq!(classify(WT_MODIFIED, None), Ok(Status::NonConflicting(WT_MODIFIED)));
    assert_eq!(
        classify(INDEX_NEW | WT_MODIFIED, None),
        Ok(Status::NonConflicting(INDEX_NEW | WT_MODIFIED))
    );
    assert_eq!(classify(0, None), Ok(Status::NonConflicting(0)));
    let unused = conflict(true, true, true, b"file.txt");
    assert_eq!(classify(WT_NEW, Some(&unused)), Ok(Status::NonConflicting(WT_NEW)));
}

#[test]
fn the_sides_follow_the_versions_that_exist() {
    let (unmerged, added, deleted) =
        (ConflictingStatus::Unmerged, ConflictingStatus::Added, ConflictingStatus::Deleted);
    assert_eq!(conflicting_sides(true, true, true), Some((unmerged, unmerged)));
    assert_eq!(conflicting_sides(true, true, false), Some((unmerged, deleted)));
    assert_eq!(conflicting_sides(true, false, true), Some((deleted, unmerged)));
    assert_eq!(conflicting_sides(true, false, false), Some((deleted, deleted)));
    assert_eq!(conflicting_sides(false, true, true), Some((added, added)));
    assert_eq!(conflicting_sides(false, true, false), Some((added, unmerged)));
    assert_eq!(conflicting_sides(false, false, true), Some((unmerged, added)));
    assert_eq!(conflicting_sides(false, false, false), None);
}

#[test]
fn a_scan_without_conflicts_gives_its_changes_in_order() {
    let statuses = vec![entry(b"b.txt", WT_MODIFIED), entry(b"a.txt", WT_NEW)];
    let changes = populate_changes(&statuses, &Vec::new()).unwrap();
    assert_eq!(
        changes,
        vec![
            Change { path: b"b.txt".to_vec(), status: Status::NonConflicting(WT_MODIFIED) },
            Change { path: b"a.txt".to_vec(), status: Status::NonConflicting(WT_NEW) },
        ]
    );
}

#[test]
fn an_empty_scan_gives_no_changes() {
    assert_eq!(populate_changes(&Vec::new(), &Vec::new()), Ok(Vec::new()));
}

#[test]
fn conflicted_paths_follow_the_others_in_the_order_of_the_entries() {
    let statuses = vec![
        entry(b"x.txt", CONFLICTED),
        entry(b"plain.txt", INDEX_MODIFIED),
        entry(b"y.txt", CONFLICTED),
        entry(b"z.txt", CONFLICTED | WT_MODIFIED),
    ];
    let conflicts = vec![
        conflict(false, true, true, b"z.txt"),
        conflict(true, false, true, b"x.txt"),
        conflict(false, false, true, b"y.txt"),
    ];
    let changes = populate_changes(&statuses, &conflicts).unwrap();
    assert_eq!(
        changes,
        vec![
            Change { path: b"plain.txt".to_vec(), status: Status::NonConflicting(INDEX_MODIFIED) },
            conflicting(b"z.txt", ConflictingStatus::Added, ConflictingStatus::Added),
            conflicting(b"x.txt", ConflictingStatus::Deleted, ConflictingStatus::Unmerged),
            conflicting(b"y.txt", ConflictingStatus::Unmerged, ConflictingStatus::Added),
        ]
    );
}

#[test]
fn every_path_of_the_scan_is_in_one_change() {
    let statuses = vec![
        entry(b"a", WT_NEW),
        entry(b"b", CONFLICTED),
        entry(b"c", INDEX_NEW),
        entry(b"d", CONFLICTED),
    ];
    let conflicts = vec![conflict(true, true, true, b"d"), conflict(true, true, true, b"b")];
    let changes = populate_changes(&statuses, &conflicts).unwrap();
    assert_eq!(changes.len(), statuses.len());
    for scanned in &statuses {
        let count = changes.iter().filter(|change| change.path == scanned.path).count();
        assert_eq!(count, 1);
    }
}

#[test]
fn the_path_of_a_conflict_is_that_of_its_first_version() {
    let statuses = vec![entry(b"ours.txt", CONFLICTED)];
    let conflicts = vec![ConflictEntry {
        ancestor: None,
        our: Some(b"ours.txt".to_vec()),
        their: Some(b"theirs.txt".to_vec()),
    }];
    assert_eq!(
        populate_changes(&statuses, &conflicts),
        Ok(vec![conflicting(b"ours.txt", ConflictingStatus::Added, ConflictingStatus::Added)])
    );
}

#[test]
fn a_conflicted_path_without_entry_is_an_error() {
    let statuses = vec![entry(b"x.txt", CONFLICTED), entry(b"y.txt", CONFLICTED)];
    let conflicts = vec![conflict(true, true, true, b"x.txt")];
    assert_eq!(
        populate_changes(&statuses, &conflicts),
        Err(ClassifyError::NoMatchingConflictEntry)
    );
    assert_eq!(
        populate_changes(&statuses, &Vec::new()),
        Err(ClassifyError::NoMatchingConflictEntry)
    );
}

#[test]
fn an_entry_without_conflicted_path_is_an_error() {
    let statuses = vec![entry(b"x.txt", CONFLICTED), entry(b"plain.txt", WT_MODIFIED)];
    let conflicts = vec![
        conflict(true, true, true, b"x.txt"),
        conflict(true, true, true, b"plain.txt"),
    ];
    assert_eq!(
        populate_changes(&statuses, &conflicts),
        Err(ClassifyError::UnexpectedConflictEntry { path: b"plain.txt".to_vec() })
    );
    assert_eq!(
        populate_changes(&Vec::new(), &vec![conflict(true, false, false, b"lone.txt")]),
        Err(ClassifyError::UnexpectedConflictEntry { path: b"lone.txt".to_vec() })
    );
}

#[test]
fn two_entries_for_one_conflicted_path_are_an_error() {
    let statuses = vec![entry(b"x.txt", CONFLICTED)];
    let conflicts = vec![
        conflict(true, true, true, b"x.txt"),
        conflict(true, true, false, b"x.txt"),
    ];
    assert_eq!(
        populate_changes(&statuses, &conflicts),
        Err(ClassifyError::UnexpectedConflictEntry { path: b"x.txt".to_vec() })
    );
}

#[test]
fn an_entry_without_versions_is_an_error() {
    let statuses = vec![entry(b"x.txt", CONFLICTED)];
    let conflicts = vec![conflict(false, false, false, b"x.txt")];
    assert_eq!(populate_changes(&statuses, &conflicts), Err(ClassifyError::InvalidConflictEntry));
}

#[test]
fn the_first_error_in_the_order_of_the_entries_is_given() {
    let statuses = vec![entry(b"x.txt", CONFLICTED)];
    let invalid_first = vec![
        conflict(false, false, false, b"-"),
        conflict(true, true, true, b"unknown.txt"),
    ];
    assert_eq!(
        populate_changes(&statuses, &invalid_first),
        Err(ClassifyError::InvalidConflictEntry)
    );
    let unknown_first = vec![
        conflict(true, true, true, b"unknown.txt"),
        conflict(false, false, false, b"-"),
    ];
    assert_eq!(
        populate_changes(&statuses, &unknown_first),
        Err(ClassifyError::UnexpectedConflictEntry { path: b"unknown.txt".to_vec() })
    );
}

#[test]
fn populate_conflicting_changes_matches_paths_one_to_one() {
    let pending = vec![b"a".to_vec(), b"b".to_vec()];
    let conflicts = vec![conflict(true, false, false, b"b"), conflict(false, true, false, b"a")];
    assert_eq!(
        populate_conflicting_changes(pending, &conflicts),
        Ok(vec![
            conflicting(b"b", ConflictingStatus::Deleted, ConflictingStatus::Deleted),
            conflicting(b"a", ConflictingStatus::Added, ConflictingStatus::Unmerged),
        ])
    );
    assert_eq!(populate_conflicting_changes(Vec::new(), &Vec::new()), Ok(Vec::new()));
}

#[test]
fn the_errors_say_what_is_wrong() {
    assert_eq!(
        ClassifyError::NoMatchingConflictEntry.message(),
        "Failed to find Git index entries for all conflicting paths in merge conflict"
    );
    assert_eq!(
        ClassifyError::InvalidConflictEntry.message(),
        "Failed to find path for merge conflict in Git index"
    );
    assert_eq!(
        ClassifyError::UnexpectedConflictEntry { path: b"src/main.rs".to_vec() }.message(),
        "Expected to find conflicting change path for merge conflict in 'src/main.rs', but found nothing"
    );
}

#[test]
fn a_scan_is_ranked_when_its_flags_have_a_place_in_the_order() {
    assert!(is_ranked_scan(&Vec::new()));
    assert!(is_ranked_scan(&vec![
        entry(b"a", WT_NEW),
        entry(b"b", INDEX_NEW | WT_MODIFIED),
        entry(b"c", CONFLICTED | IGNORED),
    ]));
    assert!(!is_ranked_scan(&vec![entry(b"a", WT_NEW), entry(b"b", IGNORED)]));
    assert!(!is_ranked_scan(&vec![entry(b"a", 0)]));
}

#[test]
fn an_error_names_the_path_it_is_given_a_name_for() {
    assert_eq!(
        ClassifyError::UnexpectedConflictEntry { path: vec![0xff] }.message_naming("shown"),
        "Expected to find conflicting change path for merge conflict in 'shown', but found nothing"
    );
    assert_eq!(
        ClassifyError::UnexpectedConflictEntry { path: vec![0x61, 0xff] }.message(),
        "Expected to find conflicting change path for merge conflict in 'a\u{fffd}', but found nothing"
    );
    assert_eq!(
        ClassifyError::InvalidConflictEntry.message_naming("unused"),
        "Failed to find path for merge conflict in Git index"
    );
}
