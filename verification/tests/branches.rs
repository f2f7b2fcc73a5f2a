use gadd::branches::{
    split_upstream_name, FetchStatus, UpstreamBranch, UpstreamCommitsDiff,
};
use gadd::index::Oid;

fn diff(ahead: usize, behind: usize) -> UpstreamCommitsDiff {
    UpstreamCommitsDiff { ahead, behind }
}

#[test]
fn the_full_name_splits_at_its_first_slash() {
    assert_eq!(
        split_upstream_name("origin/main"),
        Some((String::from("origin"), String::from("main")))
    );
    assert_eq!(
        split_upstream_name("origin/feature/login"),
        Some((String::from("origin"), String::from("feature/login")))
    );
    assert_eq!(split_upstream_name("/main"), Some((String::new(), String::from("main"))));
    assert_eq!(split_upstream_name("origin/"), Some((String::from("origin"), String::new())));
    assert_eq!(split_upstream_name("/"), Some((String::new(), String::new())));
}

#[test]
fn a_full_name_without_slash_names_no_remote() {
    assert_eq!(split_upstream_name("main"), None);
    assert_eq!(split_upstream_name(""), None);
}

#[test]
fn names_that_are_not_ascii_split_by_characters() {
    assert_eq!(
        split_upstream_name("störung/größe"),
        Some((String::from("störung"), String::from("größe")))
    );
}

#[test]
fn a_new_upstream_is_being_fetched() {
    let upstream =
        UpstreamBranch::new(String::from("origin/main"), Oid { bytes: [4; 20] }, diff(2, 3))
            .unwrap();
    assert_eq!(
        upstream,
        UpstreamBranch {
            name: String::from("main"),
            remote_name: String::from("origin"),
            full_name: String::from("origin/main"),
            object_id: Oid { bytes: [4; 20] },
            commits_diff: diff(2, 3),
            fetch_status: FetchStatus::Fetching,
        }
    );
    assert_eq!(UpstreamBranch::new(String::from("main"), Oid { bytes: [4; 20] }, diff(0, 0)), None);
}

#[test]
fn an_upstream_takes_note_of_its_fetches() {
    let mut upstream =
        UpstreamBranch::new(String::from("origin/main"), Oid { bytes: [4; 20] }, diff(2, 3))
            .unwrap();
    assert!(!upstream.begin_fetch());
    upstream.fetch_completed(diff(0, 1));
    assert_eq!(upstream.fetch_status, FetchStatus::Complete(diff(0, 1)));
    assert_eq!(upstream.commits_diff, diff(0, 1));
    assert!(upstream.begin_fetch());
    assert_eq!(upstream.fetch_status, FetchStatus::Fetching);
    upstream.fetch_failed();
    assert_eq!(upstream.fetch_status, FetchStatus::Failed);
    assert_eq!(upstream.commits_diff, diff(0, 1));
    assert!(upstream.begin_fetch());
    assert_eq!(upstream.name, "main");
}
