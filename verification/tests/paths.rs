use gadd::change_ordering::ChangeOrdering;
use gadd::paths::{find_position, first_difference, path_less, paths_equal};
use std::cmp::Ordering;

#[test]
fn first_difference_is_the_length_of_the_shared_prefix() {
    assert_eq!(first_difference(b"", b""), 0);
    assert_eq!(first_difference(b"abc", b"abd"), 2);
    assert_eq!(first_difference(b"abc", b"abc"), 3);
    assert_eq!(first_difference(b"abc", b"abcde"), 3);
    assert_eq!(first_difference(b"xbc", b"abc"), 0);
}

#[test]
fn compare_paths_goes_byte_by_byte() {
    assert_eq!(ChangeOrdering::compare_paths(b"a.txt", b"b.txt"), Ordering::Less);
    assert_eq!(ChangeOrdering::compare_paths(b"b.txt", b"a.txt"), Ordering::Greater);
    assert_eq!(ChangeOrdering::compare_paths(b"a.txt", b"a.txt"), Ordering::Equal);
    assert_eq!(ChangeOrdering::compare_paths(b"", b""), Ordering::Equal);
}

#[test]
fn a_proper_prefix_comes_first() {
    assert_eq!(ChangeOrdering::compare_paths(b"src", b"src/lib.rs"), Ordering::Less);
    assert_eq!(ChangeOrdering::compare_paths(b"src/lib.rs", b"src"), Ordering::Greater);
    assert_eq!(ChangeOrdering::compare_paths(b"", b"a"), Ordering::Less);
}

#[test]
fn bytes_that_are_no_text_are_compared_as_bytes() {
    let low: &[u8] = &[0x66, 0x80];
    let high: &[u8] = &[0x66, 0xff];
    assert_eq!(ChangeOrdering::compare_paths(low, high), Ordering::Less);
    assert_eq!(ChangeOrdering::compare_paths(high, low), Ordering::Greater);
    assert_eq!(ChangeOrdering::compare_paths(b"fz", low), Ordering::Less);
    assert!(!paths_equal(low, high));
}

#[test]
fn upper_case_comes_before_lower_case() {
    assert_eq!(ChangeOrdering::compare_paths(b"Zebra", b"apple"), Ordering::Less);
}

#[test]
fn path_less_agrees_with_compare_paths() {
    let paths: [&[u8]; 6] = [b"", b"a", b"a/b", b"ab", b"b", &[0xff]];
    for a in paths {
        for b in paths {
            let ordering = ChangeOrdering::compare_paths(a, b);
            assert_eq!(path_less(a, b), ordering == Ordering::Less);
            assert_eq!(paths_equal(a, b), ordering == Ordering::Equal);
            assert_eq!(ordering, a.cmp(b));
        }
    }
}

#[test]
fn find_position_gives_the_first_place_or_the_length() {
    let paths = vec![b"b".to_vec(), b"a".to_vec(), b"b".to_vec()];
    assert_eq!(find_position(&paths, b"b"), 0);
    assert_eq!(find_position(&paths, b"a"), 1);
    assert_eq!(find_position(&paths, b"c"), 3);
    assert_eq!(find_position(&Vec::new(), b"c"), 0);
}
