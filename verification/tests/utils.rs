use gadd::utils::{bytes_to_path, message_about, message_naming};
use std::path::PathBuf;

#[test]
fn bytes_that_are_text_name_a_path() {
    assert_eq!(bytes_to_path(b"a.txt"), Some(PathBuf::from("a.txt")));
    assert_eq!(bytes_to_path(b"src/lib.rs"), Some(PathBuf::from("src/lib.rs")));
    assert_eq!(bytes_to_path("größe.txt".as_bytes()), Some(PathBuf::from("größe.txt")));
    assert_eq!(bytes_to_path(b""), Some(PathBuf::new()));
}

#[test]
fn the_path_has_the_parts_of_the_text() {
    let path = bytes_to_path(b"src/rendering/inline.rs").unwrap();
    let parts: Vec<String> =
        path.iter().map(|part| part.to_string_lossy().into_owned()).collect();
    assert_eq!(parts, vec!["src", "rendering", "inline.rs"]);
}

#[test]
fn bytes_that_are_no_text_name_no_path() {
    assert_eq!(bytes_to_path(&[0x66, 0x6f, 0x80]), None);
    assert_eq!(bytes_to_path(&[0xff]), None);
    assert_eq!(bytes_to_path(&[0xc3]), None);
}

#[test]
fn a_path_that_is_text_reads_as_it_stands() {
    assert_eq!(message_about("", b"a.txt", ""), "a.txt");
    assert_eq!(message_about("'", "größe.txt".as_bytes(), "'"), "'größe.txt'");
}

#[test]
fn bytes_that_are_no_text_read_as_replacement_characters() {
    assert_eq!(message_about("", &[0x66, 0x80, 0x6f], ""), "f\u{fffd}o");
    assert_eq!(message_about("", &[0xff], ""), "\u{fffd}");
}

#[test]
fn a_message_names_what_it_is_given() {
    assert_eq!(message_naming("Failed to add '", "a.txt", "' to Git index"),
        "Failed to add 'a.txt' to Git index");
    assert_eq!(message_naming("", "", ""), "");
    assert_eq!(message_naming("a", "", "b"), "ab");
}

#[test]
fn a_message_names_the_path_between_its_parts() {
    assert_eq!(message_about("Failed to add '", b"a.txt", "' to Git index"),
        "Failed to add 'a.txt' to Git index");
    assert_eq!(message_about("<", &[0x80], ">"), "<\u{fffd}>");
    assert_eq!(message_about("", b"", ""), "");
}
