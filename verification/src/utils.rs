//! Paths of the repository as the file system and as a reader see them.

use crate::index::{bare_index_entry, IndexEntry, IndexTime, Oid};
use std::path::PathBuf;
use vstd::prelude::*;
use vstd::utf8::{decode_utf8, encode_utf8, encode_utf8_decode_utf8, valid_utf8};

verus! {

/// `std::path::PathBuf`: a path of the platform, carried through as it
/// is.
#[verifier::external_type_specification]
#[verifier::external_body]
pub struct ExPathBuf(PathBuf);

/// The path that `PathBuf::from` makes of a text.
pub uninterp spec fn path_of_text(text: Seq<char>) -> PathBuf;

/// The text that `String::from_utf8_lossy` makes of bytes.
pub uninterp spec fn utf8_lossy(bytes: Seq<u8>) -> Seq<char>;

/// `std::str::from_utf8`: the text whose bytes are the given ones, where
/// these are UTF-8, and nothing where they are not.
#[verifier::external_body]
fn text_of_bytes(bytes: &[u8]) -> (text: Option<&str>)
    ensures
        text is Some <==> valid_utf8(bytes@),
        text is Some ==> encode_utf8(text.unwrap()@) == bytes@,
{
    std::str::from_utf8(bytes).ok()
}

/// `PathBuf::from` on a `&str`: the path that the text names. The result is
/// a function of the text alone.
#[verifier::external_body]
fn path_of(text: &str) -> (path: PathBuf)
    ensures
        path == path_of_text(text@),
{
    PathBuf::from(text)
}

/// `String::from_utf8_lossy`: the bytes as text, with a replacement
/// character for what is not UTF-8. The result is a function of the bytes
/// alone, and of bytes that are UTF-8 it is the text that has these bytes.
#[verifier::external_body]
pub(crate) fn lossy_text(bytes: &[u8]) -> (text: String)
    ensures
        text@ == utf8_lossy(bytes@),
        valid_utf8(bytes@) ==> encode_utf8(text@) == bytes@,
{
    String::from_utf8_lossy(bytes).into_owned()
}

/// The path that the bytes name where they are UTF-8 text. Other bytes name
/// a path only to a platform that takes raw bytes: for them there is no
/// answer here.
pub fn bytes_to_path(bytes: &[u8]) -> (path: Option<PathBuf>)
    ensures
        path == if valid_utf8(bytes@) {
            Some(path_of_text(decode_utf8(bytes@)))
        } else {
            None::<PathBuf>
        },
{
    match text_of_bytes(bytes) {
        Some(text) => {
            proof {
                encode_utf8_decode_utf8(text@);
            }
            Some(path_of(text))
        },
        None => None,
    }
}

/// A message that names something: `before`, the name, `after`.
pub fn message_naming(before: &str, name: &str, after: &str) -> (message: String)
    ensures
        message@ == before@ + name@ + after@,
{
    let mut message = String::from_str(before);
    message.append(name);
    message.append(after);
    message
}

/// A message that names a path: `before`, the path as a reader sees it,
/// `after`.
pub fn message_about(before: &str, path: &[u8], after: &str) -> (message: String)
    ensures
        message@ == before@ + utf8_lossy(path@) + after@,
        valid_utf8(path@) ==> message@ == before@ + decode_utf8(path@) + after@,
{
    let name = lossy_text(path);
    proof {
        encode_utf8_decode_utf8(name@);
    }
    message_naming(before, name.as_str(), after)
}

/// An index entry that says no more than that `path` holds the object `id`
/// with the file mode `mode`: all that is a hint only is zero.
pub fn new_index_entry(id: Oid, mode: u32, path: Vec<u8>) -> (entry: IndexEntry)
    ensures
        entry@ == bare_index_entry(id, mode, path@),
        entry.path == path,
{
    IndexEntry {
        id,
        mode,
        path,
        ctime: IndexTime { seconds: 0, nanoseconds: 0 },
        mtime: IndexTime { seconds: 0, nanoseconds: 0 },
        dev: 0,
        ino: 0,
        uid: 0,
        gid: 0,
        file_size: 0,
        flags: 0,
        flags_extended: 0,
    }
}

} // verus!
