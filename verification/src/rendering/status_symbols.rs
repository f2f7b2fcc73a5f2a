//! The two symbols that stand for a status: the first for the index, the
//! second for the working tree.

use crate::statuses::{
    flags_intersect, intersects, ConflictingStatus, Status, INDEX_DELETED, INDEX_MODIFIED,
    INDEX_NEW, INDEX_RENAMED, INDEX_STATUSES, INDEX_TYPECHANGE, STATUSES_LENGTH,
    WORKTREE_STATUSES, WT_DELETED, WT_MODIFIED, WT_NEW, WT_RENAMED, WT_TYPECHANGE,
};
use vstd::prelude::*;

verus! {

/// One symbol of a status, with its colour.
#[derive(Clone, Copy, Debug, PartialEq, Eq)]
pub enum StatusSymbol {
    Green(&'static str),
    Red(&'static str),
    Space,
}

/// A symbol of a status as contracts see it.
pub ghost enum StatusSymbolView {
    Green(Seq<char>),
    Red(Seq<char>),
    Space,
}

impl View for StatusSymbol {
    type V = StatusSymbolView;

    open spec fn view(&self) -> StatusSymbolView {
        match self {
            StatusSymbol::Green(letter) => StatusSymbolView::Green(letter@),
            StatusSymbol::Red(letter) => StatusSymbolView::Red(letter@),
            StatusSymbol::Space => StatusSymbolView::Space,
        }
    }
}

/// The letters of the kinds of change, in the order of `INDEX_STATUSES` and
/// of `WORKTREE_STATUSES`: modified, type changed, renamed, deleted, new.
pub const STATUS_SYMBOL_OPTIONS: [&'static str; STATUSES_LENGTH] = ["M", "T", "R", "D", "A"];

/// The letter of the first index-side flag, in the order of
/// `INDEX_STATUSES`, that is among `flags`.
pub open spec fn index_letter(flags: u32) -> Option<Seq<char>> {
    if flags_intersect(flags, INDEX_MODIFIED) {
        Some("M"@)
    } else if flags_intersect(flags, INDEX_TYPECHANGE) {
        Some("T"@)
    } else if flags_intersect(flags, INDEX_RENAMED) {
        Some("R"@)
    } else if flags_intersect(flags, INDEX_DELETED) {
        Some("D"@)
    } else if flags_intersect(flags, INDEX_NEW) {
        Some("A"@)
    } else {
        None
    }
}

/// The letter of the first worktree-side flag, in the order of
/// `WORKTREE_STATUSES`, that is among `flags`.
pub open spec fn worktree_letter(flags: u32) -> Option<Seq<char>> {
    if flags_intersect(flags, WT_MODIFIED) {
        Some("M"@)
    } else if flags_intersect(flags, WT_TYPECHANGE) {
        Some("T"@)
    } else if flags_intersect(flags, WT_RENAMED) {
        Some("R"@)
    } else if flags_intersect(flags, WT_DELETED) {
        Some("D"@)
    } else if flags_intersect(flags, WT_NEW) {
        Some("A"@)
    } else {
        None
    }
}

/// The letter of one side of a merge conflict.
pub open spec fn side_letter(side: ConflictingStatus) -> Seq<char> {
    match side {
        ConflictingStatus::Unmerged => "U"@,
        ConflictingStatus::Added => "A"@,
        ConflictingStatus::Deleted => "D"@,
    }
}

/// The two symbols of a status. An untracked path shows two red question
/// marks. Any other path in no conflict shows the letter of its index-side
/// flag in green and that of its worktree-side flag in red, and a space
/// for a side without a flag. A path in a merge conflict shows the letters
/// of its two sides in red.
pub open spec fn status_symbols(status: Status) -> Seq<StatusSymbolView> {
    match status {
        Status::NonConflicting(flags) => if flags == WT_NEW {
            seq![StatusSymbolView::Red("?"@), StatusSymbolView::Red("?"@)]
        } else {
            seq![
                match index_letter(flags) {
                    Some(letter) => StatusSymbolView::Green(letter),
                    None => StatusSymbolView::Space,
                },
                match worktree_letter(flags) {
                    Some(letter) => StatusSymbolView::Red(letter),
                    None => StatusSymbolView::Space,
                },
            ]
        },
        Status::Conflicting { ours, theirs } => seq![
            StatusSymbolView::Red(side_letter(ours)),
            StatusSymbolView::Red(side_letter(theirs)),
        ],
    }
}

/// The symbols of a status as contracts see them.
pub open spec fn symbol_views(symbols: Seq<StatusSymbol>) -> Seq<StatusSymbolView> {
    Seq::new(symbols.len(), |i: int| symbols[i]@)
}

/// The letter of the first of `statuses`, a list of flags in the order of
/// the letters, that is among `flags`.
fn first_letter(flags: u32, statuses: &[u32; STATUSES_LENGTH]) -> (letter: Option<&'static str>)
    ensures
        match letter {
            Some(letter) => exists|i: int|
                0 <= i < STATUSES_LENGTH && letter == STATUS_SYMBOL_OPTIONS[i] && flags_intersect(
                    flags,
                    #[trigger] statuses[i],
                ) && forall|j: int| 0 <= j < i ==> !flags_intersect(flags, #[trigger] statuses[j]),
            None => forall|j: int|
                0 <= j < STATUSES_LENGTH ==> !flags_intersect(flags, #[trigger] statuses[j]),
        },
{
    let mut i: usize = 0;
    while i < STATUSES_LENGTH
        invariant
            i <= STATUSES_LENGTH,
            forall|j: int| 0 <= j < i ==> !flags_intersect(flags, #[trigger] statuses[j]),
        decreases STATUSES_LENGTH - i,
    {
        if intersects(flags, statuses[i]) {
            return Some(STATUS_SYMBOL_OPTIONS[i]);
        }
        i = i + 1;
    }
    None
}

/// The letter of one side of a merge conflict.
fn letter_of_side(side: ConflictingStatus) -> (letter: &'static str)
    ensures
        letter@ == side_letter(side),
{
    match side {
        ConflictingStatus::Unmerged => "U",
        ConflictingStatus::Added => "A",
        ConflictingStatus::Deleted => "D",
    }
}

/// The two symbols of a status: the first for the index, the second for
/// the working tree.
pub fn get_status_symbols(status: &Status) -> (symbols: [StatusSymbol; 2])
    ensures
        symbol_views(symbols@) == status_symbols(*status),
{
    let symbols = match status {
        Status::NonConflicting(flags) => {
            if *flags == WT_NEW {
                [StatusSymbol::Red("?"), StatusSymbol::Red("?")]
            } else {
                let index = match first_letter(*flags, &INDEX_STATUSES) {
                    Some(letter) => StatusSymbol::Green(letter),
                    None => StatusSymbol::Space,
                };
                let worktree = match first_letter(*flags, &WORKTREE_STATUSES) {
                    Some(letter) => StatusSymbol::Red(letter),
                    None => StatusSymbol::Space,
                };
                proof {
                    assert(INDEX_STATUSES[0] == INDEX_MODIFIED && INDEX_STATUSES[1]
                        == INDEX_TYPECHANGE && INDEX_STATUSES[2] == INDEX_RENAMED
                        && INDEX_STATUSES[3] == INDEX_DELETED && INDEX_STATUSES[4] == INDEX_NEW);
                    assert(WORKTREE_STATUSES[0] == WT_MODIFIED && WORKTREE_STATUSES[1]
                        == WT_TYPECHANGE && WORKTREE_STATUSES[2] == WT_RENAMED
                        && WORKTREE_STATUSES[3] == WT_DELETED && WORKTREE_STATUSES[4] == WT_NEW);
                    assert(STATUS_SYMBOL_OPTIONS[0] == "M" && STATUS_SYMBOL_OPTIONS[1] == "T"
                        && STATUS_SYMBOL_OPTIONS[2] == "R" && STATUS_SYMBOL_OPTIONS[3] == "D"
                        && STATUS_SYMBOL_OPTIONS[4] == "A");
                }
                [index, worktree]
            }
        },
        Status::Conflicting { ours, theirs } => [
            StatusSymbol::Red(letter_of_side(*ours)),
            StatusSymbol::Red(letter_of_side(*theirs)),
        ],
    };
    assert(symbol_views(symbols@) =~= status_symbols(*status));
    symbols
}

} // verus!
