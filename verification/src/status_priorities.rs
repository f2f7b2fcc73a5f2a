//! The order in which statuses are listed: every status that can be ranked has
//! a priority of its own, and a smaller priority comes first.
//!
//! The priorities lie in bands, in this order: a single index-side flag; a
//! single worktree-side flag other than `WT_NEW`; an index-side flag together
//! with a worktree-side flag (index side first); `WT_NEW` alone, the
//! untracked path; the pairs of sides of a merge conflict.

use crate::statuses::{
    index_side, worktree_side, ConflictingStatus, Status, CONFLICTING_STATUSES,
    CONFLICTING_STATUSES_LENGTH, INDEX_DELETED, INDEX_MASK, INDEX_MODIFIED, INDEX_NEW,
    INDEX_RENAMED, INDEX_STATUSES, INDEX_TYPECHANGE, STATUSES_LENGTH, WORKTREE_MASK,
    WORKTREE_STATUSES, WT_DELETED, WT_MODIFIED, WT_NEW, WT_RENAMED, WT_TYPECHANGE,
};
use std::cmp::Ordering;
use std::collections::HashMap;
use vstd::prelude::*;

verus! {

/// The first priority of the band of single worktree-side flags.
pub const WORKTREE_BASE_PRIORITY: usize = 5;

/// The first priority of the band of combinations.
pub const COMBINED_BASE_PRIORITY: usize = 10;

/// The priority of the untracked path.
pub const UNTRACKED_PRIORITY: usize = 35;

/// The first priority of the band of merge conflicts.
pub const CONFLICTING_BASE_PRIORITY: usize = 36;

/// The place of a single index-side flag in `INDEX_STATUSES`.
pub open spec fn index_slot(flag: u32) -> Option<int> {
    if flag == INDEX_MODIFIED {
        Some(0int)
    } else if flag == INDEX_TYPECHANGE {
        Some(1int)
    } else if flag == INDEX_RENAMED {
        Some(2int)
    } else if flag == INDEX_DELETED {
        Some(3int)
    } else if flag == INDEX_NEW {
        Some(4int)
    } else {
        None
    }
}

/// The place of a single worktree-side flag in `WORKTREE_STATUSES`.
pub open spec fn worktree_slot(flag: u32) -> Option<int> {
    if flag == WT_MODIFIED {
        Some(0int)
    } else if flag == WT_TYPECHANGE {
        Some(1int)
    } else if flag == WT_RENAMED {
        Some(2int)
    } else if flag == WT_DELETED {
        Some(3int)
    } else if flag == WT_NEW {
        Some(4int)
    } else {
        None
    }
}

/// The place of a pair of sides in `CONFLICTING_STATUSES`.
pub open spec fn conflicting_slot(ours: ConflictingStatus, theirs: ConflictingStatus) -> Option<
    int,
> {
    match (ours, theirs) {
        (ConflictingStatus::Unmerged, ConflictingStatus::Unmerged) => Some(0int),
        (ConflictingStatus::Deleted, ConflictingStatus::Unmerged) => Some(1int),
        (ConflictingStatus::Unmerged, ConflictingStatus::Deleted) => Some(2int),
        (ConflictingStatus::Deleted, ConflictingStatus::Deleted) => Some(3int),
        (ConflictingStatus::Added, ConflictingStatus::Unmerged) => Some(4int),
        (ConflictingStatus::Unmerged, ConflictingStatus::Added) => Some(5int),
        (ConflictingStatus::Added, ConflictingStatus::Added) => Some(6int),
        _ => None,
    }
}

/// The priority of the flags of a path that is in no conflict; `None` for
/// flags that are not one index-side flag, one worktree-side flag, or one of
/// each.
pub open spec fn flags_priority(flags: u32) -> Option<int> {
    let index = index_slot(index_side(flags));
    let worktree = worktree_slot(worktree_side(flags));
    if flags != index_side(flags) | worktree_side(flags) {
        None
    } else if index is Some && worktree is Some {
        Some(COMBINED_BASE_PRIORITY + STATUSES_LENGTH * index.unwrap() + worktree.unwrap())
    } else if index is Some && worktree_side(flags) == 0 {
        index
    } else if worktree is Some && index_side(flags) == 0 {
        if flags == WT_NEW {
            Some(UNTRACKED_PRIORITY as int)
        } else {
            Some(WORKTREE_BASE_PRIORITY + worktree.unwrap())
        }
    } else {
        None
    }
}

/// The priority of a status; `None` for a status that has no place in the
/// order.
pub open spec fn status_priority(status: Status) -> Option<int> {
    match status {
        Status::NonConflicting(flags) => flags_priority(flags),
        Status::Conflicting { ours, theirs } => match conflicting_slot(ours, theirs) {
            Some(slot) => Some(CONFLICTING_BASE_PRIORITY + slot),
            None => None,
        },
    }
}

/// Whether a status has a place in the order.
pub open spec fn is_ranked(status: Status) -> bool {
    status_priority(status) is Some
}

/// The priorities of all statuses that have one.
pub open spec fn status_priorities() -> Map<Status, int> {
    Map::new(|status: Status| is_ranked(status), |status: Status| status_priority(status).unwrap())
}

/// Every priority lies below the end of the last band.
pub proof fn lemma_priority_bounds(status: Status)
    requires
        is_ranked(status),
    ensures
        0 <= status_priority(status).unwrap() < CONFLICTING_BASE_PRIORITY
            + CONFLICTING_STATUSES_LENGTH,
        status is Conflicting <==> status_priority(status).unwrap() >= CONFLICTING_BASE_PRIORITY,
        status == Status::NonConflicting(WT_NEW) <==> status_priority(status).unwrap()
            == UNTRACKED_PRIORITY,
{
    assert(WT_NEW & INDEX_MASK == 0 && WT_NEW & WORKTREE_MASK == WT_NEW && 0u32 | WT_NEW == WT_NEW)
        by (bit_vector);
}

/// No two statuses share a priority.
pub proof fn lemma_priority_injective(a: Status, b: Status)
    requires
        is_ranked(a),
        status_priority(a) == status_priority(b),
    ensures
        a == b,
{
    assert(WT_NEW & INDEX_MASK == 0 && WT_NEW & WORKTREE_MASK == WT_NEW && 0u32 | WT_NEW == WT_NEW)
        by (bit_vector);
}

/// Whether `a` is listed before `b`: both have a place in the order, and
/// the priority of `a` is the smaller one.
pub open spec fn status_before(a: Status, b: Status) -> bool {
    &&& is_ranked(a)
    &&& is_ranked(b)
    &&& status_priority(a).unwrap() < status_priority(b).unwrap()
}

/// On the statuses that have a place in the order, `status_before` is a
/// strict total order: no status is before itself, of two distinct statuses
/// exactly one is before the other, and the relation is transitive.
pub proof fn lemma_status_order_strict_total(a: Status, b: Status, c: Status)
    requires
        is_ranked(a),
        is_ranked(b),
        is_ranked(c),
    ensures
        !status_before(a, a),
        !(status_before(a, b) && status_before(b, a)),
        a != b ==> status_before(a, b) || status_before(b, a),
        status_before(a, b) && status_before(b, c) ==> status_before(a, c),
{
    if !status_before(a, b) && !status_before(b, a) {
        lemma_priority_injective(a, b);
    }
}

/// The first key of the statuses of merge conflicts: beyond every key of
/// flags.
const CONFLICTING_BASE_KEY: u64 = 0x1_0000_0000;

/// The number of a side of a merge conflict.
spec fn side_number(side: ConflictingStatus) -> int {
    match side {
        ConflictingStatus::Unmerged => 0,
        ConflictingStatus::Added => 1,
        ConflictingStatus::Deleted => 2,
    }
}

/// The integer under which a status is entered in the map: its flags, or,
/// for a merge conflict, a number beyond all flags made of its two sides.
spec fn status_key(status: Status) -> u64 {
    match status {
        Status::NonConflicting(flags) => flags as u64,
        Status::Conflicting { ours, theirs } => (CONFLICTING_BASE_KEY + 3 * side_number(ours)
            + side_number(theirs)) as u64,
    }
}

/// The status that is entered under a key, for the keys that `status_key`
/// gives.
spec fn key_status(key: u64) -> Status {
    if key < CONFLICTING_BASE_KEY {
        Status::NonConflicting(key as u32)
    } else {
        Status::Conflicting {
            ours: number_side((key - CONFLICTING_BASE_KEY) / 3),
            theirs: number_side((key - CONFLICTING_BASE_KEY) % 3),
        }
    }
}

/// The side of a merge conflict with a given number.
spec fn number_side(number: int) -> ConflictingStatus {
    if number == 0 {
        ConflictingStatus::Unmerged
    } else if number == 1 {
        ConflictingStatus::Added
    } else {
        ConflictingStatus::Deleted
    }
}

/// Whether a key is one that `status_key` gives.
spec fn is_status_key(key: u64) -> bool {
    key < CONFLICTING_BASE_KEY + 9
}

/// A status is found again from its key.
proof fn lemma_status_key_inverse(status: Status)
    ensures
        is_status_key(status_key(status)),
        key_status(status_key(status)) == status,
{
}

/// The row of the table in which flags are entered: the place of their
/// index-side flag, or else that of their worktree-side flag.
spec fn entry_row(flags: u32) -> int {
    match index_slot(index_side(flags)) {
        Some(slot) => slot,
        None => worktree_slot(worktree_side(flags)).unwrap(),
    }
}

/// The column of the table in which flags are entered: the place of their
/// worktree-side flag where they have an index-side flag too, and before
/// all of these for a single flag.
spec fn entry_column(flags: u32) -> int {
    if index_slot(index_side(flags)) is Some && worktree_slot(worktree_side(flags)) is Some {
        worktree_slot(worktree_side(flags)).unwrap()
    } else {
        -1
    }
}

/// Whether a key is entered once `rows` rows of flags are complete, the
/// next row is filled up to `columns`, and `conflicts` conflicts are in.
spec fn is_entered(key: u64, rows: int, columns: int, conflicts: int) -> bool {
    &&& is_status_key(key)
    &&& is_ranked(key_status(key))
    &&& if key < CONFLICTING_BASE_KEY {
        let flags = key as u32;
        entry_row(flags) < rows || (entry_row(flags) == rows && entry_column(flags) < columns)
    } else {
        status_priority(key_status(key)).unwrap() < CONFLICTING_BASE_PRIORITY + conflicts
    }
}

/// Whether a map holds exactly the keys that are entered at some point,
/// each with the priority of its status.
spec fn holds_entries(map: Map<u64, usize>, rows: int, columns: int, conflicts: int) -> bool {
    forall|key: u64|
        #![trigger map.contains_key(key)]
        #![trigger map[key]]
        {
            &&& map.contains_key(key) <==> is_entered(key, rows, columns, conflicts)
            &&& map.contains_key(key) ==> status_priority(key_status(key)) == Some(map[key] as int)
        }
}

/// What the flags of the table are made of.
proof fn lemma_flag_sides(index: u32, worktree: u32)
    requires
        index_slot(index) is Some,
        worktree_slot(worktree) is Some,
    ensures
        index_side(index) == index,
        worktree_side(index) == 0,
        index == index | 0,
        index_side(worktree) == 0,
        worktree_side(worktree) == worktree,
        worktree == 0 | worktree,
        index_side(worktree | index) == index,
        worktree_side(worktree | index) == worktree,
        worktree | index == index | worktree,
        worktree | index < CONFLICTING_BASE_KEY,
        index_slot(0) is None,
        worktree_slot(0) is None,
{
    assert(index & 0x1f == index ==> {
        &&& index & 0xf80 == 0
        &&& index == index | 0
    }) by (bit_vector);
    assert(worktree & 0xf80 == worktree ==> {
        &&& worktree & 0x1f == 0
        &&& worktree == 0 | worktree
    }) by (bit_vector);
    assert(index & 0x1f == index && worktree & 0xf80 == worktree ==> {
        &&& (worktree | index) & 0x1f == index
        &&& (worktree | index) & 0xf80 == worktree
        &&& worktree | index == index | worktree
    }) by (bit_vector);
    assert(0x02u32 & 0x1f == 0x02 && 0x10u32 & 0x1f == 0x10 && 0x08u32 & 0x1f == 0x08 && 0x04u32
        & 0x1f == 0x04 && 0x01u32 & 0x1f == 0x01) by (bit_vector);
    assert(0x100u32 & 0xf80 == 0x100 && 0x400u32 & 0xf80 == 0x400 && 0x800u32 & 0xf80 == 0x800
        && 0x200u32 & 0xf80 == 0x200 && 0x80u32 & 0xf80 == 0x80) by (bit_vector);
}

/// The priorities of the bands: of an index-side flag alone, of a
/// worktree-side flag alone, and of the two together.
pub proof fn lemma_band_priorities(index: u32, worktree: u32)
    requires
        index_slot(index) is Some,
        worktree_slot(worktree) is Some,
    ensures
        flags_priority(index) == index_slot(index),
        flags_priority(worktree) == Some(
            if worktree == WT_NEW {
                UNTRACKED_PRIORITY as int
            } else {
                WORKTREE_BASE_PRIORITY + worktree_slot(worktree).unwrap()
            },
        ),
        flags_priority(index | worktree) == Some(
            COMBINED_BASE_PRIORITY + STATUSES_LENGTH * index_slot(index).unwrap() + worktree_slot(
                worktree,
            ).unwrap(),
        ),
{
    lemma_flag_sides(index, worktree);
}

/// The priorities of the statuses, held in a map that is filled once.
#[derive(Debug)]
pub struct StatusPriorityMap {
    map: HashMap<u64, usize>,
}

impl View for StatusPriorityMap {
    type V = Map<Status, int>;

    /// The statuses that the map holds, each with its priority.
    closed spec fn view(&self) -> Map<Status, int> {
        Map::new(
            |status: Status| self.map@.contains_key(status_key(status)),
            |status: Status| self.map@[status_key(status)] as int,
        )
    }
}

/// The key of a status.
fn key_of(status: &Status) -> (key: u64)
    ensures
        key == status_key(*status),
{
    match status {
        Status::NonConflicting(flags) => *flags as u64,
        Status::Conflicting { ours, theirs } => {
            let ours_number: u64 = match ours {
                ConflictingStatus::Unmerged => 0,
                ConflictingStatus::Added => 1,
                ConflictingStatus::Deleted => 2,
            };
            let theirs_number: u64 = match theirs {
                ConflictingStatus::Unmerged => 0,
                ConflictingStatus::Added => 1,
                ConflictingStatus::Deleted => 2,
            };
            CONFLICTING_BASE_KEY + 3 * ours_number + theirs_number
        },
    }
}

impl StatusPriorityMap {
    /// The map holds every status that has a place in the order, with its
    /// priority, and nothing else.
    #[verifier::type_invariant]
    spec fn well_formed(&self) -> bool {
        holds_entries(self.map@, STATUSES_LENGTH as int, -1, CONFLICTING_STATUSES_LENGTH as int)
    }

    /// Fills the map with the priority of every status that has one.
    pub fn new() -> (priorities: StatusPriorityMap)
        ensures
            priorities@ == status_priorities(),
    {
        let mut map: HashMap<u64, usize> = HashMap::with_capacity(
            CONFLICTING_BASE_PRIORITY + CONFLICTING_STATUSES_LENGTH,
        );
        let mut i: usize = 0;
        while i < STATUSES_LENGTH
            invariant
                i <= STATUSES_LENGTH,
                holds_entries(map@, i as int, -1, 0),
            decreases STATUSES_LENGTH - i,
        {
            let index_status = INDEX_STATUSES[i];
            let worktree_status = WORKTREE_STATUSES[i];
            proof {
                lemma_flag_sides(index_status, worktree_status);
            }
            map.insert(index_status as u64, i);
            if worktree_status == WT_NEW {
                map.insert(worktree_status as u64, UNTRACKED_PRIORITY);
            } else {
                map.insert(worktree_status as u64, WORKTREE_BASE_PRIORITY + i);
            }
            assert(holds_entries(map@, i as int, 0, 0));
            let mut j: usize = 0;
            while j < STATUSES_LENGTH
                invariant
                    i < STATUSES_LENGTH,
                    j <= STATUSES_LENGTH,
                    index_status == INDEX_STATUSES[i as int],
                    holds_entries(map@, i as int, j as int, 0),
                decreases STATUSES_LENGTH - j,
            {
                let worktree_status_2 = WORKTREE_STATUSES[j];
                let combined_status = worktree_status_2 | index_status;
                proof {
                    lemma_flag_sides(index_status, worktree_status_2);
                }
                let priority = COMBINED_BASE_PRIORITY + i * STATUSES_LENGTH + j;
                map.insert(combined_status as u64, priority);
                j = j + 1;
            }
            i = i + 1;
        }
        let mut k: usize = 0;
        while k < CONFLICTING_STATUSES_LENGTH
            invariant
                k <= CONFLICTING_STATUSES_LENGTH,
                holds_entries(map@, STATUSES_LENGTH as int, -1, k as int),
            decreases CONFLICTING_STATUSES_LENGTH - k,
        {
            let ours = CONFLICTING_STATUSES[k][0];
            let theirs = CONFLICTING_STATUSES[k][1];
            let key = key_of(&Status::Conflicting { ours, theirs });
            map.insert(key, CONFLICTING_BASE_PRIORITY + k);
            k = k + 1;
        }
        let priorities = StatusPriorityMap { map };
        proof {
            assert forall|status: Status|
                priorities@.contains_key(status) == status_priorities().contains_key(
                    status,
                ) && (priorities@.contains_key(status) ==> priorities@[status]
                    == status_priorities()[status]) by {
                lemma_status_key_inverse(status);
            }
            assert(priorities@ =~= status_priorities());
        }
        priorities
    }

    /// The priority of a status, if it has a place in the order.
    pub fn priority(&self, status: &Status) -> (priority: Option<usize>)
        ensures
            match priority {
                Some(value) => status_priority(*status) == Some(value as int),
                None => !is_ranked(*status),
            },
    {
        proof {
            use_type_invariant(self);
            lemma_status_key_inverse(*status);
        }
        let key = key_of(status);
        match self.map.get(&key) {
            Some(value) => Some(*value),
            None => None,
        }
    }

    /// Compares two statuses by their place in the order. Both must have
    /// one: two distinct statuses are never equal in the order.
    pub fn compare_statuses(&self, status_1: &Status, status_2: &Status) -> (ordering: Ordering)
        requires
            is_ranked(*status_1),
            is_ranked(*status_2),
        ensures
            match ordering {
                Ordering::Less => status_before(*status_1, *status_2),
                Ordering::Equal => *status_1 == *status_2,
                Ordering::Greater => status_before(*status_2, *status_1),
            },
    {
        proof {
            lemma_status_order_strict_total(*status_1, *status_2, *status_1);
        }
        match (self.priority(status_1), self.priority(status_2)) {
            (Some(priority_1), Some(priority_2)) => {
                if priority_1 < priority_2 {
                    Ordering::Less
                } else if priority_1 > priority_2 {
                    Ordering::Greater
                } else {
                    Ordering::Equal
                }
            },
            _ => vstd::pervasive::unreached(),
        }
    }
}

} // verus!
