//! The order of the list of changes, kept stable while the changes come and
//! go.
//!
//! The ordering records paths, each at a position of its own. The first list
//! is sorted by status and then by path, and its paths are recorded in that
//! order. Every later list is sorted by the recorded positions; paths that
//! are not recorded yet follow all recorded ones, sorted by path, and are
//! recorded in turn. A position that was given is never changed or given
//! again.

use crate::change::{change_views, paths_of, Change, ChangeView};
use crate::paths::{
    find_position, first_difference, index_of, lemma_first_difference_decides,
    lemma_position_in, path_lt, path_views, position_in,
};
use crate::sorting::{key_values, sort_changes_by_keys, stable_sorted};
use crate::status_priorities::{is_ranked, status_priority, StatusPriorityMap};
use std::cmp::Ordering;
use vstd::prelude::*;

verus! {

/// `known` after `paths` have been seen one by one: each path that was not
/// held yet is added at the end.
pub open spec fn record_paths(known: Seq<Seq<u8>>, paths: Seq<Seq<u8>>) -> Seq<Seq<u8>>
    decreases paths.len(),
{
    if paths.len() == 0 {
        known
    } else if known.contains(paths[0]) {
        record_paths(known, paths.drop_first())
    } else {
        record_paths(known.push(paths[0]), paths.drop_first())
    }
}

/// The keys by which the first list is sorted: the priorities of the
/// statuses.
pub open spec fn priority_keys(changes: Seq<ChangeView>) -> Seq<int> {
    Seq::new(changes.len(), |i: int| status_priority(changes[i].status).unwrap())
}

/// The keys by which a later list is sorted: the positions of the paths.
pub open spec fn position_keys(known: Seq<Seq<u8>>, changes: Seq<ChangeView>) -> Seq<int> {
    Seq::new(changes.len(), |i: int| position_in(known, changes[i].path))
}

/// Whether every status of a list has a place in the order of statuses.
pub open spec fn all_ranked(changes: Seq<ChangeView>) -> bool {
    forall|i: int| 0 <= i < changes.len() ==> is_ranked(#[trigger] changes[i].status)
}

/// What recording paths does to what was held: it stays, at the places it
/// had, nothing is held twice, and exactly the paths that were seen are
/// added.
pub proof fn lemma_record_paths(known: Seq<Seq<u8>>, paths: Seq<Seq<u8>>)
    ensures
        known.len() <= record_paths(known, paths).len(),
        record_paths(known, paths).subrange(0, known.len() as int) == known,
        known.no_duplicates() ==> record_paths(known, paths).no_duplicates(),
        forall|path: Seq<u8>|
            #[trigger] record_paths(known, paths).contains(path) <==> known.contains(path)
                || paths.contains(path),
        (forall|i: int| 0 <= i < paths.len() ==> known.contains(#[trigger] paths[i]))
            ==> record_paths(known, paths) == known,
    decreases paths.len(),
{
    let recorded = record_paths(known, paths);
    if paths.len() == 0 {
        assert(recorded.subrange(0, known.len() as int) =~= known);
    } else {
        let first = paths[0];
        let rest = paths.drop_first();
        let next = if known.contains(first) {
            known
        } else {
            known.push(first)
        };
        lemma_record_paths(next, rest);
        assert(recorded == record_paths(next, rest));
        assert(recorded.subrange(0, known.len() as int) =~= known) by {
            assert(recorded.subrange(0, next.len() as int) == next);
            assert forall|i: int| 0 <= i < known.len() implies recorded[i] == known[i] by {
                assert(recorded.subrange(0, next.len() as int)[i] == recorded[i]);
                assert(next[i] == known[i]);
            }
        }
        if known.no_duplicates() {
            assert(next.no_duplicates()) by {
                if !known.contains(first) {
                    assert forall|i: int, j: int|
                        0 <= i < next.len() && 0 <= j < next.len() && i != j implies next[i]
                        != next[j] by {
                        if i < known.len() && j < known.len() {
                        } else if i < known.len() {
                            assert(known.contains(known[i]));
                        } else {
                            assert(known.contains(known[j]));
                        }
                    }
                }
            }
        }
        assert forall|path: Seq<u8>| #[trigger]
            recorded.contains(path) <==> known.contains(path) || paths.contains(path) by {
            if known.contains(path) {
                let i = choose|i: int| 0 <= i < known.len() && known[i] == path;
                assert(next[i] == path);
            }
            if paths.contains(path) {
                let i = choose|i: int| 0 <= i < paths.len() && paths[i] == path;
                if i == 0 {
                    if !known.contains(first) {
                        assert(next[known.len() as int] == path);
                    }
                } else {
                    assert(rest[i - 1] == path);
                }
            }
            if next.contains(path) {
                let i = choose|i: int| 0 <= i < next.len() && next[i] == path;
                if i < known.len() {
                    assert(known[i] == path);
                } else {
                    assert(paths[0] == path);
                }
            }
            if rest.contains(path) {
                let i = choose|i: int| 0 <= i < rest.len() && rest[i] == path;
                assert(paths[i + 1] == path);
            }
        }
        if forall|i: int| 0 <= i < paths.len() ==> known.contains(#[trigger] paths[i]) {
            assert(known.contains(paths[0]));
            assert forall|i: int| 0 <= i < rest.len() implies next.contains(#[trigger] rest[i]) by {
                assert(rest[i] == paths[i + 1]);
            }
        }
    }
}

/// Adds to `paths` the paths of `changes`, in their order, that it does not
/// hold yet.
fn record_changes(paths: &mut Vec<Vec<u8>>, changes: &Vec<Change>)
    ensures
        path_views(final(paths)@) == record_paths(
            path_views(old(paths)@),
            paths_of(change_views(changes@)),
        ),
{
    let ghost seen = paths_of(change_views(changes@));
    let ghost known = path_views(paths@);
    let mut i: usize = 0;
    assert(seen.subrange(0, seen.len() as int) =~= seen);
    while i < changes.len()
        invariant
            i <= changes.len(),
            seen == paths_of(change_views(changes@)),
            record_paths(path_views(paths@), seen.subrange(i as int, seen.len() as int))
                == record_paths(known, seen),
        decreases changes.len() - i,
    {
        let ghost before = path_views(paths@);
        let ghost rest = seen.subrange(i as int, seen.len() as int);
        proof {
            assert(rest[0] == changes@[i as int]@.path);
            assert(rest.drop_first() =~= seen.subrange(i + 1, seen.len() as int));
            lemma_position_in(before, rest[0]);
        }
        if find_position(paths, changes[i].path.as_slice()) == paths.len() {
            let path = changes[i].path.clone();
            paths.push(path);
            assert(path_views(paths@) =~= before.push(rest[0]));
        }
        i = i + 1;
    }
    proof {
        assert(seen.subrange(i as int, seen.len() as int) =~= Seq::<Seq<u8>>::empty());
    }
}

/// Whether every status of `changes` has a place in the order of statuses.
pub fn are_ranked(changes: &Vec<Change>) -> (ranked: bool)
    ensures
        ranked == all_ranked(change_views(changes@)),
{
    let status_priorities = StatusPriorityMap::new();
    let ghost views = change_views(changes@);
    let mut i: usize = 0;
    while i < changes.len()
        invariant
            i <= changes.len(),
            views == change_views(changes@),
            forall|j: int| 0 <= j < i ==> is_ranked(#[trigger] views[j].status),
        decreases changes.len() - i,
    {
        if status_priorities.priority(&changes[i].status).is_none() {
            assert(views[i as int].status == changes@[i as int].status);
            return false;
        }
        assert(views[i as int].status == changes@[i as int].status);
        i = i + 1;
    }
    true
}

/// The priorities of the statuses of `changes`, one for each.
fn priorities_of(changes: &Vec<Change>) -> (keys: Vec<usize>)
    requires
        all_ranked(change_views(changes@)),
    ensures
        keys.len() == changes.len(),
        key_values(keys@) == priority_keys(change_views(changes@)),
{
    let status_priorities = StatusPriorityMap::new();
    let mut keys: Vec<usize> = Vec::with_capacity(changes.len());
    let mut i: usize = 0;
    while i < changes.len()
        invariant
            i <= changes.len(),
            keys.len() == i,
            all_ranked(change_views(changes@)),
            forall|j: int|
                0 <= j < i ==> Some(#[trigger] keys@[j] as int) == status_priority(
                    changes@[j].status,
                ),
        decreases changes.len() - i,
    {
        assert(is_ranked(change_views(changes@)[i as int].status));
        match status_priorities.priority(&changes[i].status) {
            Some(priority) => keys.push(priority),
            None => vstd::pervasive::unreached(),
        }
        i = i + 1;
    }
    assert(key_values(keys@) =~= priority_keys(change_views(changes@)));
    keys
}

/// The positions by which the paths of `changes` are sorted among `paths`,
/// one for each.
fn positions_of(paths: &Vec<Vec<u8>>, changes: &Vec<Change>) -> (keys: Vec<usize>)
    ensures
        keys.len() == changes.len(),
        key_values(keys@) == position_keys(path_views(paths@), change_views(changes@)),
{
    let mut keys: Vec<usize> = Vec::with_capacity(changes.len());
    let mut i: usize = 0;
    while i < changes.len()
        invariant
            i <= changes.len(),
            keys.len() == i,
            forall|j: int|
                0 <= j < i ==> #[trigger] keys@[j] as int == position_in(
                    path_views(paths@),
                    changes@[j].path@,
                ),
        decreases changes.len() - i,
    {
        keys.push(find_position(paths, changes[i].path.as_slice()));
        i = i + 1;
    }
    assert(key_values(keys@) =~= position_keys(path_views(paths@), change_views(changes@)));
    keys
}

/// The record of the paths seen so far, each at its position.
#[derive(Debug)]
pub struct ChangeOrdering {
    paths: Vec<Vec<u8>>,
}

impl View for ChangeOrdering {
    type V = Seq<Seq<u8>>;

    /// The recorded paths, each at its position.
    closed spec fn view(&self) -> Seq<Seq<u8>> {
        path_views(self.paths@)
    }
}

impl ChangeOrdering {
    /// No path is recorded twice.
    #[verifier::type_invariant]
    spec fn well_formed(&self) -> bool {
        self@.no_duplicates()
    }

    /// An ordering that has recorded nothing, with room for `capacity`
    /// paths.
    pub fn with_capacity(capacity: usize) -> (ordering: ChangeOrdering)
        ensures
            ordering@ == Seq::<Seq<u8>>::empty(),
    {
        let ordering = ChangeOrdering { paths: Vec::with_capacity(capacity) };
        assert(ordering@ =~= Seq::<Seq<u8>>::empty());
        ordering
    }

    /// How many paths are recorded.
    pub fn len(&self) -> (len: usize)
        ensures
            len == self@.len(),
            self@.no_duplicates(),
    {
        proof {
            use_type_invariant(self);
        }
        self.paths.len()
    }

    /// The position by which `path` is sorted: its recorded position, or
    /// the number of recorded paths where it is not recorded.
    pub fn sort_position(&self, path: &[u8]) -> (position: usize)
        ensures
            position == position_in(self@, path@),
            position <= self@.len(),
    {
        find_position(&self.paths, path)
    }

    /// The recorded position of `path`, if it is recorded.
    pub fn position(&self, path: &[u8]) -> (position: Option<usize>)
        ensures
            match position {
                Some(at) => at < self@.len() && self@[at as int] == path@ && at == position_in(
                    self@,
                    path@,
                ),
                None => !self@.contains(path@),
            },
    {
        let at = find_position(&self.paths, path);
        proof {
            lemma_position_in(self@, path@);
        }
        if at < self.paths.len() {
            Some(at)
        } else {
            None
        }
    }

    /// Records the paths of `changes`, in their order, that are not
    /// recorded yet, and says how many these were.
    fn record(&mut self, changes: &Vec<Change>) -> (count: usize)
        ensures
            final(self)@ == record_paths(old(self)@, paths_of(change_views(changes@))),
            count == final(self)@.len() - old(self)@.len(),
    {
        proof {
            use_type_invariant(&*self);
            lemma_record_paths(self@, paths_of(change_views(changes@)));
        }
        let mut paths: Vec<Vec<u8>> = Vec::new();
        std::mem::swap(&mut self.paths, &mut paths);
        let length = paths.len();
        record_changes(&mut paths, changes);
        let count = paths.len() - length;
        std::mem::swap(&mut self.paths, &mut paths);
        count
    }

    /// Sorts `changes` by the priority of their statuses and then by path.
    /// Every status must have a place in the order of statuses.
    pub fn sort_changes_by_status(changes: &mut Vec<Change>)
        requires
            all_ranked(change_views(old(changes)@)),
        ensures
            stable_sorted(
                change_views(old(changes)@),
                priority_keys(change_views(old(changes)@)),
                change_views(final(changes)@),
            ),
    {
        let keys = priorities_of(changes);
        sort_changes_by_keys(changes, keys);
    }

    /// Sorts the first list of changes, by the priority of their statuses
    /// and then by path, and records the paths in that order, each path
    /// where it first occurs. What was recorded before is forgotten. Every
    /// status must have a place in the order of statuses.
    pub fn sort_changes_and_save_ordering(&mut self, changes: &mut Vec<Change>)
        requires
            all_ranked(change_views(old(changes)@)),
        ensures
            stable_sorted(
                change_views(old(changes)@),
                priority_keys(change_views(old(changes)@)),
                change_views(final(changes)@),
            ),
            final(self)@ == record_paths(
                Seq::<Seq<u8>>::empty(),
                paths_of(change_views(final(changes)@)),
            ),
    {
        ChangeOrdering::sort_changes_by_status(changes);
        let mut paths: Vec<Vec<u8>> = Vec::with_capacity(changes.len());
        proof {
            assert(path_views(paths@) =~= Seq::<Seq<u8>>::empty());
            lemma_record_paths(path_views(paths@), paths_of(change_views(changes@)));
        }
        record_changes(&mut paths, changes);
        std::mem::swap(&mut self.paths, &mut paths);
    }

    /// Sorts a later list of changes by the recorded positions of their
    /// paths. Paths that are not recorded follow all recorded ones, sorted
    /// by path among themselves, and are recorded in that order. Returns
    /// how many paths were recorded by this call.
    pub fn sort_changes(&mut self, changes: &mut Vec<Change>) -> (new_paths: usize)
        ensures
            stable_sorted(
                change_views(old(changes)@),
                position_keys(old(self)@, change_views(old(changes)@)),
                change_views(final(changes)@),
            ),
            final(self)@ == record_paths(old(self)@, paths_of(change_views(final(changes)@))),
            new_paths == final(self)@.len() - old(self)@.len(),
    {
        let keys = positions_of(&self.paths, changes);
        sort_changes_by_keys(changes, keys);
        self.record(changes)
    }

    /// Compares two paths byte by byte.
    pub fn compare_paths(path_1: &[u8], path_2: &[u8]) -> (ordering: Ordering)
        ensures
            match ordering {
                Ordering::Less => path_lt(path_1@, path_2@),
                Ordering::Equal => path_1@ == path_2@,
                Ordering::Greater => path_lt(path_2@, path_1@),
            },
    {
        let k = first_difference(path_1, path_2);
        proof {
            lemma_first_difference_decides(path_1@, path_2@, index_of(k));
        }
        if k == path_1.len() {
            if k == path_2.len() {
                Ordering::Equal
            } else {
                Ordering::Less
            }
        } else if k == path_2.len() {
            Ordering::Greater
        } else if path_1[k] < path_2[k] {
            Ordering::Less
        } else {
            Ordering::Greater
        }
    }
}

} // verus!
