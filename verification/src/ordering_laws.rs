//! What holds of the order of the list however the changes come and go.

use crate::change::{paths_of, ChangeView};
use crate::change_ordering::{lemma_record_paths, position_keys, priority_keys, record_paths};
use crate::paths::{
    lemma_path_le_total_order, lemma_path_lt_asymmetric, lemma_path_lt_irreflexive,
    lemma_position_in, lemma_position_in_is, lemma_position_in_of_extension, path_le, path_lt,
    position_in,
};
use crate::sorting::{
    entry_before, in_order, is_stable_sort_by, lemma_entry_order, lemma_sorted_stays,
    placed_before, stable_sorted,
};
use vstd::prelude::*;

verus! {

/// The keys that a function of the change gives to the changes of a list.
pub open spec fn keys_by(changes: Seq<ChangeView>, key: spec_fn(ChangeView) -> int) -> Seq<int> {
    Seq::new(changes.len(), |i: int| key(changes[i]))
}

/// A sorted list is in order by the keys of its own changes, and each of
/// its changes is one of those that were sorted.
pub proof fn lemma_stable_sorted_in_order(
    input: Seq<ChangeView>,
    key: spec_fn(ChangeView) -> int,
    output: Seq<ChangeView>,
)
    requires
        stable_sorted(input, keys_by(input, key), output),
    ensures
        output.len() == input.len(),
        in_order(output, keys_by(output, key)),
        forall|k: int| 0 <= k < output.len() ==> input.contains(#[trigger] output[k]),
        forall|i: int| 0 <= i < input.len() ==> output.contains(#[trigger] input[i]),
        paths_of(input).no_duplicates() ==> paths_of(output).no_duplicates(),
{
    let keys = keys_by(input, key);
    let perm = choose|perm: Seq<int>| is_stable_sort_by(input, keys, perm, output);
    let sorted_keys = keys_by(output, key);
    assert forall|i: int, j: int| 0 <= i < j < output.len() implies !entry_before(
        #[trigger] sorted_keys[j],
        output[j].path,
        #[trigger] sorted_keys[i],
        output[i].path,
    ) by {
        assert(placed_before(input, keys, perm[i], perm[j]));
        assert(output[i] == input[perm[i]]);
        assert(output[j] == input[perm[j]]);
        lemma_entry_order(
            sorted_keys[i],
            output[i].path,
            sorted_keys[j],
            output[j].path,
            sorted_keys[i],
            output[i].path,
        );
    }
    assert forall|k: int| 0 <= k < output.len() implies input.contains(#[trigger] output[k]) by {
        assert(input[perm[k]] == output[k]);
    }
    assert forall|i: int| 0 <= i < input.len() implies output.contains(#[trigger] input[i]) by {
        assert(perm.contains(i));
        let k = choose|k: int| 0 <= k < perm.len() && perm[k] == i;
        assert(output[k] == input[perm[k]]);
    }
    if paths_of(input).no_duplicates() {
        assert forall|i: int, j: int|
            0 <= i < output.len() && 0 <= j < output.len() && i != j implies paths_of(output)[i]
            != paths_of(output)[j] by {
            assert(output[i] == input[perm[i]]);
            assert(output[j] == input[perm[j]]);
            assert(perm[i] != perm[j]);
            assert(paths_of(input)[perm[i]] != paths_of(input)[perm[j]]);
        }
    }
}

/// The keys by which the first list is sorted are a function of the change.
pub open spec fn priority_key() -> spec_fn(ChangeView) -> int {
    |change: ChangeView| crate::status_priorities::status_priority(change.status).unwrap()
}

/// The keys by which a later list is sorted are a function of the change.
pub open spec fn position_key(known: Seq<Seq<u8>>) -> spec_fn(ChangeView) -> int {
    |change: ChangeView| position_in(known, change.path)
}

/// Paths of which none is held, and none occurs twice, are recorded as they
/// stand.
pub proof fn lemma_record_distinct_paths(known: Seq<Seq<u8>>, paths: Seq<Seq<u8>>)
    requires
        (known + paths).no_duplicates(),
    ensures
        record_paths(known, paths) == known + paths,
    decreases paths.len(),
{
    if paths.len() == 0 {
        assert(known + paths =~= known);
    } else {
        let first = paths[0];
        let rest = paths.drop_first();
        assert((known + paths)[known.len() as int] == first);
        if known.contains(first) {
            let i = choose|i: int| 0 <= i < known.len() && known[i] == first;
            assert((known + paths)[i] == first);
            assert(false);
        }
        assert(known.push(first) + rest =~= known + paths);
        lemma_record_distinct_paths(known.push(first), rest);
    }
}

/// The first list, once sorted and recorded, stays as it is when it is
/// sorted again, and no path is recorded anew, provided that no path occurs
/// twice in it.
///
/// `seeded` and `recorded` are the list and the record after the first
/// sort; `resorted` and `recorded_again` are what a later sort makes of
/// them.
pub proof fn lemma_resort_after_seed_changes_nothing(
    input: Seq<ChangeView>,
    seeded: Seq<ChangeView>,
    recorded: Seq<Seq<u8>>,
    resorted: Seq<ChangeView>,
    recorded_again: Seq<Seq<u8>>,
)
    requires
        paths_of(input).no_duplicates(),
        stable_sorted(input, priority_keys(input), seeded),
        recorded == record_paths(Seq::<Seq<u8>>::empty(), paths_of(seeded)),
        stable_sorted(seeded, position_keys(recorded, seeded), resorted),
        recorded_again == record_paths(recorded, paths_of(resorted)),
    ensures
        resorted == seeded,
        recorded_again == recorded,
        recorded_again.len() - recorded.len() == 0,
{
    assert(priority_keys(input) =~= keys_by(input, priority_key()));
    lemma_stable_sorted_in_order(input, priority_key(), seeded);
    let paths = paths_of(seeded);
    assert(Seq::<Seq<u8>>::empty() + paths =~= paths);
    lemma_record_distinct_paths(Seq::<Seq<u8>>::empty(), paths);
    assert(recorded == paths);
    let keys = position_keys(recorded, seeded);
    assert forall|i: int| 0 <= i < seeded.len() implies #[trigger] keys[i] == i by {
        assert(recorded[i] == seeded[i].path);
        assert forall|j: int| 0 <= j < i implies recorded[j] != seeded[i].path by {
            assert(paths[j] != paths[i]);
        }
        lemma_position_in_is(recorded, seeded[i].path, i);
    }
    assert(in_order(seeded, keys));
    lemma_sorted_stays(seeded, keys, resorted);
    assert forall|i: int| 0 <= i < paths.len() implies recorded.contains(#[trigger] paths[i]) by {
        assert(recorded[i] == paths[i]);
    }
    lemma_record_paths(recorded, paths);
}

/// Whether the paths beyond the first `from` of `recorded` stand in the
/// order of their bytes.
pub open spec fn increasing_from(recorded: Seq<Seq<u8>>, from: int) -> bool {
    forall|i: int, j: int|
        from <= i < j < recorded.len() ==> path_lt(#[trigger] recorded[i], #[trigger] recorded[j])
}

/// Paths that come in the order of their bytes, as far as they are not
/// held, are recorded in that order.
proof fn lemma_record_in_order(
    known: Seq<Seq<u8>>,
    added: Seq<Seq<u8>>,
    paths: Seq<Seq<u8>>,
)
    requires
        increasing_from(known + added, known.len() as int),
        forall|i: int| 0 <= i < added.len() ==> !known.contains(#[trigger] added[i]),
        forall|i: int, j: int|
            0 <= i < j < paths.len() && !known.contains(paths[i]) && !known.contains(paths[j])
                ==> path_le(#[trigger] paths[i], #[trigger] paths[j]),
        forall|i: int, j: int|
            0 <= i < added.len() && 0 <= j < paths.len() && !known.contains(paths[j]) ==> path_le(
                #[trigger] added[i],
                #[trigger] paths[j],
            ),
    ensures
        increasing_from(record_paths(known + added, paths), known.len() as int),
    decreases paths.len(),
{
    let held = known + added;
    if paths.len() == 0 {
    } else {
        let first = paths[0];
        let rest = paths.drop_first();
        assert forall|i: int, j: int|
            0 <= i < j < rest.len() && !known.contains(rest[i]) && !known.contains(
                rest[j],
            ) implies path_le(#[trigger] rest[i], #[trigger] rest[j]) by {
            assert(rest[i] == paths[i + 1]);
            assert(rest[j] == paths[j + 1]);
        }
        if held.contains(first) {
            assert forall|i: int, j: int|
                0 <= i < added.len() && 0 <= j < rest.len() && !known.contains(
                    rest[j],
                ) implies path_le(#[trigger] added[i], #[trigger] rest[j]) by {
                assert(rest[j] == paths[j + 1]);
            }
            lemma_record_in_order(known, added, rest);
        } else {
            let more = added.push(first);
            assert(known + more =~= held.push(first));
            assert(!known.contains(first)) by {
                if known.contains(first) {
                    let i = choose|i: int| 0 <= i < known.len() && known[i] == first;
                    assert(held[i] == first);
                }
            }
            assert forall|i: int, j: int|
                known.len() <= i < j < (known + more).len() implies path_lt(
                #[trigger] (known + more)[i],
                #[trigger] (known + more)[j],
            ) by {
                if j < held.len() {
                    assert((known + more)[i] == held[i]);
                    assert((known + more)[j] == held[j]);
                } else {
                    let at = i - known.len();
                    assert((known + more)[i] == added[at]);
                    assert(path_le(added[at], paths[0]));
                    assert(held[i] == added[at]);
                }
            }
            assert forall|i: int, j: int|
                0 <= i < more.len() && 0 <= j < rest.len() && !known.contains(
                    rest[j],
                ) implies path_le(#[trigger] more[i], #[trigger] rest[j]) by {
                assert(rest[j] == paths[j + 1]);
                if i == added.len() {
                    assert(path_le(paths[0], paths[j + 1]));
                }
            }
            lemma_record_in_order(known, more, rest);
        }
    }
}

/// What a later sort does with paths that are recorded and paths that are
/// not.
///
/// In the sorted list every change with a recorded path comes before every
/// change whose path is not recorded; the first are in the order of their
/// positions, the second in the order of their bytes. In the record the
/// paths that were recorded keep their positions; the new paths follow
/// them, in the order of their bytes.
pub proof fn lemma_new_paths_follow_known(
    known: Seq<Seq<u8>>,
    input: Seq<ChangeView>,
    output: Seq<ChangeView>,
    recorded: Seq<Seq<u8>>,
)
    requires
        stable_sorted(input, position_keys(known, input), output),
        recorded == record_paths(known, paths_of(output)),
    ensures
        forall|k: int, l: int|
            0 <= k < l < output.len() && known.contains(#[trigger] output[l].path)
                ==> known.contains(#[trigger] output[k].path) && position_in(
                known,
                output[k].path,
            ) <= position_in(known, output[l].path),
        forall|k: int, l: int|
            0 <= k < l < output.len() && !known.contains(#[trigger] output[k].path)
                ==> !known.contains(#[trigger] output[l].path) && path_le(
                output[k].path,
                output[l].path,
            ),
        known.len() <= recorded.len(),
        recorded.subrange(0, known.len() as int) == known,
        forall|path: Seq<u8>|
            known.contains(path) ==> position_in(recorded, path) == position_in(known, path),
        forall|k: int|
            0 <= k < output.len() ==> recorded.contains(#[trigger] output[k].path),
        forall|k: int|
            0 <= k < output.len() && !known.contains(#[trigger] output[k].path) ==> known.len()
                <= position_in(recorded, output[k].path) < recorded.len(),
        increasing_from(recorded, known.len() as int),
{
    assert(position_keys(known, input) =~= keys_by(input, position_key(known)));
    lemma_stable_sorted_in_order(input, position_key(known), output);
    let keys = keys_by(output, position_key(known));
    let paths = paths_of(output);
    assert forall|k: int, l: int| 0 <= k < l < output.len() implies (known.contains(
        #[trigger] output[l].path,
    ) ==> known.contains(#[trigger] output[k].path) && position_in(known, output[k].path)
        <= position_in(known, output[l].path)) && (!known.contains(output[k].path)
        ==> !known.contains(output[l].path) && path_le(output[k].path, output[l].path)) by {
        lemma_position_in(known, output[k].path);
        lemma_position_in(known, output[l].path);
        assert(!entry_before(keys[l], output[l].path, keys[k], output[k].path));
        lemma_path_le_total_order(output[k].path, output[l].path, output[k].path);
    }
    lemma_record_paths(known, paths);
    assert forall|path: Seq<u8>| known.contains(path) implies position_in(recorded, path)
        == position_in(known, path) by {
        let more = recorded.subrange(known.len() as int, recorded.len() as int);
        assert(recorded =~= known + more) by {
            assert forall|i: int| 0 <= i < known.len() implies recorded[i] == known[i] by {
                assert(recorded.subrange(0, known.len() as int)[i] == recorded[i]);
            }
        }
        lemma_position_in_of_extension(known, more, path);
    }
    assert forall|k: int| 0 <= k < output.len() implies recorded.contains(
        #[trigger] output[k].path,
    ) by {
        assert(paths[k] == output[k].path);
    }
    assert forall|k: int|
        0 <= k < output.len() && !known.contains(#[trigger] output[k].path) implies known.len()
        <= position_in(recorded, output[k].path) < recorded.len() by {
        assert(paths[k] == output[k].path);
        lemma_position_in(recorded, output[k].path);
        let at = position_in(recorded, output[k].path);
        if at < known.len() {
            assert(recorded.subrange(0, known.len() as int)[at] == recorded[at]);
            assert(known[at] == output[k].path);
        }
    }
    let none = Seq::<Seq<u8>>::empty();
    assert(known + none =~= known);
    assert forall|i: int, j: int|
        0 <= i < j < paths.len() && !known.contains(paths[i]) && !known.contains(
            paths[j],
        ) implies path_le(#[trigger] paths[i], #[trigger] paths[j]) by {
        assert(paths[i] == output[i].path);
        assert(paths[j] == output[j].path);
    }
    lemma_record_in_order(known, none, paths);
}

/// A list that was sorted stays as it is when it is sorted again, and no
/// path is recorded anew.
///
/// `sorted` and `recorded` are the list and the record after one sort of
/// `input` with the paths `known`; `resorted` and `recorded_again` are what
/// the next sort makes of them.
pub proof fn lemma_resort_twice_changes_nothing(
    known: Seq<Seq<u8>>,
    input: Seq<ChangeView>,
    sorted: Seq<ChangeView>,
    recorded: Seq<Seq<u8>>,
    resorted: Seq<ChangeView>,
    recorded_again: Seq<Seq<u8>>,
)
    requires
        stable_sorted(input, position_keys(known, input), sorted),
        recorded == record_paths(known, paths_of(sorted)),
        stable_sorted(sorted, position_keys(recorded, sorted), resorted),
        recorded_again == record_paths(recorded, paths_of(resorted)),
    ensures
        resorted == sorted,
        recorded_again == recorded,
        recorded_again.len() - recorded.len() == 0,
{
    lemma_new_paths_follow_known(known, input, sorted, recorded);
    let keys = position_keys(recorded, sorted);
    assert forall|i: int, j: int| 0 <= i < j < sorted.len() implies !entry_before(
        #[trigger] keys[j],
        sorted[j].path,
        #[trigger] keys[i],
        sorted[i].path,
    ) by {
        let p = sorted[i].path;
        let q = sorted[j].path;
        lemma_position_in(recorded, p);
        lemma_position_in(recorded, q);
        lemma_position_in(known, p);
        lemma_position_in(known, q);
        lemma_path_lt_irreflexive(p);
        lemma_path_lt_asymmetric(p, q);
        if !known.contains(p) && !known.contains(q) {
            let a = position_in(recorded, p);
            let b = position_in(recorded, q);
            if b < a {
                assert(path_lt(recorded[b], recorded[a]));
            }
        }
    }
    assert(in_order(sorted, keys));
    lemma_sorted_stays(sorted, keys, resorted);
    let paths = paths_of(sorted);
    assert forall|i: int| 0 <= i < paths.len() implies recorded.contains(#[trigger] paths[i]) by {
        assert(paths[i] == sorted[i].path);
    }
    lemma_record_paths(recorded, paths);
}

} // verus!
