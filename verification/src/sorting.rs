//! Stable sorting of changes by an integer key and then by path.

use crate::change::{change_views, Change, ChangeView};
use crate::paths::{
    lemma_path_lt_asymmetric, lemma_path_lt_irreflexive, lemma_path_lt_transitive,
    lemma_path_trichotomy, path_less, path_lt,
};
use vstd::prelude::*;

verus! {

/// An entry with key `key_a` and path `path_a` comes strictly before one
/// with `key_b` and `path_b`: the smaller key first, and among equal keys
/// the smaller path.
pub open spec fn entry_before(key_a: int, path_a: Seq<u8>, key_b: int, path_b: Seq<u8>) -> bool {
    key_a < key_b || (key_a == key_b && path_lt(path_a, path_b))
}

/// Of `input`, keyed by `keys`, the entry at `i` is put before the entry at
/// `j`: it comes strictly before it, or the two are equal in key and path
/// and `i` is the earlier place.
pub open spec fn placed_before(input: Seq<ChangeView>, keys: Seq<int>, i: int, j: int) -> bool {
    ||| entry_before(keys[i], input[i].path, keys[j], input[j].path)
    ||| (keys[i] == keys[j] && input[i].path == input[j].path && i < j)
}

/// `perm` lists each of `0..n` once.
pub open spec fn is_rearrangement(perm: Seq<int>, n: int) -> bool {
    &&& perm.len() == n
    &&& forall|k: int| 0 <= k < n ==> 0 <= #[trigger] perm[k] < n
    &&& forall|k: int, l: int| 0 <= k < l < n ==> perm[k] != perm[l]
    &&& forall|i: int| 0 <= i < n ==> perm.contains(i)
}

/// `output` holds the entries of `input` in the places that `perm` gives,
/// sorted by key and then by path, entries that are equal in both in the
/// order in which `input` held them.
pub open spec fn is_stable_sort_by(
    input: Seq<ChangeView>,
    keys: Seq<int>,
    perm: Seq<int>,
    output: Seq<ChangeView>,
) -> bool {
    &&& keys.len() == input.len()
    &&& output.len() == input.len()
    &&& is_rearrangement(perm, input.len() as int)
    &&& forall|k: int| 0 <= k < output.len() ==> #[trigger] output[k] == input[perm[k]]
    &&& forall|k: int, l: int|
        0 <= k < l < perm.len() ==> placed_before(input, keys, #[trigger] perm[k], #[trigger] perm[l])
}

/// `output` is `input` sorted by key and then by path, in a stable way.
pub open spec fn stable_sorted(input: Seq<ChangeView>, keys: Seq<int>, output: Seq<ChangeView>) -> bool {
    exists|perm: Seq<int>| is_stable_sort_by(input, keys, perm, output)
}

/// `changes`, keyed by `keys`, are in order: no entry comes strictly before
/// an earlier one.
pub open spec fn in_order(changes: Seq<ChangeView>, keys: Seq<int>) -> bool {
    &&& keys.len() == changes.len()
    &&& forall|i: int, j: int|
        0 <= i < j < changes.len() ==> !entry_before(
            #[trigger] keys[j],
            changes[j].path,
            #[trigger] keys[i],
            changes[i].path,
        )
}

/// The order of entries is a strict total order on pairs of key and path.
pub proof fn lemma_entry_order(
    key_a: int,
    path_a: Seq<u8>,
    key_b: int,
    path_b: Seq<u8>,
    key_c: int,
    path_c: Seq<u8>,
)
    ensures
        !entry_before(key_a, path_a, key_a, path_a),
        !(entry_before(key_a, path_a, key_b, path_b) && entry_before(key_b, path_b, key_a, path_a)),
        entry_before(key_a, path_a, key_b, path_b) || entry_before(key_b, path_b, key_a, path_a)
            || (key_a == key_b && path_a == path_b),
        entry_before(key_a, path_a, key_b, path_b) && entry_before(key_b, path_b, key_c, path_c)
            ==> entry_before(key_a, path_a, key_c, path_c),
        !entry_before(key_b, path_b, key_a, path_a) && !entry_before(key_c, path_c, key_b, path_b)
            ==> !entry_before(key_c, path_c, key_a, path_a),
{
    lemma_path_lt_irreflexive(path_a);
    lemma_path_lt_asymmetric(path_a, path_b);
    lemma_path_trichotomy(path_a, path_b);
    lemma_path_trichotomy(path_b, path_c);
    lemma_path_trichotomy(path_a, path_c);
    lemma_path_lt_asymmetric(path_b, path_c);
    lemma_path_lt_asymmetric(path_a, path_c);
    if path_lt(path_a, path_b) && path_lt(path_b, path_c) {
        lemma_path_lt_transitive(path_a, path_b, path_c);
    }
    if path_lt(path_c, path_b) && path_lt(path_b, path_a) {
        lemma_path_lt_transitive(path_c, path_b, path_a);
    }
}

/// A strictly increasing list of `n` numbers below `n` that starts at or
/// above 0 lists `0..n` in order.
proof fn lemma_increasing_is_identity(perm: Seq<int>, k: int)
    requires
        is_rearrangement(perm, perm.len() as int),
        forall|i: int, j: int| 0 <= i < j < perm.len() ==> perm[i] < perm[j],
        0 <= k < perm.len(),
    ensures
        perm[k] == k,
{
    lemma_increasing_lower(perm, k);
    lemma_increasing_upper(perm, k);
}

proof fn lemma_increasing_lower(perm: Seq<int>, k: int)
    requires
        is_rearrangement(perm, perm.len() as int),
        forall|i: int, j: int| 0 <= i < j < perm.len() ==> perm[i] < perm[j],
        0 <= k < perm.len(),
    ensures
        perm[k] >= k,
    decreases k,
{
    if k > 0 {
        lemma_increasing_lower(perm, k - 1);
    }
}

proof fn lemma_increasing_upper(perm: Seq<int>, k: int)
    requires
        is_rearrangement(perm, perm.len() as int),
        forall|i: int, j: int| 0 <= i < j < perm.len() ==> perm[i] < perm[j],
        0 <= k < perm.len(),
    ensures
        perm[k] <= k,
    decreases perm.len() - k,
{
    if k < perm.len() - 1 {
        lemma_increasing_upper(perm, k + 1);
    }
}

/// Changes that are in order stay as they are when they are sorted.
pub proof fn lemma_sorted_stays(input: Seq<ChangeView>, keys: Seq<int>, output: Seq<ChangeView>)
    requires
        in_order(input, keys),
        stable_sorted(input, keys, output),
    ensures
        output == input,
{
    let perm = choose|perm: Seq<int>| is_stable_sort_by(input, keys, perm, output);
    assert forall|i: int, j: int| 0 <= i < j < perm.len() implies perm[i] < perm[j] by {
        let a = perm[i];
        let b = perm[j];
        assert(placed_before(input, keys, a, b));
        if b < a {
            assert(!entry_before(keys[a], input[a].path, keys[b], input[b].path));
        }
    }
    assert forall|k: int| 0 <= k < output.len() implies output[k] == input[k] by {
        lemma_increasing_is_identity(perm, k);
    }
    assert(output =~= input);
}

/// Two sorted lists of the same changes with the same keys agree up to
/// `k`.
proof fn lemma_stable_sort_agrees(
    input: Seq<ChangeView>,
    keys: Seq<int>,
    first: Seq<int>,
    second: Seq<int>,
    first_output: Seq<ChangeView>,
    second_output: Seq<ChangeView>,
    k: int,
)
    requires
        is_stable_sort_by(input, keys, first, first_output),
        is_stable_sort_by(input, keys, second, second_output),
        0 <= k <= input.len(),
    ensures
        forall|i: int| 0 <= i < k ==> first[i] == second[i],
    decreases k,
{
    if k > 0 {
        lemma_stable_sort_agrees(input, keys, first, second, first_output, second_output, k - 1);
        let at = k - 1;
        let a = first[at];
        let b = second[at];
        if a != b {
            // Each of the two occurs in the other list, and not before `at`.
            assert(second.contains(a));
            let l = choose|l: int| 0 <= l < second.len() && second[l] == a;
            assert(first.contains(b));
            let m = choose|m: int| 0 <= m < first.len() && first[m] == b;
            if l < at {
                assert(first[l] == second[l]);
            }
            if m < at {
                assert(second[m] == first[m]);
            }
            assert(placed_before(input, keys, second[at], second[l]));
            assert(placed_before(input, keys, first[at], first[m]));
            lemma_entry_order(
                keys[a],
                input[a].path,
                keys[b],
                input[b].path,
                keys[a],
                input[a].path,
            );
        }
    }
}

/// Sorting pins its result down: two sorted lists of the same changes with
/// the same keys are the same list.
pub proof fn lemma_stable_sort_is_unique(
    input: Seq<ChangeView>,
    keys: Seq<int>,
    first_output: Seq<ChangeView>,
    second_output: Seq<ChangeView>,
)
    requires
        stable_sorted(input, keys, first_output),
        stable_sorted(input, keys, second_output),
    ensures
        first_output == second_output,
{
    let first = choose|perm: Seq<int>| is_stable_sort_by(input, keys, perm, first_output);
    let second = choose|perm: Seq<int>| is_stable_sort_by(input, keys, perm, second_output);
    lemma_stable_sort_agrees(
        input,
        keys,
        first,
        second,
        first_output,
        second_output,
        input.len() as int,
    );
    assert forall|i: int| 0 <= i < first_output.len() implies first_output[i]
        == second_output[i] by {
        assert(first[i] == second[i]);
    }
    assert(first_output =~= second_output);
}

/// The keys of a list as contracts see them.
pub open spec fn key_values(keys: Seq<usize>) -> Seq<int> {
    Seq::new(keys.len(), |i: int| keys[i] as int)
}

/// Whether an entry comes strictly before another.
fn entry_less(key_a: usize, path_a: &[u8], key_b: usize, path_b: &[u8]) -> (less: bool)
    ensures
        less == entry_before(key_a as int, path_a@, key_b as int, path_b@),
{
    key_a < key_b || (key_a == key_b && path_less(path_a, path_b))
}

/// What the sort has built so far: `sorted` and `sorted_keys` hold the
/// entries of `input` from `start` on, in the places that `perm` gives, in
/// order.
spec fn is_sorted_tail(
    input: Seq<ChangeView>,
    keys: Seq<int>,
    start: int,
    perm: Seq<int>,
    sorted: Seq<Change>,
    sorted_keys: Seq<usize>,
) -> bool {
    &&& 0 <= start <= input.len()
    &&& keys.len() == input.len()
    &&& perm.len() == input.len() - start
    &&& sorted.len() == perm.len()
    &&& sorted_keys.len() == perm.len()
    &&& forall|k: int| 0 <= k < perm.len() ==> start <= #[trigger] perm[k] < input.len()
    &&& forall|k: int, l: int| 0 <= k < l < perm.len() ==> perm[k] != perm[l]
    &&& forall|i: int| start <= i < input.len() ==> perm.contains(i)
    &&& forall|k: int|
        0 <= k < perm.len() ==> (#[trigger] sorted[k])@ == input[perm[k]] && sorted_keys[k]
            == keys[perm[k]]
    &&& forall|k: int, l: int|
        0 <= k < l < perm.len() ==> placed_before(input, keys, #[trigger] perm[k], #[trigger] perm[l])
}

/// Putting the entry before `start` into a sorted tail, at the first place
/// whose entry does not come strictly before it, gives a sorted tail.
proof fn lemma_insert_keeps_sorted(
    input: Seq<ChangeView>,
    keys: Seq<int>,
    start: int,
    perm: Seq<int>,
    sorted: Seq<Change>,
    sorted_keys: Seq<usize>,
    place: int,
    change: Change,
    key: usize,
)
    requires
        is_sorted_tail(input, keys, start, perm, sorted, sorted_keys),
        start > 0,
        change@ == input[start - 1],
        key == keys[start - 1],
        0 <= place <= perm.len(),
        forall|q: int|
            0 <= q < place ==> entry_before(
                #[trigger] sorted_keys[q] as int,
                sorted[q]@.path,
                key as int,
                change@.path,
            ),
        place < perm.len() ==> !entry_before(
            sorted_keys[place] as int,
            sorted[place]@.path,
            key as int,
            change@.path,
        ),
    ensures
        is_sorted_tail(
            input,
            keys,
            start - 1,
            perm.insert(place, start - 1),
            sorted.insert(place, change),
            sorted_keys.insert(place, key),
        ),
{
    let new_perm = perm.insert(place, start - 1);
    let new_sorted = sorted.insert(place, change);
    let new_keys = sorted_keys.insert(place, key);
    let from = |k: int| if k < place { k } else { k - 1 };
    assert forall|k: int| 0 <= k < new_perm.len() && k != place implies new_perm[k] == perm[from(
        k,
    )] && new_sorted[k] == sorted[from(k)] && new_keys[k] == sorted_keys[from(k)] by {}
    assert forall|k: int, l: int| 0 <= k < l < new_perm.len() implies placed_before(
        input,
        keys,
        #[trigger] new_perm[k],
        #[trigger] new_perm[l],
    ) by {
        if k == place {
            let q = l - 1;
            assert(new_perm[l] == perm[q]);
            assert(sorted[q]@ == input[perm[q]]);
            if q > place {
                assert(placed_before(input, keys, perm[place], perm[q]));
                assert(sorted[place]@ == input[perm[place]]);
            }
            lemma_entry_order(
                key as int,
                change@.path,
                sorted_keys[place] as int,
                sorted[place]@.path,
                sorted_keys[q] as int,
                sorted[q]@.path,
            );
            lemma_entry_order(
                key as int,
                change@.path,
                sorted_keys[q] as int,
                sorted[q]@.path,
                key as int,
                change@.path,
            );
        } else if l == place {
            assert(new_perm[k] == perm[k]);
            assert(sorted[k]@ == input[perm[k]]);
            assert(entry_before(sorted_keys[k] as int, sorted[k]@.path, key as int, change@.path));
        } else {
            assert(placed_before(input, keys, perm[from(k)], perm[from(l)]));
        }
    }
    assert forall|k: int, l: int| 0 <= k < l < new_perm.len() implies new_perm[k] != new_perm[l] by {
        if k != place && l != place {
            assert(perm[from(k)] != perm[from(l)]);
        }
    }
    assert forall|i: int| start - 1 <= i < input.len() implies new_perm.contains(i) by {
        if i == start - 1 {
            assert(new_perm[place] == i);
        } else {
            assert(perm.contains(i));
            let k = choose|k: int| 0 <= k < perm.len() && perm[k] == i;
            let to = if k < place {
                k
            } else {
                k + 1
            };
            assert(new_perm[to] == perm[from(to)]);
        }
    }
}

/// Sorts `changes` by the keys given for them and then by path. Changes that
/// are equal in key and path keep the order they came in.
pub(crate) fn sort_changes_by_keys(changes: &mut Vec<Change>, keys: Vec<usize>)
    requires
        keys.len() == old(changes).len(),
    ensures
        stable_sorted(
            change_views(old(changes)@),
            key_values(keys@),
            change_views(final(changes)@),
        ),
{
    let ghost input = change_views(changes@);
    let ghost all_keys = key_values(keys@);
    let ghost mut perm: Seq<int> = Seq::empty();
    let mut keys = keys;
    let mut sorted: Vec<Change> = Vec::with_capacity(changes.len());
    let mut sorted_keys: Vec<usize> = Vec::with_capacity(changes.len());
    while changes.len() > 0
        invariant
            changes.len() == keys.len(),
            changes.len() <= input.len(),
            forall|i: int| 0 <= i < changes.len() ==> (#[trigger] changes@[i])@ == input[i],
            forall|i: int| 0 <= i < keys.len() ==> (#[trigger] keys@[i]) as int == all_keys[i],
            is_sorted_tail(input, all_keys, changes.len() as int, perm, sorted@, sorted_keys@),
        decreases changes.len(),
    {
        let ghost start = changes.len() as int;
        let change = changes.pop().unwrap();
        let key = keys.pop().unwrap();
        let mut place: usize = 0;
        while place < sorted.len() && entry_less(
            sorted_keys[place],
            sorted[place].path.as_slice(),
            key,
            change.path.as_slice(),
        )
            invariant
                sorted.len() == sorted_keys.len(),
                place <= sorted.len(),
                forall|q: int|
                    0 <= q < place ==> entry_before(
                        #[trigger] sorted_keys@[q] as int,
                        sorted@[q]@.path,
                        key as int,
                        change@.path,
                    ),
            decreases sorted.len() - place,
        {
            place = place + 1;
        }
        proof {
            lemma_insert_keeps_sorted(
                input,
                all_keys,
                start,
                perm,
                sorted@,
                sorted_keys@,
                place as int,
                change,
                key,
            );
            perm = perm.insert(place as int, start - 1);
        }
        sorted.insert(place, change);
        sorted_keys.insert(place, key);
    }
    *changes = sorted;
    proof {
        assert(is_stable_sort_by(input, all_keys, perm, change_views(changes@)));
    }
}

} // verus!
