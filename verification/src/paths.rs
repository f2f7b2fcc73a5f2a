//! Paths as byte sequences, and their lexicographic order.
//!
//! A path is compared byte by byte: the first byte in which two paths differ
//! decides, and a path comes before every path that it is a proper prefix of.

use vstd::prelude::*;

verus! {

/// The first `k` bytes of `a` and of `b` exist and are the same.
pub open spec fn common_prefix(a: Seq<u8>, b: Seq<u8>, k: int) -> bool {
    &&& 0 <= k <= a.len()
    &&& k <= b.len()
    &&& forall|i: int| 0 <= i < k ==> a[i] == b[i]
}

/// `a` and `b` agree on their first `k` bytes, and there `a` ends while `b`
/// goes on, or `a` has the smaller byte.
pub open spec fn precedes_at(a: Seq<u8>, b: Seq<u8>, k: int) -> bool {
    &&& common_prefix(a, b, k)
    &&& k < b.len()
    &&& (k == a.len() || a[k] < b[k])
}

/// `a` comes strictly before `b` in lexicographic order on bytes.
pub open spec fn path_lt(a: Seq<u8>, b: Seq<u8>) -> bool {
    exists|k: int| precedes_at(a, b, k)
}

/// `a` comes before `b` in lexicographic order on bytes, or is `b`.
pub open spec fn path_le(a: Seq<u8>, b: Seq<u8>) -> bool {
    a == b || path_lt(a, b)
}

/// No path comes before itself.
pub proof fn lemma_path_lt_irreflexive(a: Seq<u8>)
    ensures
        !path_lt(a, a),
{
}

/// Of two paths, at most one comes before the other.
pub proof fn lemma_path_lt_asymmetric(a: Seq<u8>, b: Seq<u8>)
    ensures
        !(path_lt(a, b) && path_lt(b, a)),
{
    if path_lt(a, b) && path_lt(b, a) {
        let k1 = choose|k: int| precedes_at(a, b, k);
        let k2 = choose|k: int| precedes_at(b, a, k);
        if k1 < k2 {
            assert(b[k1] == a[k1]);
        } else if k2 < k1 {
            assert(a[k2] == b[k2]);
        }
    }
}

/// The order is transitive.
pub proof fn lemma_path_lt_transitive(a: Seq<u8>, b: Seq<u8>, c: Seq<u8>)
    requires
        path_lt(a, b),
        path_lt(b, c),
    ensures
        path_lt(a, c),
{
    let k1 = choose|k: int| precedes_at(a, b, k);
    let k2 = choose|k: int| precedes_at(b, c, k);
    let k = if k1 <= k2 { k1 } else { k2 };
    assert forall|i: int| 0 <= i < k implies a[i] == c[i] by {
        assert(a[i] == b[i]);
        assert(b[i] == c[i]);
    }
    if k1 < k2 {
        assert(b[k1] == c[k1]);
    } else if k2 < k1 {
        assert(a[k2] == b[k2]);
    }
    assert(precedes_at(a, c, k));
}

/// Two paths that agree up to `k` are equal, or one comes before the other.
proof fn lemma_path_trichotomy_from(a: Seq<u8>, b: Seq<u8>, k: int)
    requires
        common_prefix(a, b, k),
    ensures
        a == b || path_lt(a, b) || path_lt(b, a),
    decreases a.len() - k,
{
    if k == a.len() {
        if k == b.len() {
            assert(a =~= b);
        } else {
            assert(precedes_at(a, b, k));
        }
    } else if k == b.len() {
        assert(common_prefix(b, a, k));
        assert(precedes_at(b, a, k));
    } else if a[k] < b[k] {
        assert(precedes_at(a, b, k));
    } else if b[k] < a[k] {
        assert(common_prefix(b, a, k));
        assert(precedes_at(b, a, k));
    } else {
        lemma_path_trichotomy_from(a, b, k + 1);
    }
}

/// Any two paths are equal, or one comes before the other: the order is total.
pub proof fn lemma_path_trichotomy(a: Seq<u8>, b: Seq<u8>)
    ensures
        a == b || path_lt(a, b) || path_lt(b, a),
{
    lemma_path_trichotomy_from(a, b, 0);
}

/// `path_le` is a total order: reflexive, antisymmetric, transitive, total.
pub proof fn lemma_path_le_total_order(a: Seq<u8>, b: Seq<u8>, c: Seq<u8>)
    ensures
        path_le(a, a),
        path_le(a, b) && path_le(b, a) ==> a == b,
        path_le(a, b) && path_le(b, c) ==> path_le(a, c),
        path_le(a, b) || path_le(b, a),
        path_le(a, b) <==> !path_lt(b, a),
{
    lemma_path_lt_asymmetric(a, b);
    lemma_path_lt_irreflexive(a);
    lemma_path_lt_irreflexive(b);
    lemma_path_trichotomy(a, b);
    if path_lt(a, b) && path_lt(b, c) {
        lemma_path_lt_transitive(a, b, c);
    }
}

/// A length or a place in a path, as a number.
pub open spec fn index_of(k: usize) -> int {
    k as int
}

/// Where two paths first differ, or one of them ends, decides their order.
pub proof fn lemma_first_difference_decides(a: Seq<u8>, b: Seq<u8>, k: int)
    requires
        common_prefix(a, b, k),
        k < a.len() && k < b.len() ==> a[k] != b[k],
    ensures
        k == a.len() && k == b.len() ==> a == b,
        k == a.len() && k < b.len() ==> path_lt(a, b),
        k < a.len() && k == b.len() ==> path_lt(b, a),
        k < a.len() && k < b.len() && a[k] < b[k] ==> path_lt(a, b),
        k < a.len() && k < b.len() && a[k] > b[k] ==> path_lt(b, a),
{
    if k == a.len() {
        if k == b.len() {
            assert(a =~= b);
        } else {
            assert(precedes_at(a, b, k));
        }
    } else if k == b.len() || a[k] > b[k] {
        assert(common_prefix(b, a, k));
        assert(precedes_at(b, a, k));
    } else {
        assert(precedes_at(a, b, k));
    }
}

/// The length of the longest prefix that `a` and `b` share.
pub fn first_difference(a: &[u8], b: &[u8]) -> (k: usize)
    ensures
        common_prefix(a@, b@, k as int),
        k < a.len() && k < b.len() ==> a@[k as int] != b@[k as int],
{
    let mut k: usize = 0;
    while k < a.len() && k < b.len() && a[k] == b[k]
        invariant
            common_prefix(a@, b@, k as int),
        decreases a.len() - k,
    {
        k = k + 1;
    }
    k
}

/// Whether `a` comes strictly before `b`.
pub fn path_less(a: &[u8], b: &[u8]) -> (less: bool)
    ensures
        less == path_lt(a@, b@),
{
    let k = first_difference(a, b);
    proof {
        lemma_path_lt_asymmetric(a@, b@);
        lemma_path_lt_irreflexive(a@);
        lemma_first_difference_decides(a@, b@, k as int);
    }
    k < b.len() && (k == a.len() || a[k] < b[k])
}

/// Whether `a` and `b` are the same path.
pub fn paths_equal(a: &[u8], b: &[u8]) -> (equal: bool)
    ensures
        equal == (a@ == b@),
{
    if a.len() != b.len() {
        return false;
    }
    let k = first_difference(a, b);
    proof {
        lemma_first_difference_decides(a@, b@, k as int);
    }
    k == a.len()
}

/// The first position at which `known` holds `path`, and, for a path that
/// `known` does not hold, the position after all that it holds.
pub open spec fn position_in(known: Seq<Seq<u8>>, path: Seq<u8>) -> int
    decreases known.len(),
{
    if known.len() == 0 {
        0
    } else if known[0] == path {
        0
    } else {
        1 + position_in(known.drop_first(), path)
    }
}

/// What `position_in` finds.
pub proof fn lemma_position_in(known: Seq<Seq<u8>>, path: Seq<u8>)
    ensures
        0 <= position_in(known, path) <= known.len(),
        position_in(known, path) < known.len() <==> known.contains(path),
        position_in(known, path) < known.len() ==> known[position_in(known, path)] == path,
        forall|i: int| 0 <= i < position_in(known, path) ==> known[i] != path,
    decreases known.len(),
{
    if known.len() == 0 {
    } else if known[0] == path {
    } else {
        let rest = known.drop_first();
        lemma_position_in(rest, path);
        let at = position_in(rest, path);
        if at < rest.len() {
            assert(known[at + 1] == rest[at]);
        }
        if known.contains(path) {
            let i = choose|i: int| 0 <= i < known.len() && known[i] == path;
            assert(rest[i - 1] == path);
        }
        assert forall|i: int| 0 <= i < 1 + at implies known[i] != path by {
            if i > 0 {
                assert(rest[i - 1] == known[i]);
            }
        }
    }
}

/// A path that is held at `i`, and nowhere before, has the position `i`.
pub proof fn lemma_position_in_is(known: Seq<Seq<u8>>, path: Seq<u8>, i: int)
    requires
        0 <= i < known.len(),
        known[i] == path,
        forall|j: int| 0 <= j < i ==> known[j] != path,
    ensures
        position_in(known, path) == i,
{
    lemma_position_in(known, path);
}

/// Adding paths at the end changes no position of a path that was held.
pub proof fn lemma_position_in_of_extension(
    known: Seq<Seq<u8>>,
    more: Seq<Seq<u8>>,
    path: Seq<u8>,
)
    requires
        known.contains(path),
    ensures
        position_in(known + more, path) == position_in(known, path),
{
    lemma_position_in(known, path);
    let at = position_in(known, path);
    assert((known + more)[at] == path);
    assert forall|j: int| 0 <= j < at implies (known + more)[j] != path by {
        assert((known + more)[j] == known[j]);
    }
    lemma_position_in_is(known + more, path, at);
}

/// Paths as contracts see them.
pub open spec fn path_views(paths: Seq<Vec<u8>>) -> Seq<Seq<u8>> {
    Seq::new(paths.len(), |i: int| paths[i]@)
}

/// The first position at which `paths` holds `path`, or their number where
/// they do not hold it.
pub fn find_position(paths: &Vec<Vec<u8>>, path: &[u8]) -> (position: usize)
    ensures
        position == position_in(path_views(paths@), path@),
        position <= paths.len(),
{
    let ghost known = path_views(paths@);
    let mut i: usize = 0;
    while i < paths.len() && !paths_equal(paths[i].as_slice(), path)
        invariant
            i <= paths.len(),
            known == path_views(paths@),
            forall|j: int| 0 <= j < i ==> known[j] != path@,
        decreases paths.len() - i,
    {
        i = i + 1;
    }
    proof {
        lemma_position_in(known, path@);
        if i < paths.len() {
            assert(known[i as int] == path@);
            lemma_position_in_is(known, path@, i as int);
        } else {
            if known.contains(path@) {
                let j = choose|j: int| 0 <= j < known.len() && known[j] == path@;
                assert(known[j] != path@);
            }
        }
    }
    i
}

} // verus!
