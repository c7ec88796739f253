//! Stable ordering of sequences by an integer key, as a stable insertion sort places them.
use vstd::prelude::*;
use vstd::multiset::Multiset;

verus! {

broadcast use vstd::seq_lib::group_seq_properties;

/// Where `x` goes in `s`, searching from `k`: before the first element whose key exceeds
/// the key of `x`, so after every element with an equal key.
pub open spec fn sort_pos_from<T>(s: Seq<T>, x: T, key: spec_fn(T) -> int, k: int) -> int
    decreases s.len() - k,
{
    if k < 0 || k >= s.len() {
        s.len() as int
    } else if key(s[k]) > key(x) {
        k
    } else {
        sort_pos_from(s, x, key, k + 1)
    }
}

/// `s` with `x` inserted after every element whose key is at most the key of `x`.
pub open spec fn insert_by_key<T>(s: Seq<T>, x: T, key: spec_fn(T) -> int) -> Seq<T> {
    s.insert(sort_pos_from(s, x, key, 0), x)
}

/// `s` ordered by ascending key; elements with equal keys keep their order in `s`.
pub open spec fn sort_by_key<T>(s: Seq<T>, key: spec_fn(T) -> int) -> Seq<T>
    decreases s.len(),
{
    if s.len() == 0 {
        s
    } else {
        insert_by_key(sort_by_key(s.drop_last(), key), s.last(), key)
    }
}

/// Keys never decrease along `s`.
pub open spec fn sorted_by_key<T>(s: Seq<T>, key: spec_fn(T) -> int) -> bool {
    forall|i: int, j: int| 0 <= i < j < s.len() ==> key(s[i]) <= key(s[j])
}

/// The last `n` elements of `s` (all of `s` when it is shorter).
pub open spec fn keep_last<T>(s: Seq<T>, n: nat) -> Seq<T> {
    if s.len() > n {
        s.skip(s.len() - n)
    } else {
        s
    }
}

proof fn lemma_sort_pos_from<T>(s: Seq<T>, x: T, key: spec_fn(T) -> int, k: int)
    requires
        0 <= k <= s.len(),
    ensures
        k <= sort_pos_from(s, x, key, k) <= s.len(),
        forall|i: int| k <= i < sort_pos_from(s, x, key, k) ==> key(#[trigger] s[i]) <= key(x),
        sort_pos_from(s, x, key, k) < s.len() ==> key(s[sort_pos_from(s, x, key, k)]) > key(x),
    decreases s.len() - k,
{
    if k < s.len() && key(s[k]) <= key(x) {
        lemma_sort_pos_from(s, x, key, k + 1);
    }
}

proof fn lemma_insert_sorted<T>(s: Seq<T>, x: T, key: spec_fn(T) -> int)
    requires
        sorted_by_key(s, key),
    ensures
        sorted_by_key(insert_by_key(s, x, key), key),
        insert_by_key(s, x, key).to_multiset() == s.to_multiset().insert(x),
        insert_by_key(s, x, key).len() == s.len() + 1,
{
    let p = sort_pos_from(s, x, key, 0);
    lemma_sort_pos_from(s, x, key, 0);
    let r = s.insert(p, x);
    assert forall|i: int, j: int| 0 <= i < j < r.len() implies key(r[i]) <= key(r[j]) by {
        if j < p {
            assert(r[i] == s[i] && r[j] == s[j]);
        } else if j == p {
            assert(r[i] == s[i]);
        } else if i < p {
            assert(r[i] == s[i] && r[j] == s[j - 1]);
            assert(key(s[p]) > key(x));
        } else if i == p {
            assert(r[j] == s[j - 1]);
            assert(key(s[p]) > key(x));
            assert(key(s[p]) <= key(s[j - 1]));
        } else {
            assert(r[i] == s[i - 1] && r[j] == s[j - 1]);
        }
    }
    s.insert_ensures(p, x);
    vstd::seq_lib::lemma_multiset_commutative(s.take(p), s.skip(p));
    vstd::seq_lib::lemma_multiset_commutative(s.take(p).push(x), s.skip(p));
    assert(s == s.take(p) + s.skip(p));
    assert(r == s.take(p).push(x) + s.skip(p));
}

/// The stable sort orders its result by key and holds the same elements as its input.
pub proof fn lemma_sort_by_key<T>(s: Seq<T>, key: spec_fn(T) -> int)
    ensures
        sorted_by_key(sort_by_key(s, key), key),
        sort_by_key(s, key).to_multiset() == s.to_multiset(),
        sort_by_key(s, key).len() == s.len(),
    decreases s.len(),
{
    if s.len() > 0 {
        lemma_sort_by_key(s.drop_last(), key);
        lemma_insert_sorted(sort_by_key(s.drop_last(), key), s.last(), key);
        assert(s == s.drop_last().push(s.last()));
        s.drop_last().to_multiset_ensures();
    } else {
        assert(s.to_multiset() =~= Multiset::empty());
    }
}


proof fn lemma_sort_pos_after_all<T>(s: Seq<T>, x: T, key: spec_fn(T) -> int, k: int)
    requires
        0 <= k <= s.len(),
        forall|i: int| 0 <= i < s.len() ==> key(#[trigger] s[i]) <= key(x),
    ensures
        sort_pos_from(s, x, key, k) == s.len(),
    decreases s.len() - k,
{
    if k < s.len() {
        assert(key(s[k]) <= key(x));
        lemma_sort_pos_after_all(s, x, key, k + 1);
    }
}

/// Sorting a sequence whose keys already never decrease leaves it as it is.
pub proof fn lemma_sort_sorted_unchanged<T>(s: Seq<T>, key: spec_fn(T) -> int)
    requires
        sorted_by_key(s, key),
    ensures
        sort_by_key(s, key) == s,
    decreases s.len(),
{
    if s.len() > 0 {
        let d = s.drop_last();
        assert(sorted_by_key(d, key));
        lemma_sort_sorted_unchanged(d, key);
        assert forall|i: int| 0 <= i < d.len() implies key(#[trigger] d[i]) <= key(s.last()) by {
            assert(d[i] == s[i]);
        }
        lemma_sort_pos_after_all(d, s.last(), key, 0);
        assert(d.insert(d.len() as int, s.last()) =~= s);
    }
}

/// Where `x` goes in `s` by the order `le`, searching from `k`: before the first element that
/// is not at most `x`, so after every element that is.
pub open spec fn sort_pos_by<T>(s: Seq<T>, x: T, le: spec_fn(T, T) -> bool, k: int) -> int
    decreases s.len() - k,
{
    if k < 0 || k >= s.len() {
        s.len() as int
    } else if !le(s[k], x) {
        k
    } else {
        sort_pos_by(s, x, le, k + 1)
    }
}

/// `s` with `x` inserted after every element at most `x` by `le` that comes before the first
/// element that is not.
pub open spec fn insert_by<T>(s: Seq<T>, x: T, le: spec_fn(T, T) -> bool) -> Seq<T> {
    s.insert(sort_pos_by(s, x, le, 0), x)
}

/// `s` ordered by `le` as a stable insertion sort orders it: elements that are at most each
/// other keep their order in `s`.
pub open spec fn stable_sort_by<T>(s: Seq<T>, le: spec_fn(T, T) -> bool) -> Seq<T>
    decreases s.len(),
{
    if s.len() == 0 {
        s
    } else {
        insert_by(stable_sort_by(s.drop_last(), le), s.last(), le)
    }
}


/// `le` is a total preorder: any two elements compare, and it is transitive.
pub open spec fn total_preorder<T>(le: spec_fn(T, T) -> bool) -> bool {
    &&& forall|a: T, b: T| #[trigger] le(a, b) || le(b, a)
    &&& forall|a: T, b: T, c: T| #[trigger] le(a, b) && #[trigger] le(b, c) ==> le(a, c)
}

/// Every element of `s` is at most every later one by `le`.
pub open spec fn sorted_by<T>(s: Seq<T>, le: spec_fn(T, T) -> bool) -> bool {
    forall|i: int, j: int| 0 <= i < j < s.len() ==> le(#[trigger] s[i], #[trigger] s[j])
}

proof fn lemma_sort_pos_by<T>(s: Seq<T>, x: T, le: spec_fn(T, T) -> bool, k: int)
    requires
        0 <= k <= s.len(),
    ensures
        k <= sort_pos_by(s, x, le, k) <= s.len(),
        forall|i: int| k <= i < sort_pos_by(s, x, le, k) ==> le(#[trigger] s[i], x),
        sort_pos_by(s, x, le, k) < s.len() ==> !le(s[sort_pos_by(s, x, le, k)], x),
    decreases s.len() - k,
{
    if k < s.len() && le(s[k], x) {
        lemma_sort_pos_by(s, x, le, k + 1);
    }
}

proof fn lemma_insert_by_sorted<T>(s: Seq<T>, x: T, le: spec_fn(T, T) -> bool)
    requires
        total_preorder(le),
        sorted_by(s, le),
    ensures
        sorted_by(insert_by(s, x, le), le),
        insert_by(s, x, le).to_multiset() == s.to_multiset().insert(x),
        insert_by(s, x, le).len() == s.len() + 1,
{
    let p = sort_pos_by(s, x, le, 0);
    lemma_sort_pos_by(s, x, le, 0);
    let r = s.insert(p, x);
    assert forall|i: int, j: int| 0 <= i < j < r.len() implies le(#[trigger] r[i], #[trigger] r[j]) by {
        if j < p {
            assert(r[i] == s[i] && r[j] == s[j]);
        } else if j == p {
            assert(r[i] == s[i]);
        } else if i < p {
            assert(r[i] == s[i] && r[j] == s[j - 1]);
        } else if i == p {
            assert(r[j] == s[j - 1]);
            assert(!le(s[p], x));
            assert(le(x, s[p]));
            if p < j - 1 {
                assert(le(s[p], s[j - 1]));
            }
        } else {
            assert(r[i] == s[i - 1] && r[j] == s[j - 1]);
        }
    }
    s.insert_ensures(p, x);
    vstd::seq_lib::lemma_multiset_commutative(s.take(p), s.skip(p));
    vstd::seq_lib::lemma_multiset_commutative(s.take(p).push(x), s.skip(p));
    assert(s == s.take(p) + s.skip(p));
    assert(r == s.take(p).push(x) + s.skip(p));
}

/// Under a total preorder, the stable sort orders its result and holds the same elements as
/// its input.
pub proof fn lemma_stable_sort_by<T>(s: Seq<T>, le: spec_fn(T, T) -> bool)
    requires
        total_preorder(le),
    ensures
        sorted_by(stable_sort_by(s, le), le),
        stable_sort_by(s, le).to_multiset() == s.to_multiset(),
        stable_sort_by(s, le).len() == s.len(),
    decreases s.len(),
{
    if s.len() > 0 {
        lemma_stable_sort_by(s.drop_last(), le);
        lemma_insert_by_sorted(stable_sort_by(s.drop_last(), le), s.last(), le);
        assert(s == s.drop_last().push(s.last()));
        s.drop_last().to_multiset_ensures();
    } else {
        assert(s.to_multiset() =~= Multiset::empty());
    }
}

} // verus!
