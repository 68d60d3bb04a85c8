//! Stable ordering by an integer key, as `sort_by_key` performs it.
use vstd::prelude::*;

verus! {

/// `s` with `x` placed after every element whose key is at most `key(x)`
/// and before the rest (`s` being ordered).
pub open spec fn insert_by<T>(s: Seq<T>, x: T, key: spec_fn(T) -> int) -> Seq<T>
    decreases s.len(),
{
    if s.len() == 0 {
        seq![x]
    } else if key(x) < key(s[0]) {
        seq![x] + s
    } else {
        seq![s[0]] + insert_by(s.drop_first(), x, key)
    }
}

/// The stable ordering of `s` by `key`: elements with smaller keys first,
/// elements with equal keys in their original order.
pub open spec fn sort_by<T>(s: Seq<T>, key: spec_fn(T) -> int) -> Seq<T>
    decreases s.len(),
{
    if s.len() == 0 {
        s
    } else {
        insert_by(sort_by(s.drop_last(), key), s.last(), key)
    }
}

/// Position of the first element of `s` whose key exceeds `key(x)`, or `s.len()`.
pub open spec fn insert_pos<T>(s: Seq<T>, x: T, key: spec_fn(T) -> int) -> int
    decreases s.len(),
{
    if s.len() == 0 {
        0
    } else if key(x) < key(s[0]) {
        0
    } else {
        1 + insert_pos(s.drop_first(), x, key)
    }
}

/// Keys never decrease along `s`.
pub open spec fn ordered_by<T>(s: Seq<T>, key: spec_fn(T) -> int) -> bool {
    forall|i: int, j: int| 0 <= i < j < s.len() ==> key(s[i]) <= key(s[j])
}

/// Inserting is splicing `x` in at `insert_pos`.
pub proof fn lemma_insert_by_splice<T>(s: Seq<T>, x: T, key: spec_fn(T) -> int)
    ensures
        0 <= insert_pos(s, x, key) <= s.len(),
        insert_by(s, x, key) == s.take(insert_pos(s, x, key)).push(x) + s.skip(
            insert_pos(s, x, key),
        ),
        forall|j: int| 0 <= j < insert_pos(s, x, key) ==> key(s[j]) <= key(x),
        insert_pos(s, x, key) < s.len() ==> key(x) < key(s[insert_pos(s, x, key)]),
    decreases s.len(),
{
    if s.len() == 0 {
        assert(insert_by(s, x, key) =~= s.take(0).push(x) + s.skip(0));
    } else if key(x) < key(s[0]) {
        assert(insert_by(s, x, key) =~= s.take(0).push(x) + s.skip(0));
    } else {
        let t = s.drop_first();
        lemma_insert_by_splice(t, x, key);
        let p = insert_pos(t, x, key);
        assert(insert_by(s, x, key) =~= s.take(p + 1).push(x) + s.skip(p + 1));
        assert forall|j: int| 0 <= j < insert_pos(s, x, key) implies key(s[j]) <= key(x) by {
            if j > 0 {
                assert(s[j] == t[j - 1]);
            }
        }
        if p < t.len() {
            assert(s[p + 1] == t[p]);
        }
    }
}

/// Inserting into an ordered sequence keeps it ordered.
pub proof fn lemma_insert_by_ordered<T>(s: Seq<T>, x: T, key: spec_fn(T) -> int)
    requires
        ordered_by(s, key),
    ensures
        ordered_by(insert_by(s, x, key), key),
        insert_by(s, x, key).len() == s.len() + 1,
        insert_by(s, x, key).to_multiset() == s.to_multiset().insert(x),
{
    lemma_insert_by_splice(s, x, key);
    let p = insert_pos(s, x, key);
    let r = insert_by(s, x, key);
    assert forall|i: int, j: int| 0 <= i < j < r.len() implies key(r[i]) <= key(r[j]) by {
        if j < p {
            assert(r[i] == s[i] && r[j] == s[j]);
        } else if j == p {
            assert(r[i] == s[i]);
        } else if i < p {
            assert(r[i] == s[i] && r[j] == s[j - 1]);
            if p < s.len() {
                assert(key(s[i]) <= key(x));
                assert(key(x) < key(s[p]));
            }
        } else if i == p {
            assert(r[j] == s[j - 1]);
        } else {
            assert(r[i] == s[i - 1] && r[j] == s[j - 1]);
        }
    }
    vstd::seq_lib::lemma_multiset_commutative(s.take(p).push(x), s.skip(p));
    vstd::seq_lib::lemma_multiset_commutative(s.take(p), s.skip(p));
    assert(s.take(p) + s.skip(p) =~= s);
    assert(s.take(p).push(x).to_multiset() == s.take(p).to_multiset().insert(x)) by {
        s.take(p).to_multiset_ensures();
    }
}

/// The stable ordering is ordered and holds exactly the elements of `s`.
pub proof fn lemma_sort_by<T>(s: Seq<T>, key: spec_fn(T) -> int)
    ensures
        ordered_by(sort_by(s, key), key),
        sort_by(s, key).len() == s.len(),
        sort_by(s, key).to_multiset() == s.to_multiset(),
    decreases s.len(),
{
    if s.len() > 0 {
        lemma_sort_by(s.drop_last(), key);
        lemma_insert_by_ordered(sort_by(s.drop_last(), key), s.last(), key);
        assert(s.drop_last().push(s.last()) =~= s);
        s.drop_last().to_multiset_ensures();
    }
}

} // verus!
