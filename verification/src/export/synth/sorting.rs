//! Sorting that keeps equal items in their order.

use vstd::prelude::*;
use vstd::seq_lib::*;

verus! {

/// A sorted list with an item put in, behind those that are not greater.
pub open spec fn insert_by<T>(s: Seq<T>, x: T, key: spec_fn(T) -> int) -> Seq<T>
    decreases s.len(),
{
    if s.len() == 0 || key(s.last()) <= key(x) {
        s.push(x)
    } else {
        insert_by(s.drop_last(), x, key).push(s.last())
    }
}

/// A list sorted by a key; equal items stay in their order.
pub open spec fn sorted_by<T>(s: Seq<T>, key: spec_fn(T) -> int) -> Seq<T>
    decreases s.len(),
{
    if s.len() == 0 {
        s
    } else {
        insert_by(sorted_by(s.drop_last(), key), s.last(), key)
    }
}

/// Whether a list ascends by a key.
pub open spec fn ascends<T>(s: Seq<T>, key: spec_fn(T) -> int) -> bool {
    forall|i: int, j: int| 0 <= i <= j < s.len() ==> key(#[trigger] s[i]) <= key(#[trigger] s[j])
}

/// The item goes where those before are not greater and those behind are.
pub proof fn insertion_point<T>(s: Seq<T>, x: T, key: spec_fn(T) -> int, at: int)
    requires
        0 <= at <= s.len(),
        at > 0 ==> key(s[at - 1]) <= key(x),
        forall|i: int| at <= i < s.len() ==> key(#[trigger] s[i]) > key(x),
    ensures
        insert_by(s, x, key) == s.insert(at, x),
    decreases s.len(),
{
    if s.len() == 0 || key(s.last()) <= key(x) {
        if at < s.len() {
            assert(key(s[s.len() - 1]) > key(x));
        }
        assert(s.insert(at, x) =~= s.push(x));
    } else {
        assert(at < s.len());
        insertion_point(s.drop_last(), x, key, at);
        assert(s.drop_last().insert(at, x).push(s.last()) =~= s.insert(at, x));
    }
}

proof fn insert_keeps<T>(s: Seq<T>, x: T, key: spec_fn(T) -> int)
    ensures
        insert_by(s, x, key).to_multiset() == s.to_multiset().insert(x),
        insert_by(s, x, key).len() == s.len() + 1,
        ascends(s, key) ==> ascends(insert_by(s, x, key), key),
        forall|i: int|
            0 <= i < insert_by(s, x, key).len() ==> key(#[trigger] insert_by(s, x, key)[i]) <= key(
                x,
            ) || s.len() > 0 && key(insert_by(s, x, key)[i]) <= key(s.last()) || !ascends(s, key),
    decreases s.len(),
{
    broadcast use group_to_multiset_ensures;

    let r = insert_by(s, x, key);
    if s.len() == 0 || key(s.last()) <= key(x) {
        if ascends(s, key) {
            assert forall|i: int, j: int| 0 <= i <= j < r.len() implies key(#[trigger] r[i]) <= key(
                #[trigger] r[j],
            ) by {
                if j == s.len() && i < s.len() {
                    assert(key(s[i]) <= key(s[s.len() - 1]));
                }
            }
        }
    } else {
        let t = s.drop_last();
        insert_keeps(t, x, key);
        assert(t.push(s.last()) =~= s);
        assert(r.to_multiset() =~= s.to_multiset().insert(x));
        if ascends(s, key) {
            assert(ascends(t, key)) by {
                assert forall|i: int, j: int| 0 <= i <= j < t.len() implies key(#[trigger] t[i])
                    <= key(#[trigger] t[j]) by {
                    assert(key(s[i]) <= key(s[j]));
                }
            }
            assert forall|i: int, j: int| 0 <= i <= j < r.len() implies key(#[trigger] r[i]) <= key(
                #[trigger] r[j],
            ) by {
                let u = insert_by(t, x, key);
                if j < u.len() {
                    assert(key(u[i]) <= key(u[j]));
                } else if i < u.len() {
                    assert(key(u[i]) <= key(x) || t.len() > 0 && key(u[i]) <= key(t.last()));
                    if t.len() > 0 {
                        assert(key(s[t.len() - 1]) <= key(s[s.len() - 1]));
                    }
                }
            }
        }
    }
}

/// Sorting keeps the items and puts them in order.
pub proof fn sorting_keeps<T>(s: Seq<T>, key: spec_fn(T) -> int)
    ensures
        sorted_by(s, key).len() == s.len(),
        sorted_by(s, key).to_multiset() == s.to_multiset(),
        ascends(sorted_by(s, key), key),
    decreases s.len(),
{
    broadcast use group_to_multiset_ensures;

    if s.len() > 0 {
        sorting_keeps(s.drop_last(), key);
        insert_keeps(sorted_by(s.drop_last(), key), s.last(), key);
        assert(s.drop_last().push(s.last()) =~= s);
    }
}

/// Two lists with the same items hold the same ones, and if one has none twice,
/// neither has the other.
pub proof fn same_items<T>(a: Seq<T>, b: Seq<T>)
    requires
        a.to_multiset() == b.to_multiset(),
    ensures
        forall|x: T| #[trigger] a.contains(x) <==> b.contains(x),
        a.no_duplicates() ==> b.no_duplicates(),
{
    broadcast use group_to_multiset_ensures;

    assert forall|x: T| #[trigger] a.contains(x) <==> b.contains(x) by {
        assert(a.contains(x) <==> a.to_multiset().count(x) > 0);
        assert(b.contains(x) <==> b.to_multiset().count(x) > 0);
    }
    if a.no_duplicates() {
        a.lemma_multiset_has_no_duplicates();
        assert forall|x: T| b.to_multiset().contains(x) implies b.to_multiset().count(x) == 1 by {
            assert(a.to_multiset().contains(x));
        }
        b.lemma_multiset_has_no_duplicates_conv();
    }
}

} // verus!
