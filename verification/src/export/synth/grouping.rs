//! Grouping the places of a list by a key, in the order in which the keys first
//! appear.

use vstd::prelude::*;

verus! {

/// The places below `n` at which a test holds, ascending.
pub open spec fn places(n: int, test: spec_fn(int) -> bool) -> Seq<usize>
    decreases n,
{
    if n <= 0 {
        Seq::empty()
    } else if test(n - 1) {
        places(n - 1, test).push((n - 1) as usize)
    } else {
        places(n - 1, test)
    }
}

/// Places ascend, pass the test, and no place that passes is missing.
pub proof fn places_are_exact(n: int, test: spec_fn(int) -> bool)
    requires
        0 <= n <= usize::MAX,
    ensures
        places(n, test).len() <= n,
        forall|i: int|
            0 <= i < places(n, test).len() ==> 0 <= #[trigger] places(n, test)[i] < n && test(
                places(n, test)[i] as int,
            ),
        forall|i: int, j: int|
            0 <= i < j < places(n, test).len() ==> #[trigger] places(n, test)[i]
                < #[trigger] places(n, test)[j],
        forall|x: int| 0 <= x < n && #[trigger] test(x) ==> places(n, test).contains(x as usize),
    decreases n,
{
    if n > 0 {
        places_are_exact(n - 1, test);
        let before = places(n - 1, test);
        let all = places(n, test);
        assert forall|x: int| 0 <= x < n && #[trigger] test(x) implies all.contains(
            x as usize,
        ) by {
            if x < n - 1 {
                let i = choose|i: int| 0 <= i < before.len() && before[i] == x as usize;
                assert(all[i] == x as usize);
            } else {
                assert(all[all.len() - 1] == x as usize);
            }
        }
    }
}

/// The test for the places whose key is `k`.
pub open spec fn has_key<K>(keys: Seq<K>, k: K) -> spec_fn(int) -> bool {
    |j: int| keys[j] == k
}

/// The test for the places whose key appears there first.
pub open spec fn appears_first<K>(keys: Seq<K>) -> spec_fn(int) -> bool {
    |j: int| forall|i: int| 0 <= i < j ==> #[trigger] keys[i] != keys[j]
}

/// The places at which a key appears first.
pub open spec fn first_places<K>(keys: Seq<K>) -> Seq<usize> {
    places(keys.len() as int, appears_first(keys))
}

/// The places of a key.
pub open spec fn members<K>(keys: Seq<K>, k: K) -> Seq<usize> {
    places(keys.len() as int, has_key(keys, k))
}

/// The places of each key, in the order in which the keys first appear.
pub open spec fn group_places<K>(keys: Seq<K>) -> Seq<Seq<usize>> {
    Seq::new(
        first_places(keys).len(),
        |g: int| members(keys, keys[first_places(keys)[g] as int]),
    )
}

/// Whether a place lies in some group.
pub open spec fn is_grouped<K>(keys: Seq<K>, x: int) -> bool {
    exists|g: int|
        0 <= g < group_places(keys).len() && (#[trigger] group_places(keys)[g]).contains(x as usize)
}

/// Groups partition the list: none is empty, each holds places of one key, and
/// each place lies in one group and nowhere else.
pub proof fn groups_partition<K>(keys: Seq<K>)
    requires
        keys.len() <= usize::MAX,
    ensures
        group_places(keys).len() <= keys.len(),
        forall|g: int| 0 <= g < group_places(keys).len() ==> (#[trigger] group_places(keys)[g]).len() > 0,
        forall|g: int, i: int|
            0 <= g < group_places(keys).len() && 0 <= i < group_places(keys)[g].len() ==> {
                let x = #[trigger] group_places(keys)[g][i];
                x < keys.len() && keys[x as int] == keys[group_places(keys)[g][0] as int]
            },
        forall|g: int, i: int, j: int|
            0 <= g < group_places(keys).len() && 0 <= i < j < group_places(keys)[g].len()
                ==> #[trigger] group_places(keys)[g][i] < #[trigger] group_places(keys)[g][j],
        forall|g: int, h: int|
            0 <= g < h < group_places(keys).len()
                ==> keys[(#[trigger] group_places(keys)[g])[0] as int]
                != keys[(#[trigger] group_places(keys)[h])[0] as int],
        forall|x: int| 0 <= x < keys.len() ==> #[trigger] is_grouped(keys, x),
{
    let f = first_places(keys);
    let n = keys.len() as int;
    places_are_exact(n, appears_first(keys));
    assert forall|g: int| 0 <= g < f.len() implies group_places(keys)[g].len() > 0 && keys[(
    #[trigger] group_places(keys)[g])[0] as int] == keys[f[g] as int] by {
        let k = keys[f[g] as int];
        places_are_exact(n, has_key(keys, k));
        assert(has_key(keys, k)(f[g] as int));
        assert(members(keys, k).contains(f[g]));
        assert(has_key(keys, k)(members(keys, k)[0] as int));
    }
    assert forall|g: int, i: int|
        0 <= g < group_places(keys).len() && 0 <= i < group_places(keys)[g].len() implies {
        let x = #[trigger] group_places(keys)[g][i];
        x < keys.len() && keys[x as int] == keys[group_places(keys)[g][0] as int]
    } by {
        let k = keys[f[g] as int];
        places_are_exact(n, has_key(keys, k));
        assert(has_key(keys, k)(members(keys, k)[i] as int));
    }
    assert forall|g: int, i: int, j: int|
        0 <= g < group_places(keys).len() && 0 <= i < j < group_places(keys)[g].len() implies
        #[trigger] group_places(keys)[g][i] < #[trigger] group_places(keys)[g][j] by {
        places_are_exact(n, has_key(keys, keys[f[g] as int]));
    }
    assert forall|g: int, h: int|
        0 <= g < h < group_places(keys).len() implies keys[(#[trigger] group_places(
        keys,
    )[g])[0] as int] != keys[(#[trigger] group_places(keys)[h])[0] as int] by {
        assert(f[g] < f[h]);
        assert(appears_first(keys)(f[h] as int));
    }
    assert forall|x: int| 0 <= x < keys.len() implies #[trigger] is_grouped(keys, x) by {
        first_appearance(keys, x);
        let y = choose|y: int|
            0 <= y <= x && keys[y] == keys[x] && #[trigger] appears_first(keys)(y);
        assert(f.contains(y as usize));
        let g = choose|g: int| 0 <= g < f.len() && f[g] == y as usize;
        places_are_exact(n, has_key(keys, keys[y]));
        assert(has_key(keys, keys[y])(x));
        assert(group_places(keys)[g].contains(x as usize));
    }
}

proof fn first_appearance<K>(keys: Seq<K>, x: int)
    requires
        0 <= x < keys.len(),
    ensures
        exists|y: int| 0 <= y <= x && keys[y] == keys[x] && #[trigger] appears_first(keys)(y),
    decreases x,
{
    if appears_first(keys)(x) {
    } else {
        let i = choose|i: int| 0 <= i < x && keys[i] == keys[x];
        first_appearance(keys, i);
    }
}

/// A key by which a list is grouped.
pub trait GroupKey {
    /// What two equal keys have in common.
    type Key;

    /// The key as a plain value.
    spec fn key(&self) -> Self::Key;

    /// Whether two keys are the same.
    fn same_key(&self, other: &Self) -> (r: bool)
        ensures
            r == (self.key() == other.key()),
    ;
}

/// The keys of a list as plain values.
pub open spec fn plain_keys<T: GroupKey>(keys: Seq<T>) -> Seq<T::Key> {
    Seq::new(keys.len(), |i: int| keys[i].key())
}

proof fn members_extend<K>(keys: Seq<K>, i: int, k: K)
    requires
        0 <= i < keys.len(),
    ensures
        keys[i] == k ==> places(i + 1, has_key(keys, k)) == places(i, has_key(keys, k)).push(
            i as usize,
        ),
        keys[i] != k ==> places(i + 1, has_key(keys, k)) == places(i, has_key(keys, k)),
{
}

spec fn is_seen<K>(k: Seq<K>, firsts: Seq<usize>, x: int) -> bool {
    exists|g: int| 0 <= g < firsts.len() && k[#[trigger] firsts[g] as int] == k[x]
}

/// Groups the places of a list by their keys.
pub fn group_by_key<T: GroupKey>(keys: &[T]) -> (r: Vec<Vec<usize>>)
    ensures
        r@.len() == group_places(plain_keys(keys@)).len(),
        forall|g: int|
            0 <= g < r@.len() ==> (#[trigger] r@[g])@ == group_places(plain_keys(keys@))[g],
{
    let ghost k = plain_keys(keys@);
    let mut groups: Vec<Vec<usize>> = Vec::new();
    let mut i: usize = 0;
    let ghost mut firsts = Seq::<usize>::empty();
    while i < keys.len()
        invariant
            i <= keys@.len(),
            k == plain_keys(keys@),
            firsts == places(i as int, appears_first(k)),
            groups@.len() == firsts.len(),
            forall|g: int|
                0 <= g < groups@.len() ==> (#[trigger] groups@[g])@ == places(
                    i as int,
                    has_key(k, k[firsts[g] as int]),
                ),
            forall|g: int|
                0 <= g < groups@.len() ==> groups@[g]@.len() > 0 && (#[trigger] groups@[g])@[0] < i
                    && k[groups@[g]@[0] as int] == k[firsts[g] as int],
            forall|x: int| 0 <= x < i ==> #[trigger] is_seen(k, firsts, x),
            forall|g: int| 0 <= g < firsts.len() ==> #[trigger] firsts[g] < i,
            forall|g: int, h: int|
                0 <= g < h < firsts.len() ==> k[#[trigger] firsts[g] as int]
                    != k[#[trigger] firsts[h] as int],
        decreases keys@.len() - i,
    {
        let mut found: Option<usize> = None;
        let mut g: usize = 0;
        while g < groups.len()
            invariant
                g <= groups@.len(),
                i < keys@.len(),
                k == plain_keys(keys@),
                groups@.len() == firsts.len(),
                forall|g: int|
                    0 <= g < groups@.len() ==> groups@[g]@.len() > 0 && (#[trigger] groups@[g])@[0]
                        < i && k[groups@[g]@[0] as int] == k[firsts[g] as int],
                forall|h: int|
                    0 <= h < g ==> (found != Some(h as usize) ==> k[#[trigger] firsts[h] as int]
                        != k[i as int]),
                found matches Some(h) ==> h < g && k[firsts[h as int] as int] == k[i as int],
                forall|g: int, h: int|
                    0 <= g < h < firsts.len() ==> k[#[trigger] firsts[g] as int]
                        != k[#[trigger] firsts[h] as int],
            decreases groups@.len() - g,
        {
            let first: usize = groups[g][0];
            if keys[first].same_key(&keys[i]) {
                found = Some(g);
            }
            g += 1;
        }
        let ghost before = groups@;
        match found {
            Some(h) => {
                let mut group: Vec<usize> = groups.remove(h);
                group.push(i);
                groups.insert(h, group);
                proof {
                    assert(!appears_first(k)(i as int)) by {
                        assert(k[firsts[h as int] as int] == k[i as int]);
                    }
                    assert forall|x: int| 0 <= x < i + 1 implies #[trigger] is_seen(
                        k,
                        firsts,
                        x,
                    ) by {
                        assert(k[firsts[h as int] as int] == k[i as int]);
                    }
                    assert forall|g: int| 0 <= g < groups@.len() implies (#[trigger] groups@[g])@
                        == places(i + 1, has_key(k, k[firsts[g] as int])) && groups@[g]@.len() > 0
                        && groups@[g]@[0] == before[g]@[0] by {
                        members_extend(k, i as int, k[firsts[g] as int]);
                        if g != h {
                            assert(groups@[g] == before[g]);
                        }
                    }
                }
            },
            None => {
                let mut group: Vec<usize> = Vec::new();
                group.push(i);
                groups.push(group);
                proof {
                    assert(appears_first(k)(i as int)) by {
                        assert forall|x: int| 0 <= x < i implies #[trigger] k[x] != k[i as int] by {
                            assert(is_seen(k, firsts, x));
                            let g = choose|g: int|
                                0 <= g < firsts.len() && k[#[trigger] firsts[g] as int] == k[x];
                            assert(k[firsts[g] as int] != k[i as int]);
                        }
                    }
                    no_members(k, i as int, k[i as int]);
                    let old_firsts = firsts;
                    firsts = firsts.push(i);
                    assert forall|g: int| 0 <= g < groups@.len() implies (#[trigger] groups@[g])@
                        == places(i + 1, has_key(k, k[firsts[g] as int])) && groups@[g]@.len() > 0
                        && groups@[g]@[0] < i + 1 && k[groups@[g]@[0] as int]
                        == k[firsts[g] as int] by {
                        members_extend(k, i as int, k[firsts[g] as int]);
                        if g < before.len() {
                            assert(groups@[g] == before[g]);
                            assert(firsts[g] == old_firsts[g]);
                        }
                    }
                    assert forall|x: int| 0 <= x < i + 1 implies #[trigger] is_seen(
                        k,
                        firsts,
                        x,
                    ) by {
                        if x < i {
                            assert(is_seen(k, old_firsts, x));
                            let g = choose|g: int|
                                0 <= g < old_firsts.len() && k[#[trigger] old_firsts[g] as int]
                                    == k[x];
                            assert(firsts[g] == old_firsts[g]);
                        } else {
                            assert(firsts[firsts.len() - 1] == i);
                        }
                    }
                }
            },
        }
        i += 1;
    }
    groups
}

proof fn no_members<K>(keys: Seq<K>, n: int, k: K)
    requires
        0 <= n <= keys.len(),
        forall|x: int| 0 <= x < n ==> #[trigger] keys[x] != k,
    ensures
        places(n, has_key(keys, k)) == Seq::<usize>::empty(),
    decreases n,
{
    if n > 0 {
        no_members(keys, n - 1, k);
    }
}

} // verus!
