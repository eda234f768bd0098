//! Nesting of a map keyed by pairs into a map of maps.

use std::collections::BTreeMap;
use vstd::laws_cmp::obeys_cmp;
use vstd::prelude::*;

verus! {

broadcast use vstd::std_specs::btree::group_btree_axioms;

/// `BTreeMap::pop_first`: removes the entry of the smallest key and returns it; `None`, with the
/// map unchanged, where the map is empty. That the key removed is the smallest one is left
/// unsaid. Stated where `K`'s ordering is lawful: the map's view is only then meaningful.
#[verifier::external_body]
fn btree_map_pop_first<K: Ord, V>(m: &mut BTreeMap<K, V>) -> (r: Option<(K, V)>)
    ensures
        obeys_cmp::<K>() ==> match r {
            Some((k, v)) => old(m)@.contains_key(k) && old(m)@[k] == v && final(m)@ == old(m)@.remove(k),
            None => old(m)@.dom().is_empty() && final(m)@ == old(m)@,
        },
{
    m.pop_first()
}

/// `nested` holds what `flat` holds, each key `(k1, k2)` split into an outer key `k1` and an
/// inner key `k2`, with no empty inner map.
pub open spec fn is_nesting<T, U, V>(flat: Map<(T, U), V>, nested: Map<T, BTreeMap<U, V>>) -> bool {
    &&& forall|k1: T, k2: U|
        #![trigger flat.contains_key((k1, k2))]
        #![trigger nested[k1]@.contains_key(k2)]
        flat.contains_key((k1, k2)) <==> (nested.contains_key(k1) && nested[k1]@.contains_key(k2))
    &&& forall|k1: T, k2: U| #[trigger] flat.contains_key((k1, k2)) ==> nested[k1]@[k2] == flat[(k1, k2)]
    &&& forall|k1: T| #[trigger] nested.contains_key(k1) ==> nested[k1]@.len() > 0
}

/// Adding `(k1, k2) -> v` to the flat map and `k2 -> v` to the inner map under `k1` keeps the
/// nesting.
proof fn lemma_nesting_insert<T, U, V>(
    flat: Map<(T, U), V>,
    nested: Map<T, BTreeMap<U, V>>,
    k1: T,
    k2: U,
    v: V,
    inner: BTreeMap<U, V>,
)
    requires
        is_nesting(flat, nested),
        inner@ == (if nested.contains_key(k1) { nested[k1]@ } else { Map::empty() }).insert(k2, v),
    ensures
        is_nesting(flat.insert((k1, k2), v), nested.insert(k1, inner)),
{
    broadcast use vstd::std_specs::btree::group_btree_axioms;

    let f2 = flat.insert((k1, k2), v);
    let n2 = nested.insert(k1, inner);
    assert forall|a: T, b: U|
        #![trigger f2.contains_key((a, b))]
        #![trigger n2[a]@.contains_key(b)]
        f2.contains_key((a, b)) <==> (n2.contains_key(a) && n2[a]@.contains_key(b)) by {
        if a == k1 && b != k2 {
            assert(flat.contains_key((a, b)) <==> (nested.contains_key(a) && nested[a]@.contains_key(b)));
        }
        if a != k1 {
            assert(flat.contains_key((a, b)) <==> (nested.contains_key(a) && nested[a]@.contains_key(b)));
        }
    }
    assert forall|a: T, b: U| #[trigger] f2.contains_key((a, b)) implies n2[a]@[b] == f2[(a, b)] by {
        if (a, b) != (k1, k2) {
            assert(flat.contains_key((a, b)));
        }
    }
    assert forall|a: T| #[trigger] n2.contains_key(a) implies n2[a]@.len() > 0 by {
        if a == k1 {
            assert(inner@.contains_key(k2));
            assert(inner@.dom().finite());
            vstd::set_lib::lemma_set_empty_equivalency_len(inner@.dom());
        }
    }
}

/// `map`, with each key `(k1, k2)` split: the result maps `k1` to a map that maps `k2` to
/// `map[(k1, k2)]`, and holds no empty inner map.
pub fn nest_btree_map<T: Ord, U: Ord, V>(map: BTreeMap<(T, U), V>) -> (r: BTreeMap<
    T,
    BTreeMap<U, V>,
>)
    requires
        obeys_cmp::<T>(),
        obeys_cmp::<U>(),
    ensures
        is_nesting(map@, r@),
{
    broadcast use vstd::laws_cmp::group_laws_cmp;

    let ghost m = map@;
    let mut rest = map;
    let ghost mut done: Map<(T, U), V> = Map::empty();
    let mut nested: BTreeMap<T, BTreeMap<U, V>> = BTreeMap::new();
    loop
        invariant
            obeys_cmp::<T>(),
            obeys_cmp::<U>(),
            obeys_cmp::<(T, U)>(),
            rest@.dom().finite(),
            forall|key: (T, U)| #[trigger] rest@.contains_key(key) ==> m.contains_key(key) && rest@[key] == m[key],
            forall|key: (T, U)| #[trigger] done.contains_key(key) ==> m.contains_key(key) && done[key] == m[key],
            forall|key: (T, U)| #[trigger] m.contains_key(key) ==> done.contains_key(key) || rest@.contains_key(key),
            is_nesting(done, nested@),
        ensures
            rest@.dom().is_empty(),
        decreases rest@.len(),
    {
        let ghost before_rest = rest@;
        let ghost before = nested@;
        match btree_map_pop_first(&mut rest) {
            Some(((k1, k2), v)) => {
                let mut inner = match nested.remove(&k1) {
                    Some(inner) => inner,
                    None => BTreeMap::new(),
                };
                inner.insert(k2, v);
                nested.insert(k1, inner);
                proof {
                    lemma_nesting_insert(done, before, k1, k2, v, inner);
                    assert(nested@ =~= before.insert(k1, inner));
                    done = done.insert((k1, k2), v);
                    assert(rest@.len() < before_rest.len());
                }
            },
            None => {
                break;
            },
        }
    }
    proof {
        assert(m =~= done) by {
            assert forall|key: (T, U)| m.contains_key(key) implies done.contains_key(key) by {
                if rest@.contains_key(key) {
                    assert(rest@.dom().contains(key));
                }
            }
        }
    }
    nested
}

} // verus!
