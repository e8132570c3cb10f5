//! A store keyed by descriptor set and slot: a map from set index to a map
//! from slot index.

use std::collections::HashMap;
use vstd::prelude::*;

verus! {

broadcast use vstd::std_specs::hash::group_hash_axioms;

/// What a two-level store holds, keyed by the pair of set and slot.
pub open spec fn flat<V>(m: HashMap<usize, HashMap<usize, V>>) -> Map<(usize, usize), V> {
    Map::new(
        |k: (usize, usize)| m@.contains_key(k.0) && m@[k.0]@.contains_key(k.1),
        |k: (usize, usize)| m@[k.0]@[k.1],
    )
}

/// The entry at `set` and `slot`, if there is one.
pub fn lookup<'a, V>(m: &'a HashMap<usize, HashMap<usize, V>>, set: usize, slot: usize) -> (r:
    Option<&'a V>)
    ensures
        r is Some <==> flat(*m).contains_key((set, slot)),
        r is Some ==> *r.unwrap() == flat(*m)[(set, slot)],
{
    match m.get(&set) {
        Some(inner) => inner.get(&slot),
        None => None,
    }
}

/// Takes the entry at `set` and `slot` out of the store.
pub fn take<V>(m: &mut HashMap<usize, HashMap<usize, V>>, set: usize, slot: usize) -> (r: Option<V>)
    ensures
        r is Some <==> flat(*old(m)).contains_key((set, slot)),
        r is Some ==> r.unwrap() == flat(*old(m))[(set, slot)],
        flat(*final(m)) == flat(*old(m)).remove((set, slot)),
{
    match m.remove(&set) {
        Some(inner) => {
            let mut inner = inner;
            let r = inner.remove(&slot);
            m.insert(set, inner);
            assert(flat(*m) =~= flat(*old(m)).remove((set, slot)));
            r
        },
        None => {
            assert(flat(*m) =~= flat(*old(m)).remove((set, slot)));
            None
        },
    }
}

/// Puts `value` at `set` and `slot`, in place of what was there.
pub fn put<V>(m: &mut HashMap<usize, HashMap<usize, V>>, set: usize, slot: usize, value: V)
    ensures
        flat(*final(m)) == flat(*old(m)).insert((set, slot), value),
{
    let mut inner = match m.remove(&set) {
        Some(inner) => inner,
        None => HashMap::new(),
    };
    inner.insert(slot, value);
    m.insert(set, inner);
    assert(flat(*m) =~= flat(*old(m)).insert((set, slot), value));
}

} // verus!
