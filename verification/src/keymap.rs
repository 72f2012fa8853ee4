//! Hash maps over pairs and triples of integers.
use std::collections::HashMap;
use vstd::prelude::*;

verus! {

broadcast use vstd::std_specs::hash::group_hash_axioms;

/// Two 64-bit integers as one 128-bit integer, in the order of the pairs.
pub open spec fn pair_key(a: i64, b: i64) -> u128 {
    ((a - i64::MIN) * 0x1_0000_0000_0000_0000 + (b - i64::MIN)) as u128
}

/// Different pairs have different keys.
pub proof fn pair_key_injective(a: i64, b: i64, c: i64, d: i64)
    ensures
        pair_key(a, b) == pair_key(c, d) ==> a == c && b == d,
{
}

/// Two 64-bit integers as one 128-bit integer.
fn pack(a: i64, b: i64) -> (key: u128)
    ensures
        key == pair_key(a, b),
{
    let high: u128 = (a as i128 + 0x8000_0000_0000_0000) as u128;
    let low: u128 = (b as i128 + 0x8000_0000_0000_0000) as u128;
    high * 0x1_0000_0000_0000_0000 + low
}

/// A hash map from pairs of integers.
pub struct PairMap<V> {
    inner: HashMap<u128, V>,
}

impl<V> View for PairMap<V> {
    type V = Map<(i64, i64), V>;

    closed spec fn view(&self) -> Map<(i64, i64), V> {
        Map::new(
            |k: (i64, i64)| self.inner@.contains_key(pair_key(k.0, k.1)),
            |k: (i64, i64)| self.inner@[pair_key(k.0, k.1)],
        )
    }
}

impl<V> PairMap<V> {
    pub fn new() -> (map: Self)
        ensures
            map@ == Map::<(i64, i64), V>::empty(),
    {
        let map = PairMap { inner: HashMap::new() };
        assert(map@ =~= Map::<(i64, i64), V>::empty());
        map
    }

    /// The value at `(a, b)`.
    pub fn get(&self, a: i64, b: i64) -> (value: Option<&V>)
        ensures
            match value {
                Some(v) => self@.contains_key((a, b)) && *v == self@[(a, b)],
                None => !self@.contains_key((a, b)),
            },
    {
        self.inner.get(&pack(a, b))
    }

    pub fn contains_key(&self, a: i64, b: i64) -> (held: bool)
        ensures
            held == self@.contains_key((a, b)),
    {
        self.inner.contains_key(&pack(a, b))
    }

    /// Sets the value at `(a, b)`.
    pub fn insert(&mut self, a: i64, b: i64, value: V)
        ensures
            final(self)@ == old(self)@.insert((a, b), value),
    {
        self.inner.insert(pack(a, b), value);
        proof {
            assert forall|k: (i64, i64)| pair_key(k.0, k.1) == pair_key(a, b) implies k == (a, b) by {
                pair_key_injective(k.0, k.1, a, b);
            }
            assert(self@ =~= old(self)@.insert((a, b), value));
        }
    }

    /// Takes out the value at `(a, b)`.
    pub fn remove(&mut self, a: i64, b: i64) -> (value: Option<V>)
        ensures
            final(self)@ == old(self)@.remove((a, b)),
            match value {
                Some(v) => old(self)@.contains_key((a, b)) && v == old(self)@[(a, b)],
                None => !old(self)@.contains_key((a, b)),
            },
    {
        let value = self.inner.remove(&pack(a, b));
        proof {
            assert forall|k: (i64, i64)| pair_key(k.0, k.1) == pair_key(a, b) implies k == (a, b) by {
                pair_key_injective(k.0, k.1, a, b);
            }
            assert(self@ =~= old(self)@.remove((a, b)));
        }
        value
    }
}

/// A hash map from triples of integers.
pub struct TripleMap<V> {
    inner: PairMap<HashMap<i64, V>>,
}

impl<V> View for TripleMap<V> {
    type V = Map<(i64, i64, i64), V>;

    closed spec fn view(&self) -> Map<(i64, i64, i64), V> {
        Map::new(
            |k: (i64, i64, i64)|
                self.inner@.contains_key((k.0, k.1)) && self.inner@[(k.0, k.1)]@.contains_key(k.2),
            |k: (i64, i64, i64)| self.inner@[(k.0, k.1)]@[k.2],
        )
    }
}

impl<V> TripleMap<V> {
    pub fn new() -> (map: Self)
        ensures
            map@ == Map::<(i64, i64, i64), V>::empty(),
    {
        let map = TripleMap { inner: PairMap::new() };
        assert(map@ =~= Map::<(i64, i64, i64), V>::empty());
        map
    }

    /// The value at `(a, b, c)`.
    pub fn get(&self, a: i64, b: i64, c: i64) -> (value: Option<&V>)
        ensures
            match value {
                Some(v) => self@.contains_key((a, b, c)) && *v == self@[(a, b, c)],
                None => !self@.contains_key((a, b, c)),
            },
    {
        match self.inner.get(a, b) {
            Some(row) => row.get(&c),
            None => None,
        }
    }

    /// Sets the value at `(a, b, c)`.
    pub fn insert(&mut self, a: i64, b: i64, c: i64, value: V)
        ensures
            final(self)@ == old(self)@.insert((a, b, c), value),
    {
        let mut row: HashMap<i64, V> = match self.inner.remove(a, b) {
            Some(row) => row,
            None => HashMap::new(),
        };
        row.insert(c, value);
        self.inner.insert(a, b, row);
        assert(self@ =~= old(self)@.insert((a, b, c), value));
    }
}

} // verus!
