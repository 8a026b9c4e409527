//! The sparse index map: from small indices to keys, without a hash table.
//!
//! The map stands on `vec_map::VecMap`, which stores its entries in a vector
//! as long as its largest index. The map therefore refuses indices above
//! [`MAX_INDEX`]. It never overwrites: an index that is taken stays as it is,
//! and the caller learns what it holds.

use vstd::prelude::*;
use vec_map::VecMap;

verus! {

/// The largest index that a sparse index map accepts.
pub const MAX_INDEX: usize = 0xFFFF;

/// `vec_map::VecMap`, as a type whose inside the library does not read.
#[verifier::external_type_specification]
#[verifier::external_body]
#[verifier::reject_recursive_types(V)]
pub struct ExVecMap<V>(VecMap<V>);

/// The entries of a `VecMap`: the value under each index that has one.
pub uninterp spec fn vec_map_entries(m: VecMap<usize>) -> Map<usize, usize>;

/// `VecMap::new`: a map without entries.
#[verifier::external_body]
fn vec_map_new() -> (m: VecMap<usize>)
    ensures
        vec_map_entries(m) == (Map::<usize, usize>::empty()),
{
    VecMap::new()
}

/// `VecMap::get`: the value under `key`, if the map has one there.
#[verifier::external_body]
fn vec_map_get(m: &VecMap<usize>, key: usize) -> (value: Option<usize>)
    ensures
        value == (if vec_map_entries(*m).dom().contains(key) {
            Some(vec_map_entries(*m)[key])
        } else {
            None::<usize>
        }),
{
    m.get(key).copied()
}

/// `VecMap::insert`: puts `value` under `key` and returns what was there.
/// No other entry changes. The map grows its vector to `key + 1` places, so
/// the key is bounded here, far below the size at which a vector panics.
#[verifier::external_body]
fn vec_map_insert(m: &mut VecMap<usize>, key: usize, value: usize) -> (was: Option<usize>)
    requires
        key <= MAX_INDEX,
    ensures
        vec_map_entries(*final(m)) == vec_map_entries(*old(m)).insert(key, value),
        was == (if vec_map_entries(*old(m)).dom().contains(key) {
            Some(vec_map_entries(*old(m))[key])
        } else {
            None::<usize>
        }),
{
    m.insert(key, value)
}

/// `VecMap::iter`: the entries of the map, in ascending order of their
/// indices. Each entry of the map is in the list, and nothing else.
#[verifier::external_body]
fn vec_map_list(m: &VecMap<usize>) -> (list: Vec<(usize, usize)>)
    ensures
        forall|i: int|
            0 <= i < list@.len() ==> vec_map_entries(*m).dom().contains(#[trigger] list@[i].0)
                && vec_map_entries(*m)[list@[i].0] == list@[i].1,
        forall|index: usize| #[trigger]
            vec_map_entries(*m).dom().contains(index) ==> exists|i: int|
                0 <= i < list@.len() && list@[i].0 == index,
        forall|i: int, j: int| 0 <= i < j < list@.len() ==> list@[i].0 < list@[j].0,
{
    m.iter().map(|(index, key)| (index, *key)).collect()
}

/// Why a sparse index map refused an entry.
#[derive(Clone, Copy, PartialEq, Eq, Structural, Debug)]
pub enum Refused {
    /// The index is taken, by this value.
    Occupied { value: usize },
    /// The index is above [`MAX_INDEX`].
    OutOfRange,
}

/// A map from small indices to keys.
#[derive(PartialEq, Eq, Debug)]
pub struct SparseIndexMap {
    entries: VecMap<usize>,
}

impl View for SparseIndexMap {
    type V = Map<usize, usize>;

    closed spec fn view(&self) -> Map<usize, usize> {
        vec_map_entries(self.entries)
    }
}

impl SparseIndexMap {
    /// A map without entries.
    pub fn new() -> (m: SparseIndexMap)
        ensures
            m@ == (Map::<usize, usize>::empty()),
    {
        SparseIndexMap { entries: vec_map_new() }
    }

    /// The key under `index`, if the map has one there.
    pub fn get(&self, index: usize) -> (key: Option<usize>)
        ensures
            key == (if self@.dom().contains(index) {
                Some(self@[index])
            } else {
                None::<usize>
            }),
    {
        vec_map_get(&self.entries, index)
    }

    /// Whether the map has a key under `index`.
    pub fn contains_key(&self, index: usize) -> (found: bool)
        ensures
            found == self@.dom().contains(index),
    {
        vec_map_get(&self.entries, index).is_some()
    }

    /// The entries of the map, each an index with its key, in ascending order
    /// of the indices.
    pub fn entries(&self) -> (list: Vec<(usize, usize)>)
        ensures
            forall|i: int|
                0 <= i < list@.len() ==> self@.dom().contains(#[trigger] list@[i].0)
                    && self@[list@[i].0] == list@[i].1,
            forall|index: usize| #[trigger]
                self@.dom().contains(index) ==> exists|i: int|
                    0 <= i < list@.len() && list@[i].0 == index,
            forall|i: int, j: int| 0 <= i < j < list@.len() ==> list@[i].0 < list@[j].0,
    {
        vec_map_list(&self.entries)
    }

    /// Puts `key` under `index`, if the index is free and in range. A map
    /// that refuses the entry stays as it is.
    pub fn insert(&mut self, index: usize, key: usize) -> (r: Result<(), Refused>)
        ensures
            match r {
                Ok(()) => {
                    &&& index <= MAX_INDEX
                    &&& !old(self)@.dom().contains(index)
                    &&& final(self)@ == old(self)@.insert(index, key)
                },
                Err(Refused::OutOfRange) => index > MAX_INDEX && final(self)@ == old(self)@,
                Err(Refused::Occupied { value }) => {
                    &&& index <= MAX_INDEX
                    &&& old(self)@.dom().contains(index)
                    &&& value == old(self)@[index]
                    &&& final(self)@ == old(self)@
                },
            },
    {
        if index > MAX_INDEX {
            return Err(Refused::OutOfRange);
        }
        match vec_map_get(&self.entries, index) {
            Some(value) => Err(Refused::Occupied { value }),
            None => {
                let _ = vec_map_insert(&mut self.entries, index, key);
                Ok(())
            },
        }
    }
}

} // verus!
