//! Hash tables of the `hashbrown` crate, as the library uses them.
//!
//! Each table's contents are named by a spec function over the table, and every
//! operation the library performs on a table is a trusted wrapper whose contract
//! states, over those contents, what `hashbrown::HashMap` does.
use crate::world::grid::Chunks;
use crate::world::Sector;
use vstd::prelude::*;

verus! {

/// A `hashbrown::HashMap` with its default hasher, held opaque in a struct of this
/// crate: the map type itself cannot be declared here, as its `Allocator` bound
/// names a trait of another crate.
#[verifier::external_body]
#[verifier::reject_recursive_types(K)]
#[verifier::reject_recursive_types(V)]
pub struct BrownMap<K, V> {
    inner: hashbrown::HashMap<K, V>,
}

/// What a table of sectors, indexed by sector coordinates, holds.
pub uninterp spec fn sector_table(table: &BrownMap<[u64; 3], Sector>) -> Map<[u64; 3], Sector>;

/// What a table of chunks, indexed by chunk coordinates, holds.
pub uninterp spec fn chunk_table(table: &BrownMap<[u32; 3], Chunks>) -> Map<[u32; 3], Chunks>;

/// What a table of star coordinates, indexed by their rounded text form, holds.
pub uninterp spec fn coordinate_table(table: &BrownMap<String, [u64; 3]>) -> Map<Seq<char>, [u64; 3]>;

impl BrownMap<[u64; 3], Sector> {
    /// `hashbrown::HashMap::with_capacity`: an empty table; the capacity only
    /// pre-allocates room.
    #[verifier::external_body]
    pub(crate) fn new_sector_table(capacity: usize) -> (table: Self)
        ensures
            sector_table(&table).dom().is_empty(),
    {
        BrownMap { inner: hashbrown::HashMap::with_capacity(capacity) }
    }

    /// `hashbrown::HashMap::contains_key`: whether a sector is stored at `key`.
    #[verifier::external_body]
    pub(crate) fn contains_sector(&self, key: &[u64; 3]) -> (present: bool)
        ensures
            present == sector_table(self).dom().contains(*key),
    {
        self.inner.contains_key(key)
    }

    /// `hashbrown::HashMap::insert`: stores `sector` at `key`, and hands back the
    /// sector that was stored there before, if any.
    #[verifier::external_body]
    pub(crate) fn insert_sector(&mut self, key: [u64; 3], sector: Sector) -> (previous: Option<Sector>)
        ensures
            sector_table(final(self)) == sector_table(old(self)).insert(key, sector),
            previous == (if sector_table(old(self)).dom().contains(key) {
                Some(sector_table(old(self))[key])
            } else {
                None
            }),
    {
        self.inner.insert(key, sector)
    }

    /// `hashbrown::HashMap::get_mut`: the sector stored at `key`, to be changed in
    /// place; the table afterwards holds whatever the borrow left there.
    #[verifier::external_body]
    pub(crate) fn sector_mut(&mut self, key: &[u64; 3]) -> (found: Option<&mut Sector>)
        ensures
            match found {
                Some(sector) => {
                    &&& sector_table(old(self)).dom().contains(*key)
                    &&& *sector == sector_table(old(self))[*key]
                    &&& sector_table(final(self)) == sector_table(old(self)).insert(*key, *final(sector))
                },
                None => {
                    &&& !sector_table(old(self)).dom().contains(*key)
                    &&& sector_table(final(self)) == sector_table(old(self))
                },
            },
    {
        self.inner.get_mut(key)
    }
}

impl BrownMap<[u32; 3], Chunks> {
    /// `hashbrown::HashMap::new`: an empty table.
    #[verifier::external_body]
    pub(crate) fn new_chunk_table() -> (table: Self)
        ensures
            chunk_table(&table).dom().is_empty(),
    {
        BrownMap { inner: hashbrown::HashMap::new() }
    }

    /// `hashbrown::HashMap::contains_key`: whether a chunk is stored at `key`.
    #[verifier::external_body]
    pub(crate) fn contains_chunk(&self, key: &[u32; 3]) -> (present: bool)
        ensures
            present == chunk_table(self).dom().contains(*key),
    {
        self.inner.contains_key(key)
    }

    /// `hashbrown::HashMap::insert`: stores `chunk` at `key`, and hands back the
    /// chunk that was stored there before, if any.
    #[verifier::external_body]
    pub(crate) fn insert_chunk(&mut self, key: [u32; 3], chunk: Chunks) -> (previous: Option<Chunks>)
        ensures
            chunk_table(final(self)) == chunk_table(old(self)).insert(key, chunk),
            previous == (if chunk_table(old(self)).dom().contains(key) {
                Some(chunk_table(old(self))[key])
            } else {
                None
            }),
    {
        self.inner.insert(key, chunk)
    }
}

impl BrownMap<String, [u64; 3]> {
    /// `hashbrown::HashMap::new`: an empty table.
    #[verifier::external_body]
    pub(crate) fn new_coordinate_table() -> (table: Self)
        ensures
            coordinate_table(&table).dom().is_empty(),
    {
        BrownMap { inner: hashbrown::HashMap::new() }
    }

    /// `hashbrown::HashMap::contains_key`: whether coordinates are stored under
    /// `key`; keys are compared by their characters.
    #[verifier::external_body]
    pub(crate) fn contains_coordinates(&self, key: &String) -> (present: bool)
        ensures
            present == coordinate_table(self).dom().contains(key@),
    {
        self.inner.contains_key(key)
    }

    /// `hashbrown::HashMap::insert`: stores `position` under `key`, and hands back
    /// the coordinates that were stored there before, if any.
    #[verifier::external_body]
    pub(crate) fn insert_coordinates(&mut self, key: String, position: [u64; 3]) -> (previous: Option<[u64; 3]>)
        ensures
            coordinate_table(final(self)) == coordinate_table(old(self)).insert(key@, position),
            previous == (if coordinate_table(old(self)).dom().contains(key@) {
                Some(coordinate_table(old(self))[key@])
            } else {
                None
            }),
    {
        self.inner.insert(key, position)
    }
}

} // verus!
