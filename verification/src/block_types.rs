//! The block catalog: immutable metadata for each registered block-type id,
//! including the texture-atlas index of each of the six face directions.
use vstd::prelude::*;

use crate::direction::Direction;
use crate::direction::dir_ordinal;

verus! {

/// How many distinct block-type ids the catalog can hold.
pub const CATALOG_CAPACITY: u32 = 1000;

/// Metadata of one block type: its display name, its numeric id, and one
/// texture-atlas index per face direction, indexed by the direction's ordinal.
/// Holding the six indices in a fixed array keeps every direction populated.
pub struct Type {
    pub name: String,
    pub id: u32,
    pub textures: [u32; 6],
}

impl Type {
    pub fn new(name: String, id: u32, textures: [u32; 6]) -> (r: Type)
        ensures
            r.name == name && r.id == id && r.textures == textures,
    {
        Type { name, id, textures }
    }

    /// The texture-atlas index this block type shows on faces with the given
    /// direction.
    pub fn get_texture(&self, direction: Direction) -> (r: u32)
        ensures
            r == self.textures@[dir_ordinal(direction)],
    {
        let id = direction.get_id();
        self.textures[id as usize]
    }
}

/// The block catalog: a lookup from block-type id to its metadata. Built once
/// by registering every block type, then consulted immutably.
pub struct Catalog {
    entries: Vec<Option<Type>>,
}

impl Catalog {
    /// The entry registered under `id`, if any.
    pub closed spec fn spec_lookup(self, id: int) -> Option<Type> {
        if 0 <= id < self.entries@.len() {
            self.entries@[id]
        } else {
            None
        }
    }

    /// Whether `id` names a registered block type.
    pub open spec fn spec_registered(self, id: int) -> bool {
        self.spec_lookup(id) is Some
    }

    pub closed spec fn well_formed(self) -> bool {
        self.entries@.len() == CATALOG_CAPACITY
    }

    /// An empty catalog with room for every id below the capacity.
    pub fn new() -> (r: Catalog)
        ensures
            r.well_formed(),
            forall|id: int| !r.spec_registered(id),
    {
        let mut entries: Vec<Option<Type>> = Vec::new();
        let mut i: u32 = 0;
        while i < CATALOG_CAPACITY
            invariant
                i <= CATALOG_CAPACITY,
                entries@.len() == i,
                forall|k: int| 0 <= k < i ==> entries@[k] is None,
            decreases CATALOG_CAPACITY - i,
        {
            entries.push(None);
            i = i + 1;
        }
        Catalog { entries }
    }

    /// Registers one block type under its own id, replacing any previous
    /// entry with that id.
    pub fn register(&mut self, block_type: Type)
        requires
            old(self).well_formed(),
            block_type.id < CATALOG_CAPACITY,
        ensures
            final(self).well_formed(),
            final(self).spec_lookup(block_type.id as int) == Some(block_type),
            forall|id: int| id != block_type.id ==> final(self).spec_lookup(id) == old(
                self,
            ).spec_lookup(id),
    {
        let id = block_type.id;
        self.entries[id as usize] = Some(block_type);
    }

    /// Whether `id` names a registered block type.
    pub fn is_registered(&self, id: u32) -> (r: bool)
        ensures
            r == self.spec_registered(id as int),
    {
        if (id as usize) < self.entries.len() {
            self.entries[id as usize].is_some()
        } else {
            false
        }
    }

    /// The metadata record of a registered block type. Looking an
    /// unregistered id up is a fatal misuse, so it is ruled out up front.
    pub fn get(&self, id: u32) -> (r: &Type)
        requires
            self.spec_registered(id as int),
        ensures
            Some(*r) == self.spec_lookup(id as int),
    {
        self.entries[id as usize].as_ref().unwrap()
    }
}

/// Every registered id resolves to a record holding exactly one texture
/// index for each of the six face directions: the six slots are total, and
/// each direction's lookup reads the slot of its own ordinal.
pub proof fn lemma_catalog_textures_total(cat: Catalog, id: u32)
    requires
        cat.spec_registered(id as int),
    ensures
        cat.spec_lookup(id as int)->Some_0.textures@.len() == 6,
        forall|d: Direction| 0 <= #[trigger] dir_ordinal(d) < 6,
        forall|d: Direction| #[trigger] crate::direction::dir_of(dir_ordinal(d)) == d,
{
}

} // verus!
