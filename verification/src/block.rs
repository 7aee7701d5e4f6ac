//! A single placed block, identified by its block-type id.
use vstd::prelude::*;

use crate::block_types::Type;

verus! {

/// One block instance: just the id of its block type. The id `0` is the
/// reserved empty sentinel and never renders.
#[derive(Clone, Copy, Debug, PartialEq, Eq, Structural)]
pub struct Block {
    id: u32,
}

impl Block {
    /// The block-type id of this block.
    pub closed spec fn spec_id(self) -> u32 {
        self.id
    }

    /// A block of the given type.
    pub fn new(block_type: &Type) -> (r: Block)
        ensures
            r.spec_id() == block_type.id,
    {
        Block { id: block_type.id }
    }

    /// The block-type id of this block.
    pub fn get_id(&self) -> (r: u32)
        ensures
            r == self.spec_id(),
    {
        self.id
    }
}

} // verus!
