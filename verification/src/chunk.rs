//! A chunk: a cubic, dense grid of block-type ids anchored in world space.
//!
//! Local coordinates are valid in `[0, SIZE)` on each axis. Reads outside
//! that range return the empty sentinel `0`; world-space accessors translate
//! through the anchor and a half-extent offset, and are silent no-ops out of
//! range.
use vstd::prelude::*;

use crate::math::Pos3;

verus! {

/// The cubic edge length of every chunk, in cells.
pub const SIZE: u8 = 16;

/// How many cells a chunk holds: `SIZE` cubed.
pub const VOLUME: usize = 4096;

/// Chunk coordinates this far from the origin keep the anchor
/// (`coordinate * SIZE`) inside `i32` on each axis.
pub open spec fn chunk_coord_in_range(pos: Pos3) -> bool {
    &&& -134217728 <= pos.x <= 134217727
    &&& -134217728 <= pos.y <= 134217727
    &&& -134217728 <= pos.z <= 134217727
}

/// The position of the cell `(x, y, z)` in the flat cell array.
pub open spec fn flat_index(x: int, y: int, z: int) -> int {
    x * 256 + y * 16 + z
}

/// Whether `(x, y, z)` is a valid local coordinate.
pub open spec fn in_chunk_bounds(x: int, y: int, z: int) -> bool {
    0 <= x < 16 && 0 <= y < 16 && 0 <= z < 16
}

/// The block id the layered constructor gives a cell at height `y`: the top
/// row is surface, the band from two thirds of the height up to the top row
/// is shallow, and everything below is deep.
pub open spec fn layered_block_for_y(y: int, surface: u32, shallow: u32, deep: u32) -> u32 {
    if y == 15 {
        surface
    } else if 3 * y >= 32 {
        shallow
    } else {
        deep
    }
}

/// A cubic grid of `SIZE`³ block-type ids plus a world-space anchor. The
/// anchor is always the chunk coordinate times `SIZE`, so it is a multiple
/// of `SIZE` on each axis.
#[derive(Debug, PartialEq)]
pub struct Chunk {
    pub position: Pos3,
    pub blocks: Vec<u32>,
}

impl Chunk {
    pub open spec fn well_formed(self) -> bool {
        &&& self.blocks@.len() == 4096
        &&& self.position.x as int % 16 == 0
        &&& self.position.y as int % 16 == 0
        &&& self.position.z as int % 16 == 0
    }

    /// The block id at a local coordinate; `0` when any axis is out of
    /// range.
    pub open spec fn spec_block(self, x: int, y: int, z: int) -> u32 {
        if in_chunk_bounds(x, y, z) {
            self.blocks@[flat_index(x, y, z)]
        } else {
            0
        }
    }

    /// The local coordinate a world point translates to: anchor subtraction
    /// plus the half-extent offset.
    pub open spec fn local_of(self, p: Pos3) -> (int, int, int) {
        (
            p.x - self.position.x + 8,
            p.y - self.position.y + 8,
            p.z - self.position.z + 8,
        )
    }

    /// Whether the world point lies in this chunk's box: the axis-aligned
    /// cube of edge `SIZE` centered on the anchor.
    pub open spec fn spec_contains(self, p: Pos3) -> bool {
        in_chunk_bounds(self.local_of(p).0, self.local_of(p).1, self.local_of(p).2)
    }

    /// The block id at a world point; `0` when the point is outside the box.
    pub open spec fn spec_block_global(self, p: Pos3) -> u32 {
        self.spec_block(self.local_of(p).0, self.local_of(p).1, self.local_of(p).2)
    }

    /// Whether `post` is this chunk with the cell at `(x, y, z)` replaced by
    /// `block` and nothing else changed.
    pub open spec fn spec_set(self, post: Chunk, x: int, y: int, z: int, block: u32) -> bool {
        &&& post.position == self.position
        &&& post.blocks@ == self.blocks@.update(flat_index(x, y, z), block)
    }

    /// Whether every cell of this chunk holds the one id `block`.
    pub open spec fn spec_filled(self, block: u32) -> bool {
        forall|x: int, y: int, z: int|
            in_chunk_bounds(x, y, z) ==> self.spec_block(x, y, z) == block
    }

    /// A chunk at the given chunk coordinate with every cell empty.
    pub fn new_empty(pos: Pos3) -> (r: Chunk)
        requires
            chunk_coord_in_range(pos),
        ensures
            r.well_formed(),
            r.position.x == 16 * pos.x && r.position.y == 16 * pos.y && r.position.z == 16 * pos.z,
            forall|x: int, y: int, z: int| r.spec_block(x, y, z) == 0u32,
    {
        Chunk::new_filled(pos, 0)
    }

    /// A chunk at the given chunk coordinate with every cell set to one
    /// constant block id.
    pub fn new_filled(pos: Pos3, block: u32) -> (r: Chunk)
        requires
            chunk_coord_in_range(pos),
        ensures
            r.well_formed(),
            r.position.x == 16 * pos.x && r.position.y == 16 * pos.y && r.position.z == 16 * pos.z,
            forall|x: int, y: int, z: int|
                in_chunk_bounds(x, y, z) ==> r.spec_block(x, y, z) == block,
            r.spec_filled(block),
    {
        let mut blocks: Vec<u32> = Vec::new();
        let mut i: usize = 0;
        while i < VOLUME
            invariant
                i <= 4096,
                blocks@.len() == i,
                forall|k: int| 0 <= k < i ==> blocks@[k] == block,
            decreases 4096 - i,
        {
            blocks.push(block);
            i = i + 1;
        }
        Chunk { position: anchor_of(pos), blocks }
    }

    /// A chunk stratified by height: a surface id on the top row, a shallow
    /// id on the mid band, and a deep id below.
    pub fn new_layered(pos: Pos3, surface: u32, shallow: u32, deep: u32) -> (r: Chunk)
        requires
            chunk_coord_in_range(pos),
        ensures
            r.well_formed(),
            r.position.x == 16 * pos.x && r.position.y == 16 * pos.y && r.position.z == 16 * pos.z,
            forall|x: int, y: int, z: int|
                in_chunk_bounds(x, y, z) ==> r.spec_block(x, y, z) == layered_block_for_y(
                    y,
                    surface,
                    shallow,
                    deep,
                ),
    {
        let mut blocks: Vec<u32> = Vec::new();
        let mut x: usize = 0;
        while x < 16
            invariant
                x <= 16,
                blocks@.len() == 256 * x,
                forall|a: int, b: int, c: int|
                    in_chunk_bounds(a, b, c) && a < x ==> blocks@[flat_index(a, b, c)]
                        == layered_block_for_y(b, surface, shallow, deep),
            decreases 16 - x,
        {
            let mut y: usize = 0;
            while y < 16
                invariant
                    x < 16,
                    y <= 16,
                    blocks@.len() == 256 * x + 16 * y,
                    forall|a: int, b: int, c: int|
                        in_chunk_bounds(a, b, c) && (a < x || (a == x && b < y)) ==> blocks@[
                            flat_index(a, b, c)
                        ] == layered_block_for_y(b, surface, shallow, deep),
                decreases 16 - y,
            {
                let value: u32 = if y == 15 {
                    surface
                } else if 3 * y >= 32 {
                    shallow
                } else {
                    deep
                };
                let mut z: usize = 0;
                while z < 16
                    invariant
                        x < 16,
                        y < 16,
                        z <= 16,
                        value == layered_block_for_y(y as int, surface, shallow, deep),
                        blocks@.len() == 256 * x + 16 * y + z,
                        forall|a: int, b: int, c: int|
                            in_chunk_bounds(a, b, c) && (a < x || (a == x && b < y) || (a == x && b
                                == y && c < z)) ==> blocks@[flat_index(a, b, c)]
                                == layered_block_for_y(b, surface, shallow, deep),
                    decreases 16 - z,
                {
                    blocks.push(value);
                    z = z + 1;
                }
                y = y + 1;
            }
            x = x + 1;
        }
        Chunk { position: anchor_of(pos), blocks }
    }

    /// A chunk built from a solidity mask in flat cell order: a masked cell
    /// holds `block`, an unmasked one is empty. The mask is what a
    /// procedural generator samples per cell; equal masks give bit-identical
    /// grids.
    pub fn new_from_mask(pos: Pos3, block: u32, mask: &Vec<bool>) -> (r: Chunk)
        requires
            chunk_coord_in_range(pos),
            mask@.len() == 4096,
        ensures
            r.well_formed(),
            r.position.x == 16 * pos.x && r.position.y == 16 * pos.y && r.position.z == 16 * pos.z,
            forall|x: int, y: int, z: int|
                in_chunk_bounds(x, y, z) ==> r.spec_block(x, y, z) == (if mask@[flat_index(
                    x,
                    y,
                    z,
                )] {
                    block
                } else {
                    0u32
                }),
    {
        let mut blocks: Vec<u32> = Vec::new();
        let mut i: usize = 0;
        while i < VOLUME
            invariant
                i <= 4096,
                mask@.len() == 4096,
                blocks@.len() == i,
                forall|k: int|
                    0 <= k < i ==> blocks@[k] == (if mask@[k] {
                        block
                    } else {
                        0u32
                    }),
            decreases 4096 - i,
        {
            if mask[i] {
                blocks.push(block);
            } else {
                blocks.push(0);
            }
            i = i + 1;
        }
        let r = Chunk { position: anchor_of(pos), blocks };
        proof {
            assert forall|x: int, y: int, z: int| in_chunk_bounds(x, y, z) implies r.spec_block(
                x,
                y,
                z,
            ) == (if mask@[flat_index(x, y, z)] {
                block
            } else {
                0u32
            }) by {
                lemma_flat_index_bounds(x, y, z);
            }
        }
        r
    }

    /// The block id at a local coordinate, or `0` if any axis is outside
    /// `[0, SIZE)`; this read never fails.
    pub fn get_block(&self, x: u8, y: u8, z: u8) -> (r: u32)
        requires
            self.well_formed(),
        ensures
            r == self.spec_block(x as int, y as int, z as int),
    {
        if x >= SIZE || y >= SIZE || z >= SIZE {
            return 0;
        }
        self.blocks[(x as usize) * 256 + (y as usize) * 16 + (z as usize)]
    }

    /// The same read over signed coordinates, so neighbors of edge cells can
    /// be probed below zero.
    pub fn get_block_s(&self, x: i16, y: i16, z: i16) -> (r: u32)
        requires
            self.well_formed(),
        ensures
            r == self.spec_block(x as int, y as int, z as int),
    {
        if x < 0 || y < 0 || z < 0 || x >= SIZE as i16 || y >= SIZE as i16 || z >= SIZE as i16 {
            return 0;
        }
        self.blocks[(x as usize) * 256 + (y as usize) * 16 + (z as usize)]
    }

    /// Writes one cell. Unlike `get_block`, the coordinate must already be
    /// known valid: callers bounds-check before an edit.
    pub fn set_block(&mut self, x: u8, y: u8, z: u8, block: u32)
        requires
            old(self).well_formed(),
            in_chunk_bounds(x as int, y as int, z as int),
        ensures
            final(self).well_formed(),
            old(self).spec_set(*final(self), x as int, y as int, z as int, block),
            final(self).spec_block(x as int, y as int, z as int) == block,
            final(self).position == old(self).position,
            forall|a: int, b: int, c: int|
                !(a == x && b == y && c == z) ==> final(self).spec_block(a, b, c) == old(
                    self,
                ).spec_block(a, b, c),
    {
        let idx: usize = (x as usize) * 256 + (y as usize) * 16 + (z as usize);
        self.blocks[idx] = block;
        proof {
            assert forall|a: int, b: int, c: int| !(a == x && b == y && c == z) implies self
                .spec_block(a, b, c) == old(self).spec_block(a, b, c) by {
                if in_chunk_bounds(a, b, c) {
                    lemma_flat_index_injective(a, b, c, x as int, y as int, z as int);
                }
            }
        }
    }

    /// Reads the cell a world point translates to; `0` when the point is
    /// outside this chunk's box.
    pub fn get_block_global(&self, pos: Pos3) -> (r: u32)
        requires
            self.well_formed(),
        ensures
            r == self.spec_block_global(pos),
    {
        let x = pos.x as i64 - self.position.x as i64 + 8;
        let y = pos.y as i64 - self.position.y as i64 + 8;
        let z = pos.z as i64 - self.position.z as i64 + 8;
        if x < 0 || y < 0 || z < 0 || x >= 16 || y >= 16 || z >= 16 {
            return 0;
        }
        self.blocks[(x as usize) * 256 + (y as usize) * 16 + (z as usize)]
    }

    /// Writes the cell a world point translates to; a silent no-op when the
    /// point is outside this chunk's box.
    pub fn set_block_global(&mut self, pos: Pos3, block: u32)
        requires
            old(self).well_formed(),
        ensures
            final(self).well_formed(),
            final(self).position == old(self).position,
            old(self).spec_contains(pos) ==> old(self).spec_set(
                *final(self),
                old(self).local_of(pos).0,
                old(self).local_of(pos).1,
                old(self).local_of(pos).2,
                block,
            ),
            !old(self).spec_contains(pos) ==> *final(self) == *old(self),
            final(self).spec_block_global(pos) == (if old(self).spec_contains(pos) {
                block
            } else {
                0u32
            }),
            forall|q: Pos3|
                q != pos ==> final(self).spec_block_global(q) == old(self).spec_block_global(q),
    {
        let x = pos.x as i64 - self.position.x as i64 + 8;
        let y = pos.y as i64 - self.position.y as i64 + 8;
        let z = pos.z as i64 - self.position.z as i64 + 8;
        if x < 0 || y < 0 || z < 0 || x >= 16 || y >= 16 || z >= 16 {
            return;
        }
        let idx: usize = (x as usize) * 256 + (y as usize) * 16 + (z as usize);
        self.blocks[idx] = block;
        proof {
            let (lx, ly, lz) = old(self).local_of(pos);
            assert forall|q: Pos3| q != pos implies self.spec_block_global(q) == old(
                self,
            ).spec_block_global(q) by {
                let (qx, qy, qz) = old(self).local_of(q);
                if in_chunk_bounds(qx, qy, qz) {
                    lemma_flat_index_injective(qx, qy, qz, lx, ly, lz);
                }
            }
        }
    }
}

/// The world-space anchor of the chunk at a chunk coordinate.
fn anchor_of(pos: Pos3) -> (r: Pos3)
    requires
        chunk_coord_in_range(pos),
    ensures
        r.x == 16 * pos.x && r.y == 16 * pos.y && r.z == 16 * pos.z,
        r.x as int % 16 == 0 && r.y as int % 16 == 0 && r.z as int % 16 == 0,
{
    let r = Pos3 { x: 16 * pos.x, y: 16 * pos.y, z: 16 * pos.z };
    proof {
        assert(r.x as int % 16 == 0 && r.y as int % 16 == 0 && r.z as int % 16 == 0) by {
            assert(forall|c: int| #![trigger (16 * c) % 16] (16 * c) % 16 == 0) by (nonlinear_arith);
        };
    }
    r
}

/// A valid local coordinate's flat position lies inside the cell array.
pub proof fn lemma_flat_index_bounds(x: int, y: int, z: int)
    requires
        in_chunk_bounds(x, y, z),
    ensures
        0 <= flat_index(x, y, z) < 4096,
{
}

/// Distinct valid local coordinates occupy distinct flat positions.
pub proof fn lemma_flat_index_injective(x1: int, y1: int, z1: int, x2: int, y2: int, z2: int)
    requires
        in_chunk_bounds(x1, y1, z1),
        in_chunk_bounds(x2, y2, z2),
    ensures
        flat_index(x1, y1, z1) == flat_index(x2, y2, z2) ==> x1 == x2 && y1 == y2 && z1 == z2,
{
}

/// Writing a valid local coordinate and reading it back returns the written
/// value, and leaves every other cell as it was.
pub proof fn lemma_set_then_get(pre: Chunk, post: Chunk, x: int, y: int, z: int, v: u32)
    requires
        pre.well_formed(),
        in_chunk_bounds(x, y, z),
        pre.spec_set(post, x, y, z, v),
    ensures
        post.spec_block(x, y, z) == v,
        forall|a: int, b: int, d: int|
            !(a == x && b == y && d == z) ==> post.spec_block(a, b, d) == pre.spec_block(a, b, d),
{
    lemma_flat_index_bounds(x, y, z);
    assert forall|a: int, b: int, d: int| !(a == x && b == y && d == z) implies post.spec_block(
        a,
        b,
        d,
    ) == pre.spec_block(a, b, d) by {
        if in_chunk_bounds(a, b, d) {
            lemma_flat_index_injective(a, b, d, x, y, z);
        }
    }
}

/// A read at any local coordinate with an axis outside `[0, SIZE)` returns
/// the empty sentinel and never fails.
pub proof fn lemma_out_of_range_reads_empty(c: Chunk, x: int, y: int, z: int)
    requires
        !in_chunk_bounds(x, y, z),
    ensures
        c.spec_block(x, y, z) == 0,
{
}

/// Grid construction from a mask is deterministic: two chunks built from
/// equal masks with equal coordinates and fill ids hold bit-identical grids.
pub proof fn lemma_mask_grid_deterministic(c1: Chunk, c2: Chunk, pos: Pos3, block: u32, mask: Seq<bool>)
    requires
        mask.len() == 4096,
        c1.well_formed(),
        c2.well_formed(),
        c1.position == c2.position,
        forall|x: int, y: int, z: int|
            in_chunk_bounds(x, y, z) ==> c1.spec_block(x, y, z) == (if mask[flat_index(x, y, z)] {
                block
            } else {
                0u32
            }),
        forall|x: int, y: int, z: int|
            in_chunk_bounds(x, y, z) ==> c2.spec_block(x, y, z) == (if mask[flat_index(x, y, z)] {
                block
            } else {
                0u32
            }),
    ensures
        c1.blocks@ =~= c2.blocks@,
{
    assert forall|i: int| 0 <= i < 4096 implies c1.blocks@[i] == c2.blocks@[i] by {
        let x = i / 256;
        let y = (i / 16) % 16;
        let z = i % 16;
        lemma_flat_decompose(i);
        assert(c1.spec_block(x, y, z) == c2.spec_block(x, y, z));
    }
}

/// Every flat position decomposes into exactly one valid local coordinate.
proof fn lemma_flat_decompose(i: int)
    requires
        0 <= i < 4096,
    ensures
        in_chunk_bounds(i / 256, (i / 16) % 16, i % 16),
        flat_index(i / 256, (i / 16) % 16, i % 16) == i,
{
    assert(in_chunk_bounds(i / 256, (i / 16) % 16, i % 16) && flat_index(
        i / 256,
        (i / 16) % 16,
        i % 16,
    ) == i) by (nonlinear_arith)
        requires
            0 <= i < 4096,
    ;
}

} // verus!
