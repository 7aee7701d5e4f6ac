//! The chunk manager: owns the set of chunks, maps world coordinates to the
//! owning chunk, exposes get/set-block across chunk boundaries, and decides
//! which chunks streaming should generate around a focal point.
//!
//! At most one chunk exists per coordinate, so the chunks' boxes tile space
//! without overlap. Streaming is split in two: `missing_coords` decides
//! which chunk coordinates around the focus lack a chunk, and
//! `register_generated` installs a procedurally generated chunk from the
//! solidity mask a noise sampler produced for one such coordinate.
use vstd::prelude::*;

use crate::chunk::Chunk;
use crate::chunk::chunk_coord_in_range;
use crate::chunk::flat_index;
use crate::chunk::in_chunk_bounds;
use crate::math::Pos3;
use crate::math::chunk_coord_of;
use crate::math::get_chunk_position;
use crate::rng::random_in_range;

verus! {

/// The world: every registered chunk, at most one per coordinate.
pub struct ChunkManager {
    pub chunks: Vec<Chunk>,
}

impl ChunkManager {
    /// Every chunk is well formed and no two chunks share a coordinate.
    pub open spec fn well_formed(self) -> bool {
        &&& forall|i: int|
            0 <= i < self.chunks@.len() ==> (#[trigger] self.chunks@[i]).well_formed()
        &&& forall|i: int, j: int|
            0 <= i < j < self.chunks@.len() ==> (#[trigger] self.chunks@[i]).position != (
            #[trigger] self.chunks@[j]).position
    }

    /// Whether some chunk's box covers the world point `p`.
    pub open spec fn spec_covered(self, p: Pos3) -> bool {
        exists|i: int| 0 <= i < self.chunks@.len() && (#[trigger] self.chunks@[i]).spec_contains(p)
    }

    /// The index of the chunk covering `p`, when one exists.
    pub open spec fn spec_covering_index(self, p: Pos3) -> int {
        choose|i: int| 0 <= i < self.chunks@.len() && (#[trigger] self.chunks@[i]).spec_contains(p)
    }

    /// The block id the world shows at `p`: the covering chunk's cell, or
    /// the empty sentinel where no chunk covers the point.
    pub open spec fn spec_world_block(self, p: Pos3) -> u32 {
        if self.spec_covered(p) {
            self.chunks@[self.spec_covering_index(p)].spec_block_global(p)
        } else {
            0
        }
    }

    /// Whether a chunk with the world-space anchor `a` is registered.
    pub open spec fn spec_has_anchor(self, a: Pos3) -> bool {
        exists|i: int| 0 <= i < self.chunks@.len() && (#[trigger] self.chunks@[i]).position == a
    }

    /// An empty world.
    pub fn new() -> (r: ChunkManager)
        ensures
            r.well_formed(),
            r.chunks@.len() == 0,
    {
        ChunkManager { chunks: Vec::new() }
    }

    /// Registers a chunk under its coordinate and returns its index. The
    /// coordinate must be free, so the one-chunk-per-coordinate invariant
    /// holds.
    pub fn add_chunk(&mut self, chunk: Chunk) -> (index: usize)
        requires
            old(self).well_formed(),
            chunk.well_formed(),
            !old(self).spec_has_anchor(chunk.position),
        ensures
            final(self).well_formed(),
            index == old(self).chunks@.len(),
            final(self).chunks@ == old(self).chunks@.push(chunk),
    {
        let index = self.chunks.len();
        self.chunks.push(chunk);
        index
    }

    /// Unregisters the chunk at an index; later chunks shift down by one.
    pub fn remove_chunk(&mut self, index: usize)
        requires
            old(self).well_formed(),
            index < old(self).chunks@.len(),
        ensures
            final(self).well_formed(),
            final(self).chunks@ == old(self).chunks@.remove(index as int),
    {
        self.chunks.remove(index);
        proof {
            assert forall|i: int, j: int|
                0 <= i < j < self.chunks@.len() implies (#[trigger] self.chunks@[i]).position != (
            #[trigger] self.chunks@[j]).position by {
                let oi: int = if i < index { i } else { i + 1 };
                let oj: int = if j < index { j } else { j + 1 };
                assert(self.chunks@[i] == old(self).chunks@[oi]);
                assert(self.chunks@[j] == old(self).chunks@[oj]);
            }
        }
    }

    /// The chunk at an index.
    pub fn get_chunk(&self, index: usize) -> (r: &Chunk)
        requires
            index < self.chunks@.len(),
        ensures
            *r == self.chunks@[index as int],
    {
        &self.chunks[index]
    }

    /// How many chunks are registered.
    pub fn get_chunk_count(&self) -> (r: usize)
        ensures
            r == self.chunks@.len(),
    {
        self.chunks.len()
    }

    /// The chunk whose box covers the world point, if any.
    pub fn get_pos_chunk(&self, pos: Pos3) -> (r: Option<&Chunk>)
        requires
            self.well_formed(),
        ensures
            r is Some <==> self.spec_covered(pos),
            match r {
                Some(c) => *c == self.chunks@[self.spec_covering_index(pos)] && c.spec_contains(
                    pos,
                ),
                None => true,
            },
    {
        match self.get_pos_index(pos) {
            Some(index) => Some(&self.chunks[index]),
            None => None,
        }
    }

    /// The index of the chunk whose box covers the world point, if any.
    pub fn get_pos_index(&self, pos: Pos3) -> (r: Option<usize>)
        requires
            self.well_formed(),
        ensures
            r is Some <==> self.spec_covered(pos),
            match r {
                Some(index) => index < self.chunks@.len() && index
                    == self.spec_covering_index(pos) && self.chunks@[index as int].spec_contains(
                    pos,
                ),
                None => true,
            },
    {
        let mut index: usize = 0;
        while index < self.chunks.len()
            invariant
                self.well_formed(),
                index <= self.chunks@.len(),
                forall|i: int|
                    0 <= i < index ==> !(#[trigger] self.chunks@[i]).spec_contains(pos),
            decreases self.chunks@.len() - index,
        {
            if contains_point(&self.chunks[index], pos) {
                proof {
                    lemma_cover_unique(*self, pos, index as int, self.spec_covering_index(pos));
                }
                return Some(index);
            }
            index = index + 1;
        }
        None
    }

    /// Writes a block through the chunk covering the world point; a silent
    /// no-op where no chunk covers it. Every other world point keeps its
    /// block.
    pub fn set_block(&mut self, pos: Pos3, block: u32)
        requires
            old(self).well_formed(),
        ensures
            final(self).well_formed(),
            final(self).chunks@.len() == old(self).chunks@.len(),
            forall|q: Pos3|
                final(self).spec_covered(q) == old(self).spec_covered(q),
            final(self).spec_world_block(pos) == (if old(self).spec_covered(pos) {
                block
            } else {
                0u32
            }),
            forall|q: Pos3|
                q != pos ==> final(self).spec_world_block(q) == old(self).spec_world_block(q),
    {
        let found = self.get_pos_index(pos);
        match found {
            Some(index) => {
                let ghost pre = *self;
                let ghost i = index as int;
                self.chunks[index].set_block_global(pos, block);
                proof {
                    assert(self.chunks@ =~= pre.chunks@.update(i, self.chunks@[i]));
                    lemma_same_positions_same_cover(pre, *self);
                    assert forall|q: Pos3| q != pos implies self.spec_world_block(q) == pre
                        .spec_world_block(q) by {
                        lemma_world_block_after_update(pre, *self, i, pos, q);
                    }
                    assert(self.spec_covered(pos));
                    lemma_cover_unique(*self, pos, i, self.spec_covering_index(pos));
                    assert(self.spec_world_block(pos) == block);
                }
            },
            None => {
                proof {
                    assert(final(self).chunks@ =~= old(self).chunks@);
                }
            },
        }
    }

    /// Reads the block the world shows at a point: the covering chunk's
    /// cell, or `0` where no chunk covers it.
    pub fn get_block(&self, pos: Pos3) -> (r: u32)
        requires
            self.well_formed(),
        ensures
            r == self.spec_world_block(pos),
    {
        match self.get_pos_chunk(pos) {
            Some(chunk) => chunk.get_block_global(pos),
            None => 0,
        }
    }

    /// The chunk coordinates within the cubic streaming radius of the
    /// focus that have no chunk yet, each listed once: what `stream` must
    /// generate and register to keep the region around the focus populated.
    pub fn missing_coords(&self, player_pos: Pos3, radius: i32) -> (r: Vec<Pos3>)
        requires
            self.well_formed(),
            0 <= radius <= 16,
            -100000000 <= player_pos.x <= 100000000,
            -100000000 <= player_pos.y <= 100000000,
            -100000000 <= player_pos.z <= 100000000,
        ensures
            forall|k: int|
                0 <= k < r@.len() ==> chunk_coord_in_range(#[trigger] r@[k])
                    && in_stream_cube(self.spec_center(player_pos), radius as int, r@[k])
                    && !self.spec_has_anchor(
                    Pos3 {
                        x: (16 * r@[k].x) as i32,
                        y: (16 * r@[k].y) as i32,
                        z: (16 * r@[k].z) as i32,
                    },
                ),
            forall|c: Pos3|
                in_stream_cube(self.spec_center(player_pos), radius as int, c)
                    && !self.spec_has_anchor(
                    Pos3 { x: (16 * c.x) as i32, y: (16 * c.y) as i32, z: (16 * c.z) as i32 },
                ) ==> r@.contains(c),
            forall|k: int, l: int| 0 <= k < l < r@.len() ==> r@[k] != r@[l],
    {
        let center = get_chunk_position(player_pos);
        proof {
            assert(-6250001 <= center.x as int <= 6250001);
            assert(-6250001 <= center.y as int <= 6250001);
            assert(-6250001 <= center.z as int <= 6250001);
        }
        let ghost cc = center;
        let ghost rad = radius as int;
        let mut r: Vec<Pos3> = Vec::new();
        let mut cx: i32 = center.x - radius;
        while cx < center.x + radius
            invariant
                self.well_formed(),
                cc == self.spec_center(player_pos),
                center == cc,
                rad == radius,
                0 <= radius <= 16,
                -6250016 <= cc.x <= 6250016 && -6250016 <= cc.y <= 6250016 && -6250016 <= cc.z
                    <= 6250016,
                cc.x - rad <= cx <= cc.x + rad,
                forall|k: int|
                    0 <= k < r@.len() ==> chunk_coord_in_range(#[trigger] r@[k]) && in_stream_cube(
                        cc,
                        rad,
                        r@[k],
                    ) && r@[k].x < cx && !self.spec_has_anchor(
                        Pos3 {
                            x: (16 * r@[k].x) as i32,
                            y: (16 * r@[k].y) as i32,
                            z: (16 * r@[k].z) as i32,
                        },
                    ),
                forall|c: Pos3|
                    in_stream_cube(cc, rad, c) && c.x < cx && !self.spec_has_anchor(
                        Pos3 { x: (16 * c.x) as i32, y: (16 * c.y) as i32, z: (16 * c.z) as i32 },
                    ) ==> r@.contains(c),
                forall|k: int, l: int| 0 <= k < l < r@.len() ==> r@[k] != r@[l],
            decreases cc.x + rad - cx,
        {
            let mut cy: i32 = center.y - radius;
            while cy < center.y + radius
                invariant
                    self.well_formed(),
                    cc == self.spec_center(player_pos),
                center == cc,
                    rad == radius,
                    0 <= radius <= 16,
                    -6250016 <= cc.x <= 6250016 && -6250016 <= cc.y <= 6250016 && -6250016 <= cc.z
                        <= 6250016,
                    cc.x - rad <= cx < cc.x + rad,
                    cc.y - rad <= cy <= cc.y + rad,
                    forall|k: int|
                        0 <= k < r@.len() ==> chunk_coord_in_range(#[trigger] r@[k])
                            && in_stream_cube(cc, rad, r@[k]) && (r@[k].x < cx || (r@[k].x == cx
                            && r@[k].y < cy)) && !self.spec_has_anchor(
                            Pos3 {
                                x: (16 * r@[k].x) as i32,
                                y: (16 * r@[k].y) as i32,
                                z: (16 * r@[k].z) as i32,
                            },
                        ),
                    forall|c: Pos3|
                        in_stream_cube(cc, rad, c) && (c.x < cx || (c.x == cx && c.y < cy))
                            && !self.spec_has_anchor(
                            Pos3 {
                                x: (16 * c.x) as i32,
                                y: (16 * c.y) as i32,
                                z: (16 * c.z) as i32,
                            },
                        ) ==> r@.contains(c),
                    forall|k: int, l: int| 0 <= k < l < r@.len() ==> r@[k] != r@[l],
                decreases cc.y + rad - cy,
            {
                let mut cz: i32 = center.z - radius;
                while cz < center.z + radius
                    invariant
                        self.well_formed(),
                        cc == self.spec_center(player_pos),
                center == cc,
                        rad == radius,
                        0 <= radius <= 16,
                        -6250016 <= cc.x <= 6250016 && -6250016 <= cc.y <= 6250016 && -6250016
                            <= cc.z <= 6250016,
                        cc.x - rad <= cx < cc.x + rad,
                        cc.y - rad <= cy < cc.y + rad,
                        cc.z - rad <= cz <= cc.z + rad,
                        forall|k: int|
                            0 <= k < r@.len() ==> chunk_coord_in_range(#[trigger] r@[k])
                                && in_stream_cube(cc, rad, r@[k]) && (r@[k].x < cx || (r@[k].x == cx
                                && r@[k].y < cy) || (r@[k].x == cx && r@[k].y == cy && r@[k].z
                                < cz)) && !self.spec_has_anchor(
                                Pos3 {
                                    x: (16 * r@[k].x) as i32,
                                    y: (16 * r@[k].y) as i32,
                                    z: (16 * r@[k].z) as i32,
                                },
                            ),
                        forall|c: Pos3|
                            in_stream_cube(cc, rad, c) && (c.x < cx || (c.x == cx && c.y < cy) || (
                            c.x == cx && c.y == cy && c.z < cz)) && !self.spec_has_anchor(
                                Pos3 {
                                    x: (16 * c.x) as i32,
                                    y: (16 * c.y) as i32,
                                    z: (16 * c.z) as i32,
                                },
                            ) ==> r@.contains(c),
                        forall|k: int, l: int| 0 <= k < l < r@.len() ==> r@[k] != r@[l],
                    decreases cc.z + rad - cz,
                {
                    let coord = Pos3 { x: cx, y: cy, z: cz };
                    let anchor = Pos3 { x: 16 * cx, y: 16 * cy, z: 16 * cz };
                    let ghost rpre = r@;
                    if !self.has_anchor(anchor) {
                        r.push(coord);
                    }
                    proof {
                        assert forall|c: Pos3|
                            in_stream_cube(cc, rad, c) && (c.x < cx || (c.x == cx && c.y < cy) || (
                            c.x == cx && c.y == cy && c.z < cz + 1)) && !self.spec_has_anchor(
                                Pos3 {
                                    x: (16 * c.x) as i32,
                                    y: (16 * c.y) as i32,
                                    z: (16 * c.z) as i32,
                                },
                            ) implies r@.contains(c) by {
                            if c.x == cx && c.y == cy && c.z == cz {
                                assert(r@[r@.len() - 1] == coord);
                            } else {
                                assert(rpre.contains(c));
                                let w = choose|w: int| 0 <= w < rpre.len() && rpre[w] == c;
                                assert(r@[w] == c);
                            }
                        }
                    }
                    cz = cz + 1;
                }
                cy = cy + 1;
            }
            cx = cx + 1;
        }
        r
    }

    /// The chunk coordinate streaming centers on for a focal point.
    pub open spec fn spec_center(self, player_pos: Pos3) -> Pos3 {
        Pos3 {
            x: chunk_coord_of(player_pos.x as int) as i32,
            y: chunk_coord_of(player_pos.y as int) as i32,
            z: chunk_coord_of(player_pos.z as int) as i32,
        }
    }

    /// Whether a chunk with the given anchor is registered.
    pub fn has_anchor(&self, anchor: Pos3) -> (r: bool)
        ensures
            r == self.spec_has_anchor(anchor),
    {
        let mut i: usize = 0;
        while i < self.chunks.len()
            invariant
                i <= self.chunks@.len(),
                forall|k: int| 0 <= k < i ==> (#[trigger] self.chunks@[k]).position != anchor,
            decreases self.chunks@.len() - i,
        {
            let p = self.chunks[i].position;
            if p.x == anchor.x && p.y == anchor.y && p.z == anchor.z {
                return true;
            }
            i = i + 1;
        }
        false
    }

    /// Generates and registers the chunk of one free coordinate from the
    /// solidity mask a noise sampler produced for it, with a block type
    /// drawn from the small non-empty ids; returns its index.
    pub fn register_generated(&mut self, coord: Pos3, mask: &Vec<bool>) -> (index: usize)
        requires
            old(self).well_formed(),
            chunk_coord_in_range(coord),
            mask@.len() == 4096,
            !old(self).spec_has_anchor(
                Pos3 { x: (16 * coord.x) as i32, y: (16 * coord.y) as i32, z: (16 * coord.z) as i32 },
            ),
        ensures
            final(self).well_formed(),
            index == old(self).chunks@.len(),
            final(self).chunks@.len() == old(self).chunks@.len() + 1,
            forall|i: int|
                0 <= i < old(self).chunks@.len() ==> final(self).chunks@[i] == old(self).chunks@[i],
            ({
                let c = final(self).chunks@[index as int];
                &&& c.position.x == 16 * coord.x
                &&& c.position.y == 16 * coord.y
                &&& c.position.z == 16 * coord.z
                &&& exists|id: u32| 1 <= id < 4 && #[trigger] masked_grid(c, mask@, id)
            }),
    {
        let id = random_in_range(1, 4);
        let chunk = Chunk::new_from_mask(coord, id, mask);
        proof {
            assert(masked_grid(chunk, mask@, id));
        }
        self.add_chunk(chunk)
    }
}

/// Whether every cell of the chunk is `id` where the mask holds and empty
/// elsewhere, in flat cell order.
pub open spec fn masked_grid(c: Chunk, mask: Seq<bool>, id: u32) -> bool {
    forall|x: int, y: int, z: int|
        in_chunk_bounds(x, y, z) ==> c.spec_block(x, y, z) == (if mask[flat_index(x, y, z)] {
            id
        } else {
            0u32
        })
}

/// Whether the chunk coordinate `c` lies in the cubic streaming region of
/// the given center and radius.
pub open spec fn in_stream_cube(center: Pos3, radius: int, c: Pos3) -> bool {
    &&& center.x - radius <= c.x < center.x + radius
    &&& center.y - radius <= c.y < center.y + radius
    &&& center.z - radius <= c.z < center.z + radius
}

/// Whether a chunk's box covers a world point, decided in exact arithmetic.
fn contains_point(chunk: &Chunk, pos: Pos3) -> (r: bool)
    ensures
        r == chunk.spec_contains(pos),
{
    let x = pos.x as i64 - chunk.position.x as i64 + 8;
    let y = pos.y as i64 - chunk.position.y as i64 + 8;
    let z = pos.z as i64 - chunk.position.z as i64 + 8;
    0 <= x && x < 16 && 0 <= y && y < 16 && 0 <= z && z < 16
}

/// Chunks at distinct coordinates cover disjoint boxes, so the chunk
/// covering a point is unique.
pub proof fn lemma_cover_unique(m: ChunkManager, p: Pos3, i: int, j: int)
    requires
        m.well_formed(),
        0 <= i < m.chunks@.len(),
        0 <= j < m.chunks@.len(),
        m.chunks@[i].spec_contains(p),
        m.chunks@[j].spec_contains(p),
    ensures
        i == j,
{
    let a = m.chunks@[i].position;
    let b = m.chunks@[j].position;
    if i != j {
        assert(a != b);
        assert(a.x % 16 == 0 && b.x % 16 == 0);
        lemma_anchor_axis_unique(a.x as int, b.x as int, p.x as int);
        lemma_anchor_axis_unique(a.y as int, b.y as int, p.y as int);
        lemma_anchor_axis_unique(a.z as int, b.z as int, p.z as int);
    }
}

/// On one axis, two multiples of 16 whose half-open width-16 ranges share
/// a point are equal.
proof fn lemma_anchor_axis_unique(a: int, b: int, w: int)
    requires
        a % 16 == 0,
        b % 16 == 0,
        a - 8 <= w < a + 8,
        b - 8 <= w < b + 8,
    ensures
        a == b,
{
    assert(-16 < a - b < 16);
    vstd::arithmetic::div_mod::lemma_fundamental_div_mod(a, 16);
    vstd::arithmetic::div_mod::lemma_fundamental_div_mod(b, 16);
    assert(a == 16 * (a / 16) && b == 16 * (b / 16));
    assert(a / 16 == b / 16);
}

/// Two managers whose chunks sit at the same positions cover the same
/// points, with the same covering index.
proof fn lemma_same_positions_same_cover(m1: ChunkManager, m2: ChunkManager)
    requires
        m1.chunks@.len() == m2.chunks@.len(),
        forall|i: int|
            0 <= i < m1.chunks@.len() ==> (#[trigger] m1.chunks@[i]).position == (
            #[trigger] m2.chunks@[i]).position,
    ensures
        forall|q: Pos3| m1.spec_covered(q) == m2.spec_covered(q),
{
    assert forall|q: Pos3| m1.spec_covered(q) == m2.spec_covered(q) by {
        if m1.spec_covered(q) {
            let i = m1.spec_covering_index(q);
            assert(m2.chunks@[i].spec_contains(q));
        }
        if m2.spec_covered(q) {
            let i = m2.spec_covering_index(q);
            assert(m1.chunks@[i].spec_contains(q));
        }
    }
}

/// Updating the cells of the chunk that covers `pos` leaves the world
/// block of every other point unchanged.
proof fn lemma_world_block_after_update(pre: ChunkManager, post: ChunkManager, i: int, pos: Pos3, q: Pos3)
    requires
        pre.well_formed(),
        post.well_formed(),
        q != pos,
        0 <= i < pre.chunks@.len(),
        post.chunks@.len() == pre.chunks@.len(),
        forall|k: int| 0 <= k < pre.chunks@.len() && k != i ==> post.chunks@[k] == pre.chunks@[k],
        post.chunks@[i].position == pre.chunks@[i].position,
        forall|w: Pos3|
            w != pos ==> post.chunks@[i].spec_block_global(w) == pre.chunks@[i].spec_block_global(
                w,
            ),
    ensures
        post.spec_world_block(q) == pre.spec_world_block(q),
{
    lemma_same_positions_same_cover(pre, post);
    if pre.spec_covered(q) {
        let a = pre.spec_covering_index(q);
        let b = post.spec_covering_index(q);
        assert(pre.chunks@[a].spec_contains(q));
        assert(post.chunks@[b].spec_contains(q));
        assert(pre.chunks@[b].spec_contains(q));
        lemma_cover_unique(pre, q, a, b);
        if a == i {
            assert(post.chunks@[i].spec_block_global(q) == pre.chunks@[i].spec_block_global(q));
        } else {
            assert(post.chunks@[a] == pre.chunks@[a]);
        }
    }
}

/// After adding a chunk filled with one non-zero id, the world shows that
/// id at every point inside the chunk's box, and still shows the empty
/// sentinel at every point no chunk covers.
pub proof fn lemma_add_filled_world_block(pre: ChunkManager, post: ChunkManager, c: Chunk, id: u32, p: Pos3)
    requires
        pre.well_formed(),
        c.well_formed(),
        c.spec_filled(id),
        !pre.spec_has_anchor(c.position),
        post.chunks@ == pre.chunks@.push(c),
    ensures
        post.well_formed(),
        c.spec_contains(p) ==> post.spec_world_block(p) == id,
        !post.spec_covered(p) ==> post.spec_world_block(p) == 0,
{
    let n = pre.chunks@.len() as int;
    assert forall|i: int, j: int|
        0 <= i < j < post.chunks@.len() implies (#[trigger] post.chunks@[i]).position != (
    #[trigger] post.chunks@[j]).position by {
        if j == n {
            assert(post.chunks@[i] == pre.chunks@[i]);
        }
    }
    if c.spec_contains(p) {
        assert(post.chunks@[n] == c);
        assert(post.spec_covered(p));
        let b = post.spec_covering_index(p);
        lemma_cover_unique(post, p, n, b);
        assert(post.spec_world_block(p) == c.spec_block_global(p));
        assert(in_chunk_bounds(c.local_of(p).0, c.local_of(p).1, c.local_of(p).2));
    }
}

} // verus!
