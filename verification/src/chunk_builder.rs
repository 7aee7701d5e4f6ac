//! Face-culling mesh extraction: walks a chunk's cells, emits one quad per
//! face whose neighboring cell is empty, and flattens the quads into one
//! combined vertex array and one index array.
//!
//! Neighbor probes use the chunk's own out-of-range-returns-empty read, so
//! faces on the chunk boundary always count as exposed.
use vstd::prelude::*;

use crate::block_types::Catalog;
use crate::chunk::Chunk;
use crate::chunk::in_chunk_bounds;
use crate::direction::Direction;
use crate::direction::dir_offset;
use crate::quad::Quad;
use crate::quad::Vertex;
use crate::quad::block_quad;
use crate::quad::spec_block_quad_vertices;
use crate::quad::spec_index_pattern;
use crate::quad::spec_quad_indices;

verus! {

/// One face of one cell: the cell's local coordinate and the face direction.
pub type Face = (int, int, int, Direction);

/// Whether the face of the cell `(x, y, z)` looking toward `d` is visible:
/// the cell is solid and the neighbor on that side is empty (an
/// out-of-range neighbor reads as empty, so boundary faces are visible).
pub open spec fn spec_visible(c: Chunk, x: int, y: int, z: int, d: Direction) -> bool {
    &&& c.spec_block(x, y, z) != 0
    &&& c.spec_block(x + dir_offset(d).0, y + dir_offset(d).1, z + dir_offset(d).2) == 0
}

/// The face of one cell toward one direction, if visible; empty otherwise.
pub open spec fn dir_face(c: Chunk, x: int, y: int, z: int, d: Direction) -> Seq<Face> {
    if spec_visible(c, x, y, z, d) {
        seq![(x, y, z, d)]
    } else {
        Seq::empty()
    }
}

/// The visible faces of one cell, in emission order of the directions.
pub open spec fn cell_faces(c: Chunk, x: int, y: int, z: int) -> Seq<Face> {
    dir_face(c, x, y, z, Direction::UP) + dir_face(c, x, y, z, Direction::DOWN) + dir_face(
        c,
        x,
        y,
        z,
        Direction::NORTH,
    ) + dir_face(c, x, y, z, Direction::SOUTH) + dir_face(c, x, y, z, Direction::WEST) + dir_face(
        c,
        x,
        y,
        z,
        Direction::EAST,
    )
}

/// The visible faces of the cells `(x, y, 0) .. (x, y, nz)`, in order.
pub open spec fn row_faces(c: Chunk, x: int, y: int, nz: int) -> Seq<Face>
    decreases nz,
{
    if nz <= 0 {
        Seq::empty()
    } else {
        row_faces(c, x, y, nz - 1) + cell_faces(c, x, y, nz - 1)
    }
}

/// The visible faces of the rows `(x, 0) .. (x, ny)`, in order.
pub open spec fn slab_faces(c: Chunk, x: int, ny: int) -> Seq<Face>
    decreases ny,
{
    if ny <= 0 {
        Seq::empty()
    } else {
        slab_faces(c, x, ny - 1) + row_faces(c, x, ny - 1, 16)
    }
}

/// The visible faces of the slabs `0 .. nx`, in order.
pub open spec fn chunk_faces_up_to(c: Chunk, nx: int) -> Seq<Face>
    decreases nx,
{
    if nx <= 0 {
        Seq::empty()
    } else {
        chunk_faces_up_to(c, nx - 1) + slab_faces(c, nx - 1, 16)
    }
}

/// Every visible face of the chunk, in traversal order: cells walked
/// x-major, then y, then z, directions in emission order within a cell.
pub open spec fn chunk_faces(c: Chunk) -> Seq<Face> {
    chunk_faces_up_to(c, 16)
}

/// The center of a face in half-units: twice the cell's world coordinate
/// (anchor plus local minus the half extent), shifted one half-unit along
/// the face normal.
pub open spec fn face_center(c: Chunk, f: Face) -> (int, int, int) {
    (
        2 * (c.position.x + f.0 - 8) + dir_offset(f.3).0,
        2 * (c.position.y + f.1 - 8) + dir_offset(f.3).1,
        2 * (c.position.z + f.2 - 8) + dir_offset(f.3).2,
    )
}

/// The four vertices the mesh holds for a face: the block quad of the
/// cell's id, facing the face's direction, centered on the face.
pub open spec fn face_vertices(cat: Catalog, c: Chunk, f: Face) -> Seq<Vertex> {
    spec_block_quad_vertices(cat, c.spec_block(f.0, f.1, f.2), f.3, face_center(c, f))
}

/// Whether `quads` holds exactly one quad per face of `faces`, in order,
/// each with the face's vertices and with indices offset by four times its
/// emission ordinal.
pub open spec fn quads_match(cat: Catalog, c: Chunk, faces: Seq<Face>, quads: Seq<Quad>) -> bool {
    &&& quads.len() == faces.len()
    &&& forall|i: int|
        0 <= i < faces.len() ==> (#[trigger] quads[i]).vertices@ == face_vertices(cat, c, faces[i])
            && quads[i].indices@ == spec_quad_indices(i, faces[i].3)
}

/// Whether every solid cell of the chunk has a registered block type, so
/// texture lookups cannot fail.
pub open spec fn chunk_ids_registered(cat: Catalog, c: Chunk) -> bool {
    forall|x: int, y: int, z: int|
        in_chunk_bounds(x, y, z) && #[trigger] c.spec_block(x, y, z) != 0 ==> cat.spec_registered(
            c.spec_block(x, y, z) as int,
        )
}

/// A chunk's mesh: the combined vertex array, the index array addressing
/// it, and the number of indices to draw.
#[derive(Debug)]
pub struct Mesh {
    pub vertices: Vec<Vertex>,
    pub indices: Vec<u32>,
    pub index_count: u32,
}

/// Whether `m` is exactly the mesh of the chunk's visible faces: four
/// vertices and six indices per face in emission order, each quad's
/// vertices from its face and its indices offset by four times its ordinal.
pub open spec fn mesh_matches(cat: Catalog, c: Chunk, m: Mesh) -> bool {
    let faces = chunk_faces(c);
    &&& m.vertices@.len() == 4 * faces.len()
    &&& m.indices@.len() == 6 * faces.len()
    &&& m.index_count == 6 * faces.len()
    &&& forall|q: int|
        0 <= q < faces.len() ==> m.vertices@.subrange(4 * q, 4 * q + 4) == face_vertices(
            cat,
            c,
            #[trigger] faces[q],
        )
    &&& forall|q: int|
        0 <= q < faces.len() ==> m.indices@.subrange(6 * q, 6 * q + 6) == spec_quad_indices(
            q,
            (#[trigger] faces[q]).3,
        )
}

/// Decides whether every solid cell of the chunk names a registered block
/// type, which `build` demands of its callers: texture lookups on an
/// unregistered id are a fatal misuse.
pub fn check_ids_registered(catalog: &Catalog, chunk: &Chunk) -> (r: bool)
    requires
        chunk.well_formed(),
    ensures
        r == chunk_ids_registered(*catalog, *chunk),
{
    let mut x: usize = 0;
    while x < 16
        invariant
            chunk.well_formed(),
            x <= 16,
            forall|a: int, b: int, c: int|
                in_chunk_bounds(a, b, c) && a < x && #[trigger] chunk.spec_block(a, b, c) != 0
                    ==> catalog.spec_registered(chunk.spec_block(a, b, c) as int),
        decreases 16 - x,
    {
        let mut y: usize = 0;
        while y < 16
            invariant
                chunk.well_formed(),
                x < 16,
                y <= 16,
                forall|a: int, b: int, c: int|
                    in_chunk_bounds(a, b, c) && (a < x || (a == x && b < y)) && #[trigger] chunk
                        .spec_block(a, b, c) != 0 ==> catalog.spec_registered(
                        chunk.spec_block(a, b, c) as int,
                    ),
            decreases 16 - y,
        {
            let mut z: usize = 0;
            while z < 16
                invariant
                    chunk.well_formed(),
                    x < 16,
                    y < 16,
                    z <= 16,
                    forall|a: int, b: int, c: int|
                        in_chunk_bounds(a, b, c) && (a < x || (a == x && b < y) || (a == x && b == y
                            && c < z)) && #[trigger] chunk.spec_block(a, b, c) != 0
                            ==> catalog.spec_registered(chunk.spec_block(a, b, c) as int),
                decreases 16 - z,
            {
                let id = chunk.get_block(x as u8, y as u8, z as u8);
                if id != 0 && !catalog.is_registered(id) {
                    return false;
                }
                z = z + 1;
            }
            y = y + 1;
        }
        x = x + 1;
    }
    true
}

/// A cell contributes at most six faces.
proof fn lemma_cell_faces_len(c: Chunk, x: int, y: int, z: int)
    ensures
        cell_faces(c, x, y, z).len() <= 6,
{
}

/// A row of cells contributes at most six faces per cell.
proof fn lemma_row_faces_len(c: Chunk, x: int, y: int, nz: int)
    requires
        0 <= nz,
    ensures
        row_faces(c, x, y, nz).len() <= 6 * nz,
    decreases nz,
{
    if nz > 0 {
        lemma_row_faces_len(c, x, y, nz - 1);
        lemma_cell_faces_len(c, x, y, nz - 1);
    }
}

/// A slab contributes at most 96 faces per row.
proof fn lemma_slab_faces_len(c: Chunk, x: int, ny: int)
    requires
        0 <= ny,
    ensures
        slab_faces(c, x, ny).len() <= 96 * ny,
    decreases ny,
{
    if ny > 0 {
        lemma_slab_faces_len(c, x, ny - 1);
        lemma_row_faces_len(c, x, ny - 1, 16);
    }
}

/// The whole chunk contributes at most 1536 faces per slab.
pub proof fn lemma_chunk_faces_len(c: Chunk, nx: int)
    requires
        0 <= nx,
    ensures
        chunk_faces_up_to(c, nx).len() <= 1536 * nx,
    decreases nx,
{
    if nx > 0 {
        lemma_chunk_faces_len(c, nx - 1);
        lemma_slab_faces_len(c, nx - 1, 16);
    }
}

/// Appending a face and its quad preserves the face-by-face match.
proof fn lemma_push_quad(cat: Catalog, c: Chunk, faces: Seq<Face>, quads: Seq<Quad>, f: Face, q: Quad)
    requires
        quads_match(cat, c, faces, quads),
        q.vertices@ == face_vertices(cat, c, f),
        q.indices@ == spec_quad_indices(faces.len() as int, f.3),
    ensures
        quads_match(cat, c, faces.push(f), quads.push(q)),
{
    let faces2 = faces.push(f);
    let quads2 = quads.push(q);
    assert forall|i: int|
        0 <= i < faces2.len() implies (#[trigger] quads2[i]).vertices@ == face_vertices(
        cat,
        c,
        faces2[i],
    ) && quads2[i].indices@ == spec_quad_indices(i, faces2[i].3) by {
        if i < faces.len() {
            assert(quads2[i] == quads[i]);
            assert(faces2[i] == faces[i]);
        } else {
            assert(quads2[i] == q);
            assert(faces2[i] == f);
        }
    }
}

/// Emits the quad of one face of one cell, if that face is visible: the
/// cell must be solid and the neighbor toward the direction empty. The new
/// quad's ordinal is the number of quads already emitted.
fn emit_dir(
    catalog: &Catalog,
    chunk: &Chunk,
    quads: &mut Vec<Quad>,
    x: usize,
    y: usize,
    z: usize,
    dir: Direction,
    prefix: Ghost<Seq<Face>>,
)
    requires
        chunk.well_formed(),
        chunk_ids_registered(*catalog, *chunk),
        x < 16,
        y < 16,
        z < 16,
        quads_match(*catalog, *chunk, prefix@, old(quads)@),
        prefix@.len() <= 24575,
    ensures
        quads_match(
            *catalog,
            *chunk,
            prefix@ + dir_face(*chunk, x as int, y as int, z as int, dir),
            final(quads)@,
        ),
{
    let ghost c = *chunk;
    let ghost f = (x as int, y as int, z as int, dir);
    let id = chunk.get_block(x as u8, y as u8, z as u8);
    if id == 0 {
        proof {
            assert(prefix@ + dir_face(c, x as int, y as int, z as int, dir) =~= prefix@);
        }
        return;
    }
    let v = dir.get_vec();
    let neighbor = chunk.get_block_s(
        x as i16 + v.0 as i16,
        y as i16 + v.1 as i16,
        z as i16 + v.2 as i16,
    );
    if neighbor != 0 {
        proof {
            assert(prefix@ + dir_face(c, x as int, y as int, z as int, dir) =~= prefix@);
        }
        return;
    }
    let cx: i64 = 2 * (chunk.position.x as i64 + x as i64 - 8) + v.0 as i64;
    let cy: i64 = 2 * (chunk.position.y as i64 + y as i64 - 8) + v.1 as i64;
    let cz: i64 = 2 * (chunk.position.z as i64 + z as i64 - 8) + v.2 as i64;
    let ghost qpre = quads@;
    let q = block_quad(catalog, id, quads.len() as u32, dir, [cx, cy, cz]);
    quads.push(q);
    proof {
        assert(spec_visible(c, x as int, y as int, z as int, dir));
        lemma_push_quad(*catalog, c, prefix@, qpre, f, q);
        assert(prefix@ + dir_face(c, x as int, y as int, z as int, dir) =~= prefix@.push(f));
    }
}

/// Builds the mesh of every visible face of the chunk: a flat vertex array
/// and a flat index array, accumulated across all quads in emission order,
/// plus the index count. An all-empty chunk yields empty arrays.
#[verifier::rlimit(100)]
pub fn build(catalog: &Catalog, chunk: &Chunk) -> (m: Mesh)
    requires
        chunk.well_formed(),
        chunk_ids_registered(*catalog, *chunk),
    ensures
        mesh_matches(*catalog, *chunk, m),
{
    let ghost cat = *catalog;
    let ghost c = *chunk;
    let mut quads: Vec<Quad> = Vec::new();
    let mut x: usize = 0;
    while x < 16
        invariant
            x <= 16,
            chunk.well_formed(),
            chunk_ids_registered(cat, c),
            cat == *catalog,
            c == *chunk,
            quads_match(cat, c, chunk_faces_up_to(c, x as int), quads@),
        decreases 16 - x,
    {
        proof {
            assert(chunk_faces_up_to(c, x as int) + slab_faces(c, x as int, 0)
                =~= chunk_faces_up_to(c, x as int));
        }
        let mut y: usize = 0;
        while y < 16
            invariant
                x < 16,
                y <= 16,
                chunk.well_formed(),
                chunk_ids_registered(cat, c),
                cat == *catalog,
                c == *chunk,
                quads_match(
                    cat,
                    c,
                    chunk_faces_up_to(c, x as int) + slab_faces(c, x as int, y as int),
                    quads@,
                ),
            decreases 16 - y,
        {
            proof {
                assert(chunk_faces_up_to(c, x as int) + slab_faces(c, x as int, y as int)
                    + row_faces(c, x as int, y as int, 0) =~= chunk_faces_up_to(c, x as int)
                    + slab_faces(c, x as int, y as int));
            }
            let mut z: usize = 0;
            while z < 16
                invariant
                    x < 16,
                    y < 16,
                    z <= 16,
                    chunk.well_formed(),
                    chunk_ids_registered(cat, c),
                    cat == *catalog,
                    c == *chunk,
                    quads_match(
                        cat,
                        c,
                        chunk_faces_up_to(c, x as int) + slab_faces(c, x as int, y as int)
                            + row_faces(c, x as int, y as int, z as int),
                        quads@,
                    ),
                decreases 16 - z,
            {
                let ghost xi = x as int;
                let ghost yi = y as int;
                let ghost zi = z as int;
                let ghost f0 = chunk_faces_up_to(c, xi) + slab_faces(c, xi, yi) + row_faces(
                    c,
                    xi,
                    yi,
                    zi,
                );
                proof {
                    lemma_chunk_faces_len(c, xi);
                    lemma_slab_faces_len(c, xi, yi);
                    lemma_row_faces_len(c, xi, yi, zi);
                }
                let ghost f1 = f0 + dir_face(c, xi, yi, zi, Direction::UP);
                let ghost f2 = f1 + dir_face(c, xi, yi, zi, Direction::DOWN);
                let ghost f3 = f2 + dir_face(c, xi, yi, zi, Direction::NORTH);
                let ghost f4 = f3 + dir_face(c, xi, yi, zi, Direction::SOUTH);
                let ghost f5 = f4 + dir_face(c, xi, yi, zi, Direction::WEST);
                let ghost f6 = f5 + dir_face(c, xi, yi, zi, Direction::EAST);

                emit_dir(catalog, chunk, &mut quads, x, y, z, Direction::UP, Ghost(f0));
                emit_dir(catalog, chunk, &mut quads, x, y, z, Direction::DOWN, Ghost(f1));
                emit_dir(catalog, chunk, &mut quads, x, y, z, Direction::NORTH, Ghost(f2));
                emit_dir(catalog, chunk, &mut quads, x, y, z, Direction::SOUTH, Ghost(f3));
                emit_dir(catalog, chunk, &mut quads, x, y, z, Direction::WEST, Ghost(f4));
                emit_dir(catalog, chunk, &mut quads, x, y, z, Direction::EAST, Ghost(f5));
                proof {
                    assert(row_faces(c, xi, yi, zi + 1) == row_faces(c, xi, yi, zi) + cell_faces(
                        c,
                        xi,
                        yi,
                        zi,
                    ));
                    assert(chunk_faces_up_to(c, xi) + slab_faces(c, xi, yi) + row_faces(
                        c,
                        xi,
                        yi,
                        zi + 1,
                    ) =~= f6);
                }
                z = z + 1;
            }
            proof {
                assert(slab_faces(c, x as int, y as int + 1) == slab_faces(c, x as int, y as int)
                    + row_faces(c, x as int, y as int, 16));
                assert(chunk_faces_up_to(c, x as int) + slab_faces(c, x as int, y as int + 1)
                    =~= chunk_faces_up_to(c, x as int) + slab_faces(c, x as int, y as int)
                    + row_faces(c, x as int, y as int, 16));
            }
            y = y + 1;
        }
        proof {
            assert(chunk_faces_up_to(c, x as int + 1) == chunk_faces_up_to(c, x as int)
                + slab_faces(c, x as int, 16));
        }
        x = x + 1;
    }
    let ghost faces = chunk_faces(c);
    proof {
        lemma_chunk_faces_len(c, 16);
        assert(quads_match(cat, c, faces, quads@));
    }

    let mut vertices: Vec<Vertex> = Vec::new();
    let mut indices: Vec<u32> = Vec::new();
    let mut qi: usize = 0;
    while qi < quads.len()
        invariant
            quads_match(cat, c, faces, quads@),
            faces.len() <= 24576,
            qi <= quads@.len(),
            vertices@.len() == 4 * qi,
            indices@.len() == 6 * qi,
            forall|j: int|
                0 <= j < qi ==> vertices@.subrange(4 * j, 4 * j + 4) == (#[trigger] quads@[j]).vertices@,
            forall|j: int|
                0 <= j < qi ==> indices@.subrange(6 * j, 6 * j + 6) == (#[trigger] quads@[j]).indices@,
        decreases quads@.len() - qi,
    {
        let ghost vpre = vertices@;
        let ghost ipre = indices@;
        let q = quads[qi];
        vertices.push(q.vertices[0]);
        vertices.push(q.vertices[1]);
        vertices.push(q.vertices[2]);
        vertices.push(q.vertices[3]);
        indices.push(q.indices[0]);
        indices.push(q.indices[1]);
        indices.push(q.indices[2]);
        indices.push(q.indices[3]);
        indices.push(q.indices[4]);
        indices.push(q.indices[5]);
        proof {
            assert forall|j: int| 0 <= j < qi + 1 implies vertices@.subrange(4 * j, 4 * j + 4) == (
            #[trigger] quads@[j]).vertices@ by {
                if j < qi {
                    assert(vertices@.subrange(4 * j, 4 * j + 4) =~= vpre.subrange(
                        4 * j,
                        4 * j + 4,
                    ));
                } else {
                    assert(vertices@.subrange(4 * j, 4 * j + 4) =~= q.vertices@);
                }
            }
            assert forall|j: int| 0 <= j < qi + 1 implies indices@.subrange(6 * j, 6 * j + 6) == (
            #[trigger] quads@[j]).indices@ by {
                if j < qi {
                    assert(indices@.subrange(6 * j, 6 * j + 6) =~= ipre.subrange(6 * j, 6 * j + 6));
                } else {
                    assert(indices@.subrange(6 * j, 6 * j + 6) =~= q.indices@);
                }
            }
        }
        qi = qi + 1;
    }
    proof {
        assert forall|q: int| 0 <= q < faces.len() implies vertices@.subrange(4 * q, 4 * q + 4)
            == face_vertices(cat, c, #[trigger] faces[q]) by {
            assert(quads@[q].vertices@ == face_vertices(cat, c, faces[q]));
        }
        assert forall|q: int| 0 <= q < faces.len() implies indices@.subrange(6 * q, 6 * q + 6)
            == spec_quad_indices(q, (#[trigger] faces[q]).3) by {
            assert(quads@[q].indices@ == spec_quad_indices(q, faces[q].3));
        }
    }
    let index_count: u32 = indices.len() as u32;
    Mesh { vertices, indices, index_count }
}


/// How many of a cell's six faces lie on the boundary layer of one axis
/// coordinate: one for the low edge, one for the high edge.
pub open spec fn edge_faces(v: int) -> int {
    (if v == 0 {
        1int
    } else {
        0int
    }) + (if v == 15 {
        1int
    } else {
        0int
    })
}

/// In a uniformly filled chunk, one cell shows exactly its boundary faces.
proof fn lemma_filled_cell_len(c: Chunk, id: u32, x: int, y: int, z: int)
    requires
        id != 0,
        c.spec_filled(id),
        in_chunk_bounds(x, y, z),
    ensures
        cell_faces(c, x, y, z).len() == edge_faces(x) + edge_faces(y) + edge_faces(z),
{
}

/// Row face count for a uniformly filled chunk.
proof fn lemma_filled_row_len(c: Chunk, id: u32, x: int, y: int, nz: int)
    requires
        id != 0,
        c.spec_filled(id),
        0 <= x < 16,
        0 <= y < 16,
        0 <= nz <= 16,
    ensures
        row_faces(c, x, y, nz).len() == nz * (edge_faces(x) + edge_faces(y)) + (if nz >= 1 {
            1int
        } else {
            0int
        }) + (if nz == 16 {
            1int
        } else {
            0int
        }),
    decreases nz,
{
    if nz > 0 {
        lemma_filled_row_len(c, id, x, y, nz - 1);
        lemma_filled_cell_len(c, id, x, y, nz - 1);
        let e = edge_faces(x) + edge_faces(y);
        assert(nz * e == (nz - 1) * e + e) by (nonlinear_arith);
        assert(row_faces(c, x, y, nz) == row_faces(c, x, y, nz - 1) + cell_faces(c, x, y, nz - 1));
        assert(row_faces(c, x, y, nz).len() == (nz - 1) * e + (if nz - 1 >= 1 {
            1int
        } else {
            0int
        }) + (if nz - 1 == 16 {
            1int
        } else {
            0int
        }) + e + edge_faces(nz - 1));
    } else {
        assert(nz * (edge_faces(x) + edge_faces(y)) == 0) by (nonlinear_arith)
            requires
                nz == 0,
        ;
    }
}

/// Slab face count for a uniformly filled chunk.
proof fn lemma_filled_slab_len(c: Chunk, id: u32, x: int, ny: int)
    requires
        id != 0,
        c.spec_filled(id),
        0 <= x < 16,
        0 <= ny <= 16,
    ensures
        slab_faces(c, x, ny).len() == 16 * ny * edge_faces(x) + 16 * (if ny >= 1 {
            1int
        } else {
            0int
        }) + 16 * (if ny == 16 {
            1int
        } else {
            0int
        }) + 2 * ny,
    decreases ny,
{
    if ny > 0 {
        lemma_filled_slab_len(c, id, x, ny - 1);
        lemma_filled_row_len(c, id, x, ny - 1, 16);
        let e = edge_faces(x);
        assert(16 * ny * e == 16 * (ny - 1) * e + 16 * e) by (nonlinear_arith);
        assert(slab_faces(c, x, ny) == slab_faces(c, x, ny - 1) + row_faces(c, x, ny - 1, 16));
        assert(row_faces(c, x, ny - 1, 16).len() == 16 * (e + edge_faces(ny - 1)) + 2);
        assert(16 * (e + edge_faces(ny - 1)) == 16 * e + 16 * edge_faces(ny - 1)) by (nonlinear_arith);
    } else {
        assert(16 * ny * edge_faces(x) == 0) by (nonlinear_arith)
            requires
                ny == 0,
        ;
    }
}

/// Prefix face count for a uniformly filled chunk.
proof fn lemma_filled_up_to_len(c: Chunk, id: u32, nx: int)
    requires
        id != 0,
        c.spec_filled(id),
        0 <= nx <= 16,
    ensures
        chunk_faces_up_to(c, nx).len() == 256 * (if nx >= 1 {
            1int
        } else {
            0int
        }) + 256 * (if nx == 16 {
            1int
        } else {
            0int
        }) + 64 * nx,
    decreases nx,
{
    if nx > 0 {
        lemma_filled_up_to_len(c, id, nx - 1);
        lemma_filled_slab_len(c, id, nx - 1, 16);
    }
}

/// A chunk filled uniformly with one non-zero id produces a mesh with
/// exactly six faces per boundary cell layer — `6 * 16 * 16` in all, every
/// one of them on the chunk boundary — and no face strictly interior: a
/// face is visible exactly when its neighbor cell falls outside the chunk.
pub proof fn lemma_filled_chunk_mesh(cat: Catalog, c: Chunk, m: Mesh, id: u32)
    requires
        id != 0,
        c.spec_filled(id),
        mesh_matches(cat, c, m),
    ensures
        chunk_faces(c).len() == 1536,
        m.vertices@.len() == 4 * 1536,
        m.indices@.len() == 6 * 1536,
        m.index_count == 6 * 1536,
        forall|x: int, y: int, z: int, d: Direction|
            #[trigger] spec_visible(c, x, y, z, d) <==> (in_chunk_bounds(x, y, z)
                && !in_chunk_bounds(
                x + dir_offset(d).0,
                y + dir_offset(d).1,
                z + dir_offset(d).2,
            )),
{
    lemma_filled_up_to_len(c, id, 16);
}

/// An all-empty chunk has no visible face at all.
proof fn lemma_empty_row_len(c: Chunk, x: int, y: int, nz: int)
    requires
        c.spec_filled(0),
        0 <= nz,
    ensures
        row_faces(c, x, y, nz).len() == 0,
    decreases nz,
{
    if nz > 0 {
        lemma_empty_row_len(c, x, y, nz - 1);
    }
}

proof fn lemma_empty_slab_len(c: Chunk, x: int, ny: int)
    requires
        c.spec_filled(0),
        0 <= ny,
    ensures
        slab_faces(c, x, ny).len() == 0,
    decreases ny,
{
    if ny > 0 {
        lemma_empty_slab_len(c, x, ny - 1);
        lemma_empty_row_len(c, x, ny - 1, 16);
    }
}

/// An all-empty chunk produces an empty vertex array and an empty index
/// array.
pub proof fn lemma_empty_chunk_mesh(cat: Catalog, c: Chunk, m: Mesh)
    requires
        c.spec_filled(0),
        mesh_matches(cat, c, m),
    ensures
        chunk_faces(c).len() == 0,
        m.vertices@.len() == 0,
        m.indices@.len() == 0,
        m.index_count == 0,
{
    assert forall|nx: int| 0 <= nx <= 16 implies chunk_faces_up_to(c, nx).len() == 0 by {
        lemma_empty_up_to_len(c, nx);
    }
}

proof fn lemma_empty_up_to_len(c: Chunk, nx: int)
    requires
        c.spec_filled(0),
        0 <= nx,
    ensures
        chunk_faces_up_to(c, nx).len() == 0,
    decreases nx,
{
    if nx > 0 {
        lemma_empty_up_to_len(c, nx - 1);
        lemma_empty_slab_len(c, nx - 1, 16);
    }
}

/// Every index value a built mesh holds is strictly below the vertex array
/// length, and the six indices of quad `q` are the quad's winding pattern
/// offset by `4 * q`, so they always group into valid triangles.
pub proof fn lemma_mesh_indices_valid(cat: Catalog, c: Chunk, m: Mesh)
    requires
        mesh_matches(cat, c, m),
    ensures
        forall|i: int| 0 <= i < m.indices@.len() ==> (#[trigger] m.indices@[i]) < m.vertices@.len(),
        forall|q: int|
            0 <= q < chunk_faces(c).len() ==> m.indices@.subrange(6 * q, 6 * q + 6)
                == spec_quad_indices(q, (#[trigger] chunk_faces(c)[q]).3),
{
    let faces = chunk_faces(c);
    lemma_chunk_faces_len(c, 16);
    assert forall|i: int| 0 <= i < m.indices@.len() implies (#[trigger] m.indices@[i])
        < m.vertices@.len() by {
        let q = i / 6;
        let k = i % 6;
        vstd::arithmetic::div_mod::lemma_fundamental_div_mod(i, 6);
        assert(0 <= k < 6);
        assert(0 <= q < faces.len());
        let d = faces[q].3;
        assert(m.indices@.subrange(6 * q, 6 * q + 6) == spec_quad_indices(q, d));
        assert(m.indices@[i] == m.indices@.subrange(6 * q, 6 * q + 6)[k]);
        assert(spec_quad_indices(q, d)[k] == (4 * q + spec_index_pattern(d, k)) as u32);
        assert(0 <= spec_index_pattern(d, k) < 4);
    }
}

} // verus!
