//! The sky box: six inward-facing quads around a center point, one per
//! direction, each textured from the six-column sky atlas.
use vstd::prelude::*;

use crate::chunk_builder::Mesh;
use crate::direction::Direction;
use crate::direction::dir_of;
use crate::quad::Quad;
use crate::quad::sky_quad;
use crate::quad::spec_quad_indices;
use crate::quad::spec_sky_quad_vertices;

verus! {

/// The center of the sky quad with ordinal `q`, in half-units: one
/// half-unit in from the box center, opposite the quad's direction, so
/// every face looks inward.
pub open spec fn sky_face_center(p: (int, int, int), q: int) -> (int, int, int) {
    if q == 0 {
        (p.0, p.1 - 1, p.2)
    } else if q == 1 {
        (p.0, p.1 + 1, p.2)
    } else if q == 2 {
        (p.0, p.1, p.2 + 1)
    } else if q == 3 {
        (p.0, p.1, p.2 - 1)
    } else if q == 4 {
        (p.0 - 1, p.1, p.2)
    } else {
        (p.0 + 1, p.1, p.2)
    }
}

/// Whether `m` is exactly the sky-box mesh centered on `p`: six quads in
/// direction-ordinal order, each with the sky texture column of its
/// direction and indices offset by four times its ordinal.
pub open spec fn sky_mesh_matches(p: (int, int, int), m: Mesh) -> bool {
    &&& m.vertices@.len() == 24
    &&& m.indices@.len() == 36
    &&& m.index_count == 36
    &&& forall|q: int|
        0 <= q < 6 ==> m.vertices@.subrange(4 * q, 4 * q + 4) == spec_sky_quad_vertices(
            #[trigger] dir_of(q),
            sky_face_center(p, q),
        )
    &&& forall|q: int|
        0 <= q < 6 ==> m.indices@.subrange(6 * q, 6 * q + 6) == spec_quad_indices(
            q,
            #[trigger] dir_of(q),
        )
}

/// Builds the sky box around a center given in half-units.
pub fn build(pos: [i64; 3]) -> (m: Mesh)
    requires
        -0x2000_0000_0000_0000 < pos[0] < 0x2000_0000_0000_0000,
        -0x2000_0000_0000_0000 < pos[1] < 0x2000_0000_0000_0000,
        -0x2000_0000_0000_0000 < pos[2] < 0x2000_0000_0000_0000,
    ensures
        sky_mesh_matches((pos[0] as int, pos[1] as int, pos[2] as int), m),
{
    let ghost p = (pos[0] as int, pos[1] as int, pos[2] as int);
    let px = pos[0];
    let py = pos[1];
    let pz = pos[2];
    let quads: [Quad; 6] = [
        sky_quad(0, Direction::UP, [px, py - 1, pz]),
        sky_quad(1, Direction::DOWN, [px, py + 1, pz]),
        sky_quad(2, Direction::NORTH, [px, py, pz + 1]),
        sky_quad(3, Direction::SOUTH, [px, py, pz - 1]),
        sky_quad(4, Direction::WEST, [px - 1, py, pz]),
        sky_quad(5, Direction::EAST, [px + 1, py, pz]),
    ];
    let mut vertices: Vec<crate::quad::Vertex> = Vec::new();
    let mut indices: Vec<u32> = Vec::new();
    let mut qi: usize = 0;
    while qi < 6
        invariant
            qi <= 6,
            vertices@.len() == 4 * qi,
            indices@.len() == 6 * qi,
            forall|q: int|
                0 <= q < 6 ==> (#[trigger] quads[q]).vertices@ == spec_sky_quad_vertices(
                    dir_of(q),
                    sky_face_center(p, q),
                ) && quads[q].indices@ == spec_quad_indices(q, dir_of(q)),
            forall|j: int|
                0 <= j < qi ==> vertices@.subrange(4 * j, 4 * j + 4) == (
                #[trigger] quads[j]).vertices@,
            forall|j: int|
                0 <= j < qi ==> indices@.subrange(6 * j, 6 * j + 6) == (
                #[trigger] quads[j]).indices@,
        decreases 6 - qi,
    {
        let ghost vpre = vertices@;
        let ghost ipre = indices@;
        let q = quads[qi];
        vertices.push(q.vertices[0]);
        vertices.push(q.vertices[1]);
        vertices.push(q.vertices[2]);
        vertices.push(q.vertices[3]);
        indices.push(q.indices[0]);
        indices.push(q.indices[1]);
        indices.push(q.indices[2]);
        indices.push(q.indices[3]);
        indices.push(q.indices[4]);
        indices.push(q.indices[5]);
        proof {
            assert forall|j: int| 0 <= j < qi + 1 implies vertices@.subrange(4 * j, 4 * j + 4) == (
            #[trigger] quads[j]).vertices@ by {
                if j < qi {
                    assert(vertices@.subrange(4 * j, 4 * j + 4) =~= vpre.subrange(
                        4 * j,
                        4 * j + 4,
                    ));
                } else {
                    assert(vertices@.subrange(4 * j, 4 * j + 4) =~= q.vertices@);
                }
            }
            assert forall|j: int| 0 <= j < qi + 1 implies indices@.subrange(6 * j, 6 * j + 6) == (
            #[trigger] quads[j]).indices@ by {
                if j < qi {
                    assert(indices@.subrange(6 * j, 6 * j + 6) =~= ipre.subrange(6 * j, 6 * j + 6));
                } else {
                    assert(indices@.subrange(6 * j, 6 * j + 6) =~= q.indices@);
                }
            }
        }
        qi = qi + 1;
    }
    let index_count: u32 = indices.len() as u32;
    Mesh { vertices, indices, index_count }
}

} // verus!
