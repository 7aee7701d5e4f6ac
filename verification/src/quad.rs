//! One visible block face as GPU-ready geometry: four vertices and six
//! triangle indices with consistent outward winding.
//!
//! Geometry is held in exact integer form. Positions are world units scaled
//! by two, so a half-unit face offset is the integer one. A texture
//! coordinate `u` is the fraction `tex_u_num / tex_den`, where the
//! denominator is the column count of the texture atlas; `v` is zero or one.
//! The static per-direction light scalar is held in quarters.
use vstd::prelude::*;

use crate::block_types::Catalog;
use crate::direction::Direction;
use crate::direction::dir_ordinal;

verus! {

/// Column count of the block texture atlas: `u` advances in steps of 1/256.
pub const TEXTURE_COLUMNS: u64 = 256;

/// Column count of the sky texture atlas: `u` advances in steps of 1/6.
pub const SKY_COLUMNS: u64 = 6;

/// The largest quad ordinal whose six indices still fit in `u32`.
pub const MAX_QUAD_INDEX: u32 = 1073741823;

/// Positions within this bound survive the one-half-unit face offsets.
pub const COORD_LIMIT: i64 = 0x4000_0000_0000_0000;

/// One mesh vertex: a position in half-units, a texture coordinate
/// `(tex_u_num / tex_den, tex_v)`, and a light scalar in quarters.
#[derive(Clone, Copy, Debug, PartialEq)]
pub struct Vertex {
    pub position: [i64; 3],
    pub tex_u_num: u64,
    pub tex_den: u64,
    pub tex_v: u32,
    pub light: u8,
}

/// One face: four vertices and six indices forming two triangles.
#[derive(Clone, Copy, Debug, PartialEq)]
pub struct Quad {
    pub vertices: [Vertex; 4],
    pub indices: [u32; 6],
}

/// The static light level of a face, in quarters: top faces brightest,
/// bottom faces darkest. Unlit quads get full brightness.
pub open spec fn spec_light(d: Direction, lighting: bool) -> u8 {
    if lighting {
        match d {
            Direction::UP => 4,
            Direction::DOWN => 1,
            Direction::NORTH => 2,
            Direction::SOUTH => 2,
            Direction::WEST => 3,
            Direction::EAST => 1,
        }
    } else {
        4
    }
}

/// Whether a direction uses forward triangle order; the opposite faces use
/// the backward order so the outward normal stays consistent.
pub open spec fn winds_forward(d: Direction) -> bool {
    match d {
        Direction::UP => true,
        Direction::DOWN => false,
        Direction::NORTH => true,
        Direction::SOUTH => false,
        Direction::WEST => true,
        Direction::EAST => false,
    }
}

/// The six index offsets of a quad, before the `4 * ordinal` shift:
/// `[0,1,2,2,1,3]` forward, `[2,1,0,3,1,2]` backward.
pub open spec fn spec_index_pattern(d: Direction, k: int) -> int {
    if winds_forward(d) {
        if k == 0 {
            0
        } else if k == 1 {
            1
        } else if k == 2 {
            2
        } else if k == 3 {
            2
        } else if k == 4 {
            1
        } else {
            3
        }
    } else {
        if k == 0 {
            2
        } else if k == 1 {
            1
        } else if k == 2 {
            0
        } else if k == 3 {
            3
        } else if k == 4 {
            1
        } else {
            2
        }
    }
}

/// The six indices of the quad with the given emission ordinal.
pub open spec fn spec_quad_indices(index: int, d: Direction) -> Seq<u32> {
    Seq::new(6, |k: int| (4 * index + spec_index_pattern(d, k)) as u32)
}

/// The four vertices of a quad centered on `p` (in half-units), facing `d`,
/// with texture span `[u0/den, u1/den]`.
pub open spec fn spec_quad_vertices(
    u0: u64,
    u1: u64,
    den: u64,
    d: Direction,
    p: (int, int, int),
    lighting: bool,
) -> Seq<Vertex> {
    let light = spec_light(d, lighting);
    match d {
        Direction::UP | Direction::DOWN => seq![
            Vertex {
                position: [(p.0 - 1) as i64, p.1 as i64, (p.2 + 1) as i64],
                tex_u_num: u0,
                tex_den: den,
                tex_v: 1,
                light,
            },
            Vertex {
                position: [(p.0 + 1) as i64, p.1 as i64, (p.2 + 1) as i64],
                tex_u_num: u1,
                tex_den: den,
                tex_v: 1,
                light,
            },
            Vertex {
                position: [(p.0 - 1) as i64, p.1 as i64, (p.2 - 1) as i64],
                tex_u_num: u0,
                tex_den: den,
                tex_v: 0,
                light,
            },
            Vertex {
                position: [(p.0 + 1) as i64, p.1 as i64, (p.2 - 1) as i64],
                tex_u_num: u1,
                tex_den: den,
                tex_v: 0,
                light,
            },
        ],
        Direction::NORTH | Direction::SOUTH => seq![
            Vertex {
                position: [(p.0 - 1) as i64, (p.1 + 1) as i64, p.2 as i64],
                tex_u_num: u1,
                tex_den: den,
                tex_v: 0,
                light,
            },
            Vertex {
                position: [(p.0 + 1) as i64, (p.1 + 1) as i64, p.2 as i64],
                tex_u_num: u0,
                tex_den: den,
                tex_v: 0,
                light,
            },
            Vertex {
                position: [(p.0 - 1) as i64, (p.1 - 1) as i64, p.2 as i64],
                tex_u_num: u1,
                tex_den: den,
                tex_v: 1,
                light,
            },
            Vertex {
                position: [(p.0 + 1) as i64, (p.1 - 1) as i64, p.2 as i64],
                tex_u_num: u0,
                tex_den: den,
                tex_v: 1,
                light,
            },
        ],
        Direction::WEST | Direction::EAST => seq![
            Vertex {
                position: [p.0 as i64, (p.1 + 1) as i64, (p.2 - 1) as i64],
                tex_u_num: u1,
                tex_den: den,
                tex_v: 0,
                light,
            },
            Vertex {
                position: [p.0 as i64, (p.1 + 1) as i64, (p.2 + 1) as i64],
                tex_u_num: u0,
                tex_den: den,
                tex_v: 0,
                light,
            },
            Vertex {
                position: [p.0 as i64, (p.1 - 1) as i64, (p.2 - 1) as i64],
                tex_u_num: u1,
                tex_den: den,
                tex_v: 1,
                light,
            },
            Vertex {
                position: [p.0 as i64, (p.1 - 1) as i64, (p.2 + 1) as i64],
                tex_u_num: u0,
                tex_den: den,
                tex_v: 1,
                light,
            },
        ],
    }
}

/// Whether each position component is safely inside the coordinate limit.
pub open spec fn position_in_limit(p: (int, int, int)) -> bool {
    &&& -0x4000_0000_0000_0000 < p.0 < 0x4000_0000_0000_0000
    &&& -0x4000_0000_0000_0000 < p.1 < 0x4000_0000_0000_0000
    &&& -0x4000_0000_0000_0000 < p.2 < 0x4000_0000_0000_0000
}

/// Builds one quad from an explicit texture span: four vertices from the
/// direction's position template and six indices from its winding, shifted
/// by `4 * index` so they address the combined buffer.
pub fn quad(
    u0_num: u64,
    u1_num: u64,
    u_den: u64,
    index: u32,
    direction: Direction,
    position: [i64; 3],
    lighting: bool,
) -> (r: Quad)
    requires
        index <= MAX_QUAD_INDEX,
        position_in_limit((position[0] as int, position[1] as int, position[2] as int)),
    ensures
        r.vertices@ == spec_quad_vertices(
            u0_num,
            u1_num,
            u_den,
            direction,
            (position[0] as int, position[1] as int, position[2] as int),
            lighting,
        ),
        r.indices@ == spec_quad_indices(index as int, direction),
{
    let light: u8 = if lighting {
        match direction {
            Direction::UP => 4,
            Direction::DOWN => 1,
            Direction::NORTH => 2,
            Direction::SOUTH => 2,
            Direction::WEST => 3,
            Direction::EAST => 1,
        }
    } else {
        4
    };
    let base: u32 = index * 4;
    let indices_f: [u32; 6] = [base, base + 1, base + 2, base + 2, base + 1, base + 3];
    let indices_b: [u32; 6] = [base + 2, base + 1, base, base + 3, base + 1, base + 2];
    let px = position[0];
    let py = position[1];
    let pz = position[2];

    let vertices = match direction {
        Direction::UP | Direction::DOWN => [
            Vertex {
                position: [px - 1, py, pz + 1],
                tex_u_num: u0_num,
                tex_den: u_den,
                tex_v: 1,
                light,
            },
            Vertex {
                position: [px + 1, py, pz + 1],
                tex_u_num: u1_num,
                tex_den: u_den,
                tex_v: 1,
                light,
            },
            Vertex {
                position: [px - 1, py, pz - 1],
                tex_u_num: u0_num,
                tex_den: u_den,
                tex_v: 0,
                light,
            },
            Vertex {
                position: [px + 1, py, pz - 1],
                tex_u_num: u1_num,
                tex_den: u_den,
                tex_v: 0,
                light,
            },
        ],
        Direction::NORTH | Direction::SOUTH => [
            Vertex {
                position: [px - 1, py + 1, pz],
                tex_u_num: u1_num,
                tex_den: u_den,
                tex_v: 0,
                light,
            },
            Vertex {
                position: [px + 1, py + 1, pz],
                tex_u_num: u0_num,
                tex_den: u_den,
                tex_v: 0,
                light,
            },
            Vertex {
                position: [px - 1, py - 1, pz],
                tex_u_num: u1_num,
                tex_den: u_den,
                tex_v: 1,
                light,
            },
            Vertex {
                position: [px + 1, py - 1, pz],
                tex_u_num: u0_num,
                tex_den: u_den,
                tex_v: 1,
                light,
            },
        ],
        Direction::WEST | Direction::EAST => [
            Vertex {
                position: [px, py + 1, pz - 1],
                tex_u_num: u1_num,
                tex_den: u_den,
                tex_v: 0,
                light,
            },
            Vertex {
                position: [px, py + 1, pz + 1],
                tex_u_num: u0_num,
                tex_den: u_den,
                tex_v: 0,
                light,
            },
            Vertex {
                position: [px, py - 1, pz - 1],
                tex_u_num: u1_num,
                tex_den: u_den,
                tex_v: 1,
                light,
            },
            Vertex {
                position: [px, py - 1, pz + 1],
                tex_u_num: u0_num,
                tex_den: u_den,
                tex_v: 1,
                light,
            },
        ],
    };

    let indices = match direction {
        Direction::UP => indices_f,
        Direction::DOWN => indices_b,
        Direction::NORTH => indices_f,
        Direction::SOUTH => indices_b,
        Direction::WEST => indices_f,
        Direction::EAST => indices_b,
    };
    let r = Quad { vertices, indices };
    proof {
        assert(r.vertices@ =~= spec_quad_vertices(
            u0_num,
            u1_num,
            u_den,
            direction,
            (position[0] as int, position[1] as int, position[2] as int),
            lighting,
        ));
        assert(r.indices@ =~= spec_quad_indices(index as int, direction));
    }
    r
}

/// The four vertices of a block face: the texture span comes from the
/// catalog record of the face's block type and the atlas column count.
pub open spec fn spec_block_quad_vertices(
    cat: Catalog,
    id: u32,
    d: Direction,
    p: (int, int, int),
) -> Seq<Vertex> {
    let t = cat.spec_lookup(id as int)->Some_0.textures@[dir_ordinal(d)];
    spec_quad_vertices(t as u64, (t + 1) as u64, 256, d, p, true)
}

/// Builds the quad of one visible block face, reading the texture-atlas
/// index of the block type and the face direction from the catalog.
pub fn block_quad(catalog: &Catalog, id: u32, index: u32, direction: Direction, position: [i64; 3]) -> (r:
    Quad)
    requires
        catalog.spec_registered(id as int),
        index <= MAX_QUAD_INDEX,
        position_in_limit((position[0] as int, position[1] as int, position[2] as int)),
    ensures
        r.vertices@ == spec_block_quad_vertices(
            *catalog,
            id,
            direction,
            (position[0] as int, position[1] as int, position[2] as int),
        ),
        r.indices@ == spec_quad_indices(index as int, direction),
{
    let block_type = catalog.get(id);
    let text_id = block_type.get_texture(direction);
    let text_0: u64 = text_id as u64;
    let text_1: u64 = text_id as u64 + 1;
    quad(text_0, text_1, TEXTURE_COLUMNS, index, direction, position, true)
}

/// The four vertices of a sky-box face: the texture span comes from the
/// direction's own ordinal in the six-column sky atlas.
pub open spec fn spec_sky_quad_vertices(d: Direction, p: (int, int, int)) -> Seq<Vertex> {
    spec_quad_vertices(
        dir_ordinal(d) as u64,
        (dir_ordinal(d) + 1) as u64,
        6,
        d,
        p,
        false,
    )
}

/// Builds one sky-box face: its texture column is the direction's ordinal,
/// and it carries full brightness.
pub fn sky_quad(index: u32, direction: Direction, position: [i64; 3]) -> (r: Quad)
    requires
        index <= MAX_QUAD_INDEX,
        position_in_limit((position[0] as int, position[1] as int, position[2] as int)),
    ensures
        r.vertices@ == spec_sky_quad_vertices(
            direction,
            (position[0] as int, position[1] as int, position[2] as int),
        ),
        r.indices@ == spec_quad_indices(index as int, direction),
{
    let id = direction.get_id();
    let text_0: u64 = id as u64;
    let text_1: u64 = id as u64 + 1;
    quad(text_0, text_1, SKY_COLUMNS, index, direction, position, false)
}

} // verus!
