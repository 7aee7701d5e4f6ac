//! Integer 3-vectors and world-to-chunk coordinate conversion.
use vstd::prelude::*;

verus! {

/// An integer point or vector in world space.
#[derive(Clone, Copy, Debug, PartialEq, Eq, Structural)]
pub struct Pos3 {
    pub x: i32,
    pub y: i32,
    pub z: i32,
}

impl Pos3 {
    pub fn new(x: i32, y: i32, z: i32) -> (r: Pos3)
        ensures
            r.x == x && r.y == y && r.z == z,
    {
        Pos3 { x, y, z }
    }
}

/// Rounds `w / 16` to the nearest integer, ties away from zero: the chunk
/// coordinate whose chunk is centered closest to the world coordinate `w`.
pub open spec fn chunk_coord_of(w: int) -> int {
    if w >= 0 {
        (w + 8) / 16
    } else {
        -((-w + 8) / 16)
    }
}

/// One axis of the world-to-chunk conversion.
fn chunk_axis(w: i32) -> (r: i32)
    ensures
        r == chunk_coord_of(w as int),
{
    if w >= 0 {
        (w / 16) + if w % 16 >= 8 { 1 } else { 0 }
    } else {
        let m = if w == i32::MIN { 0x8000_0000u32 } else { (-w) as u32 };
        let q = (m / 16) + if m % 16 >= 8 { 1 } else { 0 };
        proof {
            assert(m == -(w as int));
            assert(q == (-(w as int) + 8) / 16) by {
                assert(m / 16 + (if m % 16 >= 8 { 1int } else { 0int }) == (m + 8) / 16);
            };
            assert(q <= (0x8000_0000u32 + 8) / 16);
        }
        -(q as i32)
    }
}

/// Converts a world coordinate to the coordinate of the chunk that covers it
/// (each chunk covers the half-open cube of edge 16 centered on its anchor).
pub fn get_chunk_position(pos: Pos3) -> (r: Pos3)
    ensures
        r.x == chunk_coord_of(pos.x as int),
        r.y == chunk_coord_of(pos.y as int),
        r.z == chunk_coord_of(pos.z as int),
{
    Pos3 { x: chunk_axis(pos.x), y: chunk_axis(pos.y), z: chunk_axis(pos.z) }
}

} // verus!
