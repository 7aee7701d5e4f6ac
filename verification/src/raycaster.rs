//! Incremental ray march against the chunk manager: find the first
//! non-empty block along a ray.
//!
//! The march works in exact fixed-point arithmetic: positions are world
//! units scaled by `RAY_SCALE`. The direction is normalized with an integer
//! square root, the sample position advances in fixed-length increments up
//! to the maximum distance, and each sample is rounded to the nearest block
//! coordinate (ties round up) and looked up in the world. This is a
//! fixed-step search, not an exact voxel traversal: a step longer than a
//! feature can miss it. A zero-length direction returns no hit.
use vstd::prelude::*;

use crate::chunk_manager::ChunkManager;
use crate::math::Pos3;

verus! {

/// Fixed-point scale of ray positions: units per world block edge.
pub const RAY_SCALE: i64 = 1000;

/// The first non-empty block a ray march found: the exact fixed-point
/// sample position and the block's id.
#[derive(Clone, Copy, Debug, PartialEq)]
pub struct BlockRayHit {
    pub position: [i64; 3],
    pub block: u32,
}

/// Whether `r` is the integer square root of `n`.
pub open spec fn is_isqrt(n: int, r: int) -> bool {
    0 <= r && r * r <= n && n < (r + 1) * (r + 1)
}

/// The integer square root of a nonnegative number.
pub open spec fn spec_isqrt(n: int) -> int {
    choose|r: int| is_isqrt(n, r)
}

/// The integer square root is unique.
pub proof fn lemma_isqrt_unique(n: int, r1: int, r2: int)
    requires
        is_isqrt(n, r1),
        is_isqrt(n, r2),
    ensures
        r1 == r2,
{
    assert(r1 == r2) by (nonlinear_arith)
        requires
            0 <= r1 && r1 * r1 <= n && n < (r1 + 1) * (r1 + 1),
            0 <= r2 && r2 * r2 <= n && n < (r2 + 1) * (r2 + 1),
    ;
}

/// The integer square root, by binary search.
fn isqrt(n: u64) -> (r: u64)
    ensures
        is_isqrt(n as int, r as int),
        r == spec_isqrt(n as int),
{
    let mut lo: u64 = 0;
    let mut hi: u64 = 4294967296;
    proof {
        assert((n as int) < 4294967296int * 4294967296int);
    }
    while lo + 1 < hi
        invariant
            lo < hi <= 4294967296,
            (lo as int) * (lo as int) <= n as int,
            (n as int) < (hi as int) * (hi as int),
        decreases hi - lo,
    {
        let mid: u64 = lo + (hi - lo) / 2;
        proof {
            assert(mid * mid <= 4294967295u64 * 4294967295u64) by (nonlinear_arith)
                requires
                    mid <= 4294967295u64,
            ;
        }
        if mid * mid <= n {
            lo = mid;
        } else {
            hi = mid;
        }
    }
    proof {
        lemma_isqrt_unique(n as int, lo as int, spec_isqrt(n as int));
    }
    lo
}

/// Floor division: rounds the quotient toward negative infinity, matching
/// the mathematical division of the contracts.
fn div_floor(a: i64, b: i64) -> (r: i64)
    requires
        0 < b <= 10_000_000_000,
        -1_000_000_000_000_000 <= a <= 1_000_000_000_000_000,
    ensures
        r as int == (a as int) / (b as int),
{
    if a >= 0 {
        ((a as u64) / (b as u64)) as i64
    } else {
        let m: u64 = (-a) as u64;
        let q: u64 = (m + (b as u64) - 1) / (b as u64);
        proof {
            lemma_neg_ceil_div(m as int, b as int);
        }
        -(q as i64)
    }
}

/// For positive `b`, `-ceil(m / b) == floor(-m / b)`.
proof fn lemma_neg_ceil_div(m: int, b: int)
    requires
        m >= 0,
        b > 0,
    ensures
        -((m + b - 1) / b) == (-m) / b,
{
    vstd::arithmetic::div_mod::lemma_fundamental_div_mod(m + b - 1, b);
    vstd::arithmetic::div_mod::lemma_fundamental_div_mod(-m, b);
    let q1 = (m + b - 1) / b;
    let q2 = (-m) / b;
    assert(b * q1 + ((m + b - 1) % b) == m + b - 1);
    assert(b * q2 + ((-m) % b) == -m);
    assert(0 <= (m + b - 1) % b < b);
    assert(0 <= (-m) % b < b);
    assert(b * (q1 + q2) == b * q1 + b * q2) by (nonlinear_arith);
    assert(b * (q1 + q2) == (m + b - 1) - ((m + b - 1) % b) - m - ((-m) % b));
    assert(-2 * b < b * (q1 + q2) < b);
    assert(q1 + q2 == 0 || q1 + q2 == -1) by (nonlinear_arith)
        requires
            b > 0,
            -2 * b < b * (q1 + q2) < b,
    ;
    if q1 + q2 == -1 {
        assert(b * (q1 + q2) == -b);
        assert(((m + b - 1) % b) + ((-m) % b) == b - 1 + b);
        assert(false);
    }
}

/// The fixed-point coordinates of a sample point as mathematical integers.
pub open spec fn pt(p: [i64; 3]) -> (int, int, int) {
    (p[0] as int, p[1] as int, p[2] as int)
}

/// The squared fixed-point length of the segment from `s` to `e`.
pub open spec fn spec_len2(s: (int, int, int), e: (int, int, int)) -> int {
    (e.0 - s.0) * (e.0 - s.0) + (e.1 - s.1) * (e.1 - s.1) + (e.2 - s.2) * (e.2 - s.2)
}

/// The normalized march direction: the delta from `s` to `e`, scaled by
/// `RAY_SCALE` and divided by the segment's fixed-point length, so one
/// whole step of it advances close to one world unit.
pub open spec fn spec_ray_dir(s: (int, int, int), e: (int, int, int)) -> (int, int, int) {
    let len = spec_isqrt(spec_len2(s, e));
    ((1000 * (e.0 - s.0)) / len, (1000 * (e.1 - s.1)) / len, (1000 * (e.2 - s.2)) / len)
}

/// The fixed-point position of the `k`-th sample along the march.
pub open spec fn spec_sample(s: (int, int, int), dir: (int, int, int), step: int, k: int) -> (
    int,
    int,
    int,
) {
    (
        s.0 + (k * step * dir.0) / 1000,
        s.1 + (k * step * dir.1) / 1000,
        s.2 + (k * step * dir.2) / 1000,
    )
}

/// The block coordinate the `k`-th sample rounds to (nearest, ties up).
pub open spec fn spec_sample_block(
    s: (int, int, int),
    dir: (int, int, int),
    step: int,
    k: int,
) -> Pos3 {
    let p = spec_sample(s, dir, step, k);
    Pos3 {
        x: ((p.0 + 500) / 1000) as i32,
        y: ((p.1 + 500) / 1000) as i32,
        z: ((p.2 + 500) / 1000) as i32,
    }
}

/// Whether the `k`-th sample is taken before the march exhausts its
/// maximum distance.
pub open spec fn in_march_range(step: int, max_distance: int, k: int) -> bool {
    1 <= k && (k - 1) * step < max_distance
}

/// Whether the world shows a non-empty block at the `k`-th sample.
pub open spec fn spec_hit_at(
    m: ChunkManager,
    s: (int, int, int),
    dir: (int, int, int),
    step: int,
    k: int,
) -> bool {
    m.spec_world_block(spec_sample_block(s, dir, step, k)) != 0
}

/// Whether the `k`-th sample is the first hit of the march.
pub open spec fn is_first_hit(
    m: ChunkManager,
    s: (int, int, int),
    dir: (int, int, int),
    step: int,
    max_distance: int,
    k: int,
) -> bool {
    &&& in_march_range(step, max_distance, k)
    &&& spec_hit_at(m, s, dir, step, k)
    &&& forall|j: int| 1 <= j < k ==> !spec_hit_at(m, s, dir, step, j)
}

/// The coordinate and step bounds within which the march's arithmetic is
/// exact.
pub open spec fn ray_input_ok(start: [i64; 3], end: [i64; 3], step: i64, max_distance: i64) -> bool {
    &&& forall|i: int| 0 <= i < 3 ==> -1_000_000_000 <= #[trigger] start[i] <= 1_000_000_000
    &&& forall|i: int| 0 <= i < 3 ==> -1_000_000_000 <= #[trigger] end[i] <= 1_000_000_000
    &&& 0 < step <= 1_000_000
    &&& 0 < max_distance <= 1_000_000_000
}

/// Marches from `start` toward `end` in fixed-length increments, querying
/// the world at each sample's rounded block coordinate, and returns the
/// first non-empty block found within the maximum distance, with the exact
/// sample position; `None` when the march exhausts the distance, and
/// always `None` for a zero-length direction.
pub fn block_ray(
    chunk_manager: &ChunkManager,
    start: [i64; 3],
    end: [i64; 3],
    step: i64,
    max_distance: i64,
) -> (r: Option<BlockRayHit>)
    requires
        chunk_manager.well_formed(),
        ray_input_ok(start, end, step, max_distance),
    ensures
        pt(start) == pt(end) ==> r is None,
        pt(start) != pt(end) ==> match r {
            None => forall|k: int|
                in_march_range(step as int, max_distance as int, k) ==> !spec_hit_at(
                    *chunk_manager,
                    pt(start),
                    spec_ray_dir(pt(start), pt(end)),
                    step as int,
                    k,
                ),
            Some(h) => h.block != 0 && exists|k: int|
                #[trigger] is_first_hit(
                    *chunk_manager,
                    pt(start),
                    spec_ray_dir(pt(start), pt(end)),
                    step as int,
                    max_distance as int,
                    k,
                ) && pt(h.position) == spec_sample(
                    pt(start),
                    spec_ray_dir(pt(start), pt(end)),
                    step as int,
                    k,
                ) && h.block == chunk_manager.spec_world_block(
                    spec_sample_block(pt(start), spec_ray_dir(pt(start), pt(end)), step as int, k),
                ),
        },
{
    let ghost s = pt(start);
    let ghost e = pt(end);
    proof {
        assert(-1_000_000_000 <= start[0] <= 1_000_000_000 && -1_000_000_000 <= start[1]
            <= 1_000_000_000 && -1_000_000_000 <= start[2] <= 1_000_000_000);
        assert(-1_000_000_000 <= end[0] <= 1_000_000_000 && -1_000_000_000 <= end[1]
            <= 1_000_000_000 && -1_000_000_000 <= end[2] <= 1_000_000_000);
    }
    let dx = end[0] - start[0];
    let dy = end[1] - start[1];
    let dz = end[2] - start[2];
    if dx == 0 && dy == 0 && dz == 0 {
        return None;
    }
    proof {
        lemma_square_bound(dx as int);
        lemma_square_bound(dy as int);
        lemma_square_bound(dz as int);
    }
    let len2: u64 = ((dx * dx) as u64) + ((dy * dy) as u64) + ((dz * dz) as u64);
    let len: u64 = isqrt(len2);
    proof {
        assert(len2 as int == spec_len2(s, e));
        assert(len2 >= 1);
        assert(len >= 1) by (nonlinear_arith)
            requires
                len2 >= 1,
                len >= 0,
                (len2 as int) < (len as int + 1) * (len as int + 1),
        ;
        assert(len <= 4_000_000_000) by (nonlinear_arith)
            requires
                (len as int) * (len as int) <= len2 as int,
                len2 <= 12_000_000_000_000_000_000u64,
        ;
        lemma_axis_within_len(dx as int, len2 as int, len as int);
        lemma_axis_within_len(dy as int, len2 as int, len as int);
        lemma_axis_within_len(dz as int, len2 as int, len as int);
    }
    let dirx = div_floor(1000 * dx, len as i64);
    let diry = div_floor(1000 * dy, len as i64);
    let dirz = div_floor(1000 * dz, len as i64);
    proof {
        lemma_dir_bounded(dx as int, len as int);
        lemma_dir_bounded(dy as int, len as int);
        lemma_dir_bounded(dz as int, len as int);
        assert((dirx as int, diry as int, dirz as int) == spec_ray_dir(s, e));
    }
    let ghost dir = (dirx as int, diry as int, dirz as int);
    let mut current_offset: i64 = 0;
    let ghost mut k: int = 0;
    while current_offset < max_distance
        invariant
            chunk_manager.well_formed(),
            ray_input_ok(start, end, step, max_distance),
            s == pt(start),
            e == pt(end),
            s != e,
            dir == spec_ray_dir(s, e),
            -1000 <= dirx as int <= 1000 && -1000 <= diry as int <= 1000 && -1000 <= dirz as int
                <= 1000,
            dir == (dirx as int, diry as int, dirz as int),
            0 < step as int <= 1_000_000,
            0 < max_distance as int <= 1_000_000_000,
            0 <= k,
            current_offset as int == k * (step as int),
            0 <= current_offset <= max_distance as int + step as int,
            forall|j: int| 1 <= j <= k ==> !spec_hit_at(*chunk_manager, s, dir, step as int, j),
        decreases max_distance + step - current_offset,
    {
        proof {
            assert((k + 1) * (step as int) == k * (step as int) + step as int) by (nonlinear_arith);
        }
        current_offset = current_offset + step;
        proof {
            k = k + 1;
        }
        proof {
            assert(-1_000_000_000 <= start[0] <= 1_000_000_000 && -1_000_000_000 <= start[1]
                <= 1_000_000_000 && -1_000_000_000 <= start[2] <= 1_000_000_000);
            lemma_offset_product_bound(current_offset as int, dirx as int);
            lemma_offset_product_bound(current_offset as int, diry as int);
            lemma_offset_product_bound(current_offset as int, dirz as int);
        }
        let sx = start[0] + div_floor(current_offset * dirx, 1000);
        let sy = start[1] + div_floor(current_offset * diry, 1000);
        let sz = start[2] + div_floor(current_offset * dirz, 1000);
        proof {
            assert(sx as int == spec_sample(s, dir, step as int, k).0);
            assert(sy as int == spec_sample(s, dir, step as int, k).1);
            assert(sz as int == spec_sample(s, dir, step as int, k).2);
        }
        let bx = div_floor(sx + 500, 1000) as i32;
        let by = div_floor(sy + 500, 1000) as i32;
        let bz = div_floor(sz + 500, 1000) as i32;
        let ghost bp = spec_sample_block(s, dir, step as int, k);
        proof {
            assert(bp == Pos3 { x: bx, y: by, z: bz });
        }
        let block = chunk_manager.get_block(Pos3 { x: bx, y: by, z: bz });
        if block != 0 {
            proof {
                assert(spec_hit_at(*chunk_manager, s, dir, step as int, k));
                assert(is_first_hit(
                    *chunk_manager,
                    s,
                    dir,
                    step as int,
                    max_distance as int,
                    k,
                ));
            }
            return Some(BlockRayHit { position: [sx, sy, sz], block });
        }
        proof {
            assert(!spec_hit_at(*chunk_manager, s, dir, step as int, k));
        }
    }
    proof {
        assert forall|j: int|
            in_march_range(step as int, max_distance as int, j) implies !spec_hit_at(
            *chunk_manager,
            s,
            dir,
            step as int,
            j,
        ) by {
            if j > k {
                assert((j - 1) * (step as int) >= k * (step as int)) by (nonlinear_arith)
                    requires
                        j - 1 >= k,
                        step as int > 0,
                ;
                assert(false);
            }
        }
    }
    None
}

/// A delta of two coordinates in range squares to a value a `u64` holds.
proof fn lemma_square_bound(d: int)
    requires
        -2_000_000_000 <= d <= 2_000_000_000,
    ensures
        0 <= d * d <= 4_000_000_000_000_000_000,
        d != 0 ==> 1 <= d * d,
{
    assert(0 <= d * d <= 4_000_000_000_000_000_000 && (d != 0 ==> 1 <= d * d)) by (
    nonlinear_arith)
        requires
            -2_000_000_000 <= d <= 2_000_000_000,
    ;
}

/// An offset within the march times a normalized direction component stays
/// far inside the exact range.
proof fn lemma_offset_product_bound(offset: int, d: int)
    requires
        0 <= offset <= 2_000_000_000,
        -1000 <= d <= 1000,
    ensures
        -2_000_000_000_000 <= offset * d <= 2_000_000_000_000,
{
    assert(-2_000_000_000_000 <= offset * d <= 2_000_000_000_000) by (nonlinear_arith)
        requires
            0 <= offset <= 2_000_000_000,
            -1000 <= d <= 1000,
    ;
}

/// Each axis delta of a segment is bounded by the segment's length.
proof fn lemma_axis_within_len(d: int, len2: int, len: int)
    requires
        d * d <= len2,
        is_isqrt(len2, len),
    ensures
        -len <= d <= len,
{
    assert(-len <= d <= len) by (nonlinear_arith)
        requires
            d * d <= len2,
            0 <= len,
            len2 < (len + 1) * (len + 1),
    ;
}

/// A normalized direction component is at most the scale in magnitude.
proof fn lemma_dir_bounded(d: int, len: int)
    requires
        len >= 1,
        -len <= d <= len,
    ensures
        -1000 <= (1000 * d) / len <= 1000,
{
    assert(-1000 * len <= 1000 * d <= 1000 * len) by (nonlinear_arith)
        requires
            len >= 1,
            -len <= d <= len,
    ;
    vstd::arithmetic::div_mod::lemma_div_is_ordered(1000 * d, 1000 * len, len);
    vstd::arithmetic::div_mod::lemma_div_is_ordered(-1000 * len, 1000 * d, len);
    assert((1000 * len) / len == 1000) by (nonlinear_arith)
        requires
            len >= 1,
    ;
    assert((-1000 * len) / len == -1000) by (nonlinear_arith)
        requires
            len >= 1,
    ;
}

} // verus!
