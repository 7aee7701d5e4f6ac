use noise::NoiseFn;
use noise::Perlin;
use voxel_world::Chunk;
use voxel_world::ChunkManager;
use voxel_world::Pos3;
use voxel_world::block_ray;

/// The solidity mask of one chunk, sampled from a seeded coherent-noise
/// field at the jittered, scaled world coordinate of each cell, in flat
/// cell order.
fn sample_mask(seed: u32, coord: Pos3) -> Vec<bool> {
    let perlin = Perlin::new(seed);
    let mut mask = Vec::with_capacity(4096);
    for x in 0..16 {
        for y in 0..16 {
            for z in 0..16 {
                let sample = perlin.get([
                    ((x as f64 + 0.4) + (coord.x * 16) as f64) / 10.0,
                    ((y as f64 + 0.7) + (coord.y * 16) as f64) / 10.0,
                    ((z as f64 + 0.8) + (coord.z * 16) as f64) / 10.0,
                ]);
                mask.push(sample > 0.15);
            }
        }
    }
    mask
}

#[test]
fn manager_add_get_remove() {
    let mut manager = ChunkManager::new();
    assert_eq!(manager.get_chunk_count(), 0);
    let a = manager.add_chunk(Chunk::new_filled(Pos3::new(0, 0, 0), 1));
    let b = manager.add_chunk(Chunk::new_filled(Pos3::new(1, 0, 0), 2));
    assert_eq!(a, 0);
    assert_eq!(b, 1);
    assert_eq!(manager.get_chunk_count(), 2);
    assert_eq!(manager.get_chunk(1).position, Pos3::new(16, 0, 0));
    manager.remove_chunk(0);
    assert_eq!(manager.get_chunk_count(), 1);
    assert_eq!(manager.get_chunk(0).position, Pos3::new(16, 0, 0));
}

#[test]
fn chunk_lookup_by_world_point_respects_boxes() {
    let mut manager = ChunkManager::new();
    manager.add_chunk(Chunk::new_filled(Pos3::new(0, 0, 0), 1));
    manager.add_chunk(Chunk::new_filled(Pos3::new(1, 0, 0), 2));
    // The chunk at coordinate 0 covers [-8, 8); at coordinate 1, [8, 24).
    assert_eq!(manager.get_pos_chunk(Pos3::new(7, 0, 0)).unwrap().position.x, 0);
    assert_eq!(manager.get_pos_chunk(Pos3::new(8, 0, 0)).unwrap().position.x, 16);
    assert_eq!(manager.get_pos_chunk(Pos3::new(23, 0, 0)).unwrap().position.x, 16);
    assert!(manager.get_pos_chunk(Pos3::new(24, 0, 0)).is_none());
    assert!(manager.get_pos_chunk(Pos3::new(-9, 0, 0)).is_none());
    assert_eq!(manager.get_pos_index(Pos3::new(10, -1, 3)), Some(1));
    assert_eq!(manager.get_pos_index(Pos3::new(0, 0, 99)), None);
}

#[test]
fn world_shows_fill_id_inside_added_chunk_and_zero_outside() {
    let mut manager = ChunkManager::new();
    manager.add_chunk(Chunk::new_filled(Pos3::new(0, 0, 0), 9));
    for &p in &[
        Pos3::new(-8, -8, -8),
        Pos3::new(7, 7, 7),
        Pos3::new(0, 0, 0),
        Pos3::new(-8, 7, 0),
    ] {
        assert_eq!(manager.get_block(p), 9);
    }
    for &p in &[Pos3::new(8, 0, 0), Pos3::new(0, -9, 0), Pos3::new(100, 100, 100)] {
        assert_eq!(manager.get_block(p), 0);
    }
}

#[test]
fn world_edits_round_trip_and_out_of_world_writes_are_silent() {
    let mut manager = ChunkManager::new();
    manager.add_chunk(Chunk::new_empty(Pos3::new(0, 0, 0)));
    manager.set_block(Pos3::new(3, -2, 5), 4);
    assert_eq!(manager.get_block(Pos3::new(3, -2, 5)), 4);
    assert_eq!(manager.get_block(Pos3::new(3, -2, 6)), 0);
    manager.set_block(Pos3::new(50, 0, 0), 4);
    assert_eq!(manager.get_block(Pos3::new(50, 0, 0)), 0);
}

#[test]
fn streaming_lists_each_missing_coordinate_once() {
    let mut manager = ChunkManager::new();
    let missing = manager.missing_coords(Pos3::new(0, 0, 0), 1);
    // A radius-one cube holds eight chunk coordinates, all missing.
    assert_eq!(missing.len(), 8);
    for c in &missing {
        assert!(-1 <= c.x && c.x < 1);
        assert!(-1 <= c.y && c.y < 1);
        assert!(-1 <= c.z && c.z < 1);
    }
    manager.add_chunk(Chunk::new_empty(Pos3::new(0, 0, 0)));
    let missing = manager.missing_coords(Pos3::new(0, 0, 0), 1);
    assert_eq!(missing.len(), 7);
    assert!(!missing.contains(&Pos3::new(0, 0, 0)));
}

#[test]
fn streaming_registers_generated_chunks_with_small_nonzero_ids() {
    let mut manager = ChunkManager::new();
    let mask = sample_mask(0, Pos3::new(0, 0, 0));
    let index = manager.register_generated(Pos3::new(0, 0, 0), &mask);
    assert_eq!(index, 0);
    assert_eq!(manager.get_chunk_count(), 1);
    let chunk = manager.get_chunk(0);
    assert_eq!(chunk.position, Pos3::new(0, 0, 0));
    // The drawn block type is one of the small non-empty ids.
    for x in 0..16u8 {
        for y in 0..16u8 {
            for z in 0..16u8 {
                let id = chunk.get_block(x, y, z);
                assert!(id < 4);
            }
        }
    }
    // A generated chunk follows its mask: solid exactly where masked.
    let id = mask
        .iter()
        .position(|&m| m)
        .map(|i| chunk.get_block((i / 256) as u8, ((i / 16) % 16) as u8, (i % 16) as u8));
    if let Some(id) = id {
        assert!((1..4).contains(&id));
    }
    for (i, &m) in mask.iter().enumerate() {
        let v = chunk.get_block((i / 256) as u8, ((i / 16) % 16) as u8, (i % 16) as u8);
        assert_eq!(m, v != 0);
    }
}

#[test]
fn procedural_generation_is_deterministic() {
    let coord = Pos3::new(2, -1, 3);
    let mask_a = sample_mask(7, coord);
    let mask_b = sample_mask(7, coord);
    assert_eq!(mask_a, mask_b);
    let a = Chunk::new_from_mask(coord, 2, &mask_a);
    let b = Chunk::new_from_mask(coord, 2, &mask_b);
    assert_eq!(a.blocks, b.blocks);
    assert_eq!(a.position, b.position);
    // The field is not trivially constant over a chunk.
    let solid = mask_a.iter().filter(|&&m| m).count();
    assert!(solid > 0 && solid < 4096);
}

#[test]
fn ray_hits_the_first_block_at_the_box_boundary() {
    let mut manager = ChunkManager::new();
    manager.add_chunk(Chunk::new_filled(Pos3::new(0, 0, 0), 5));
    // March from twenty world units out along +z; positions are in
    // thousandths of a world unit, the step is a tenth of a unit.
    let hit = block_ray(&manager, [0, 0, -20000], [0, 0, 0], 100, 40000).unwrap();
    assert_eq!(hit.block, 5);
    // The box's first cell along the march is block -8, reached when the
    // rounded sample coordinate becomes -8: exactly at -8.5 units.
    assert_eq!(hit.position, [0, 0, -8500]);
}

#[test]
fn ray_misses_an_empty_world() {
    let manager = ChunkManager::new();
    assert!(block_ray(&manager, [0, 0, -20000], [0, 0, 0], 100, 40000).is_none());
}

#[test]
fn degenerate_ray_returns_no_hit() {
    let mut manager = ChunkManager::new();
    manager.add_chunk(Chunk::new_filled(Pos3::new(0, 0, 0), 5));
    assert!(block_ray(&manager, [0, 0, 0], [0, 0, 0], 100, 40000).is_none());
}

#[test]
fn ray_exhausts_its_distance_without_reaching_the_world() {
    let mut manager = ChunkManager::new();
    manager.add_chunk(Chunk::new_filled(Pos3::new(0, 0, 0), 5));
    // The chunk starts 11.5 units away, but the march stops after 2 units.
    assert!(block_ray(&manager, [0, 0, -20000], [0, 0, 0], 100, 2000).is_none());
}

#[test]
fn chunks_at_extreme_coordinates_still_translate() {
    let c = Chunk::new_filled(Pos3::new(134217727, -134217728, 0), 1);
    assert_eq!(c.position, Pos3::new(2147483632, -2147483648, 0));
    assert_eq!(c.get_block_global(Pos3::new(2147483639, -2147483641, 0)), 1);
    assert_eq!(c.get_block_global(Pos3::new(2147483623, -2147483641, 0)), 0);
}

#[test]
fn diagonal_ray_hits_the_corner_region() {
    let mut manager = ChunkManager::new();
    manager.add_chunk(Chunk::new_filled(Pos3::new(0, 0, 0), 5));
    let hit = block_ray(
        &manager,
        [-20000, -20000, -20000],
        [0, 0, 0],
        100,
        40000,
    )
    .unwrap();
    assert_eq!(hit.block, 5);
    // The normalized direction truncates to 577 thousandths per axis, so
    // the first sample whose rounded coordinates enter the box lands at
    // -8.46 units on each axis.
    assert_eq!(hit.position, [-8460, -8460, -8460]);
}

#[test]
fn zero_radius_streams_nothing() {
    let manager = ChunkManager::new();
    assert!(manager.missing_coords(Pos3::new(5, 5, 5), 0).is_empty());
}
