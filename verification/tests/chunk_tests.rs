use voxel_world::Block;
use voxel_world::Catalog;
use voxel_world::Chunk;
use voxel_world::Direction;
use voxel_world::Pos3;
use voxel_world::Type;
use voxel_world::get_chunk_position;

fn stone() -> Type {
    Type::new(String::from("stone"), 1, [10, 11, 12, 13, 14, 15])
}

#[test]
fn catalog_round_trip() {
    let mut catalog = Catalog::new();
    assert!(!catalog.is_registered(1));
    catalog.register(stone());
    assert!(catalog.is_registered(1));
    let entry = catalog.get(1);
    assert_eq!(entry.name, "stone");
    assert_eq!(entry.id, 1);
}

#[test]
fn catalog_has_one_texture_per_direction() {
    let mut catalog = Catalog::new();
    catalog.register(stone());
    let entry = catalog.get(1);
    assert_eq!(entry.get_texture(Direction::UP), 10);
    assert_eq!(entry.get_texture(Direction::DOWN), 11);
    assert_eq!(entry.get_texture(Direction::NORTH), 12);
    assert_eq!(entry.get_texture(Direction::SOUTH), 13);
    assert_eq!(entry.get_texture(Direction::WEST), 14);
    assert_eq!(entry.get_texture(Direction::EAST), 15);
}

#[test]
fn catalog_replaces_entry_with_same_id() {
    let mut catalog = Catalog::new();
    catalog.register(stone());
    catalog.register(Type::new(String::from("basalt"), 1, [9, 9, 9, 9, 9, 9]));
    assert_eq!(catalog.get(1).name, "basalt");
    assert_eq!(catalog.get(1).get_texture(Direction::UP), 9);
}

#[test]
fn block_carries_its_type_id() {
    let block = Block::new(&stone());
    assert_eq!(block.get_id(), 1);
}

#[test]
fn direction_ordinals_round_trip() {
    for id in 0u8..6u8 {
        let d = Direction::get(id);
        assert_eq!(d.get_id(), id);
    }
}

#[test]
fn direction_vectors_are_unit_offsets() {
    assert_eq!(Direction::UP.get_vec(), (0, 1, 0));
    assert_eq!(Direction::DOWN.get_vec(), (0, -1, 0));
    assert_eq!(Direction::NORTH.get_vec(), (0, 0, -1));
    assert_eq!(Direction::SOUTH.get_vec(), (0, 0, 1));
    assert_eq!(Direction::WEST.get_vec(), (1, 0, 0));
    assert_eq!(Direction::EAST.get_vec(), (-1, 0, 0));
}

#[test]
fn direction_names() {
    assert_eq!(Direction::UP.get_string(), "up");
    assert_eq!(Direction::DOWN.get_string(), "down");
    assert_eq!(Direction::NORTH.get_string(), "north");
    assert_eq!(Direction::SOUTH.get_string(), "south");
    assert_eq!(Direction::WEST.get_string(), "west");
    assert_eq!(Direction::EAST.get_string(), "east");
}

#[test]
fn chunk_position_rounds_to_nearest_chunk() {
    assert_eq!(get_chunk_position(Pos3::new(0, 7, -7)), Pos3::new(0, 0, 0));
    assert_eq!(get_chunk_position(Pos3::new(8, 23, 24)), Pos3::new(1, 1, 2));
    assert_eq!(get_chunk_position(Pos3::new(-8, -9, -24)), Pos3::new(-1, -1, -2));
    assert_eq!(get_chunk_position(Pos3::new(16, -16, 100)), Pos3::new(1, -1, 6));
}

#[test]
fn filled_chunk_reads_fill_id_everywhere() {
    let c = Chunk::new_filled(Pos3::new(0, 0, 0), 7);
    assert_eq!(c.position, Pos3::new(0, 0, 0));
    for &(x, y, z) in &[(0u8, 0u8, 0u8), (15, 15, 15), (3, 9, 12)] {
        assert_eq!(c.get_block(x, y, z), 7);
    }
}

#[test]
fn empty_chunk_reads_zero() {
    let c = Chunk::new_empty(Pos3::new(2, -1, 0));
    assert_eq!(c.position, Pos3::new(32, -16, 0));
    assert_eq!(c.get_block(5, 5, 5), 0);
}

#[test]
fn set_then_get_returns_written_value() {
    let mut c = Chunk::new_empty(Pos3::new(0, 0, 0));
    c.set_block(3, 4, 5, 42);
    assert_eq!(c.get_block(3, 4, 5), 42);
    assert_eq!(c.get_block(3, 4, 6), 0);
    assert_eq!(c.get_block(5, 4, 3), 0);
}

#[test]
fn out_of_range_reads_are_empty_and_never_fail() {
    let c = Chunk::new_filled(Pos3::new(0, 0, 0), 9);
    assert_eq!(c.get_block(16, 0, 0), 0);
    assert_eq!(c.get_block(0, 16, 0), 0);
    assert_eq!(c.get_block(0, 0, 255), 0);
    assert_eq!(c.get_block_s(-1, 0, 0), 0);
    assert_eq!(c.get_block_s(0, -1, 0), 0);
    assert_eq!(c.get_block_s(0, 0, 16), 0);
}

#[test]
fn layered_chunk_stratifies_by_height() {
    let c = Chunk::new_layered(Pos3::new(0, 0, 0), 1, 2, 3);
    for x in 0u8..16 {
        for z in 0u8..16 {
            assert_eq!(c.get_block(x, 15, z), 1);
            for y in 11u8..15 {
                assert_eq!(c.get_block(x, y, z), 2);
            }
            for y in 0u8..11 {
                assert_eq!(c.get_block(x, y, z), 3);
            }
        }
    }
}

#[test]
fn global_accessors_translate_through_anchor() {
    let mut c = Chunk::new_empty(Pos3::new(1, 0, -1));
    assert_eq!(c.position, Pos3::new(16, 0, -16));
    // The box covers [anchor - 8, anchor + 8) on each axis.
    c.set_block_global(Pos3::new(8, -8, -24), 5);
    assert_eq!(c.get_block_global(Pos3::new(8, -8, -24)), 5);
    assert_eq!(c.get_block(0, 0, 0), 5);
    c.set_block_global(Pos3::new(23, 7, -9), 6);
    assert_eq!(c.get_block(15, 15, 15), 6);
    // Out of the box: reads are 0, writes are no-ops.
    assert_eq!(c.get_block_global(Pos3::new(24, 0, -20)), 0);
    c.set_block_global(Pos3::new(24, 0, -20), 9);
    assert_eq!(c.get_block_global(Pos3::new(24, 0, -20)), 0);
}

#[test]
fn mask_constructor_places_fill_id_exactly_where_masked() {
    let mut mask = vec![false; 4096];
    mask[0] = true;
    // Flat order is x * 256 + y * 16 + z.
    mask[2 * 256 + 3 * 16 + 4] = true;
    let c = Chunk::new_from_mask(Pos3::new(0, 0, 0), 8, &mask);
    assert_eq!(c.get_block(0, 0, 0), 8);
    assert_eq!(c.get_block(2, 3, 4), 8);
    assert_eq!(c.get_block(1, 0, 0), 0);
    assert_eq!(c.get_block(4, 3, 2), 0);
}

#[test]
fn mask_constructor_is_deterministic() {
    let mut mask = vec![false; 4096];
    for i in 0..4096 {
        mask[i] = i % 5 == 0;
    }
    let a = Chunk::new_from_mask(Pos3::new(1, 2, 3), 3, &mask);
    let b = Chunk::new_from_mask(Pos3::new(1, 2, 3), 3, &mask);
    assert_eq!(a.blocks, b.blocks);
    assert_eq!(a.position, b.position);
}
