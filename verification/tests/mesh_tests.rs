use voxel_world::Catalog;
use voxel_world::Chunk;
use voxel_world::Direction;
use voxel_world::Pos3;
use voxel_world::Type;
use voxel_world::block_quad;
use voxel_world::sky_builder::build as sky_build;
use voxel_world::build;
use voxel_world::sky_quad;

fn catalog_with_stone() -> Catalog {
    let mut catalog = Catalog::new();
    catalog.register(Type::new(String::from("stone"), 1, [10, 11, 12, 13, 14, 15]));
    catalog
}

#[test]
fn block_quad_exact_geometry_up() {
    let catalog = catalog_with_stone();
    // A face centered on the origin, in half-units.
    let q = block_quad(&catalog, 1, 0, Direction::UP, [0, 0, 0]);
    let positions: Vec<[i64; 3]> = q.vertices.iter().map(|v| v.position).collect();
    assert_eq!(positions, vec![[-1, 0, 1], [1, 0, 1], [-1, 0, -1], [1, 0, -1]]);
    // u spans [10/256, 11/256]; v is 1 on the near pair, 0 on the far pair.
    assert_eq!(q.vertices[0].tex_u_num, 10);
    assert_eq!(q.vertices[1].tex_u_num, 11);
    assert_eq!(q.vertices[0].tex_den, 256);
    assert_eq!(q.vertices[0].tex_v, 1);
    assert_eq!(q.vertices[2].tex_v, 0);
    // Top faces are brightest: light is 4 quarters.
    assert!(q.vertices.iter().all(|v| v.light == 4));
    // Forward winding at ordinal 0.
    assert_eq!(q.indices, [0, 1, 2, 2, 1, 3]);
}

#[test]
fn block_quad_winding_and_light_down() {
    let catalog = catalog_with_stone();
    let q = block_quad(&catalog, 1, 2, Direction::DOWN, [4, -1, 4]);
    // Backward winding, offset by 4 * ordinal.
    assert_eq!(q.indices, [10, 9, 8, 11, 9, 10]);
    // Bottom faces are darkest: one quarter.
    assert!(q.vertices.iter().all(|v| v.light == 1));
    assert_eq!(q.vertices[0].tex_u_num, 11);
}

#[test]
fn sky_quad_uses_direction_ordinal_as_texture_column() {
    let q = sky_quad(3, Direction::SOUTH, [0, 0, -1]);
    assert_eq!(q.vertices[1].tex_u_num, 3);
    assert_eq!(q.vertices[0].tex_u_num, 4);
    assert_eq!(q.vertices[0].tex_den, 6);
    // Sky quads are unlit: full brightness.
    assert!(q.vertices.iter().all(|v| v.light == 4));
    assert_eq!(q.indices, [14, 13, 12, 15, 13, 14]);
}

#[test]
fn empty_chunk_builds_empty_mesh() {
    let catalog = catalog_with_stone();
    let chunk = Chunk::new_empty(Pos3::new(0, 0, 0));
    let mesh = build(&catalog, &chunk);
    assert_eq!(mesh.vertices.len(), 0);
    assert_eq!(mesh.indices.len(), 0);
    assert_eq!(mesh.index_count, 0);
}

#[test]
fn filled_chunk_builds_exactly_the_outer_shell() {
    let catalog = catalog_with_stone();
    let chunk = Chunk::new_filled(Pos3::new(0, 0, 0), 1);
    let mesh = build(&catalog, &chunk);
    // 6 * 16 * 16 faces, 4 vertices and 6 indices each.
    assert_eq!(mesh.vertices.len(), 6144);
    assert_eq!(mesh.indices.len(), 9216);
    assert_eq!(mesh.index_count, 9216);
}

#[test]
fn single_block_builds_six_faces() {
    let catalog = catalog_with_stone();
    let mut chunk = Chunk::new_empty(Pos3::new(0, 0, 0));
    chunk.set_block(8, 8, 8, 1);
    let mesh = build(&catalog, &chunk);
    assert_eq!(mesh.vertices.len(), 24);
    assert_eq!(mesh.indices.len(), 36);
    // Faces come in direction emission order: UP is forward, DOWN backward.
    assert_eq!(&mesh.indices[0..6], &[0, 1, 2, 2, 1, 3]);
    assert_eq!(&mesh.indices[6..12], &[6, 5, 4, 7, 5, 6]);
    // Cell (8, 8, 8) of the chunk at the origin is centered on world
    // (0, 0, 0): the top face sits one half-unit up.
    assert_eq!(mesh.vertices[0].position, [-1, 1, 1]);
}

#[test]
fn mesh_indices_stay_inside_vertex_array() {
    let catalog = catalog_with_stone();
    let chunk = Chunk::new_layered(Pos3::new(-1, 2, 0), 1, 1, 1);
    let mesh = build(&catalog, &chunk);
    assert_eq!(mesh.indices.len() as u32, mesh.index_count);
    for (i, &index) in mesh.indices.iter().enumerate() {
        assert!((index as usize) < mesh.vertices.len());
        // Indices group into the forward or backward pattern offset by
        // 4 * quad ordinal.
        let q = (i / 6) as u32;
        let offset = index - 4 * q;
        assert!(offset < 4);
    }
}

#[test]
fn interior_faces_are_culled() {
    let catalog = catalog_with_stone();
    let mut chunk = Chunk::new_empty(Pos3::new(0, 0, 0));
    // Two blocks side by side along x share a hidden pair of faces.
    chunk.set_block(7, 8, 8, 1);
    chunk.set_block(8, 8, 8, 1);
    let mesh = build(&catalog, &chunk);
    assert_eq!(mesh.vertices.len(), 10 * 4);
    assert_eq!(mesh.indices.len(), 10 * 6);
}

#[test]
fn sky_box_has_six_inward_faces() {
    let mesh = sky_build([0, 0, 0]);
    assert_eq!(mesh.vertices.len(), 24);
    assert_eq!(mesh.indices.len(), 36);
    assert_eq!(mesh.index_count, 36);
    // The first quad is the top of the box, half a unit below center.
    assert_eq!(mesh.vertices[0].position, [-1, -1, 1]);
    assert!(mesh.vertices.iter().all(|v| v.tex_den == 6 && v.light == 4));
}
