//! A voxel world: fixed-size chunks of typed cells, face-culling mesh
//! extraction, multi-chunk spatial indexing, and ray-to-block intersection.

mod rng;
pub mod block;
pub mod block_types;
pub mod chunk;
pub mod chunk_builder;
pub mod chunk_manager;
pub mod direction;
pub mod math;
pub mod quad;
pub mod raycaster;
pub mod sky_builder;

pub use block::Block;
pub use block_types::CATALOG_CAPACITY;
pub use block_types::Catalog;
pub use block_types::Type;
pub use block_types::lemma_catalog_textures_total;
pub use chunk::Chunk;
pub use chunk::SIZE;
pub use chunk::VOLUME;
pub use chunk::chunk_coord_in_range;
pub use chunk::flat_index;
pub use chunk::in_chunk_bounds;
pub use chunk::layered_block_for_y;
pub use chunk::lemma_mask_grid_deterministic;
pub use chunk::lemma_out_of_range_reads_empty;
pub use chunk::lemma_set_then_get;
pub use chunk_builder::Face;
pub use chunk_builder::Mesh;
pub use chunk_builder::build;
pub use chunk_builder::check_ids_registered;
pub use chunk_builder::cell_faces;
pub use chunk_builder::chunk_faces;
pub use chunk_builder::chunk_ids_registered;
pub use chunk_builder::edge_faces;
pub use chunk_builder::face_center;
pub use chunk_builder::face_vertices;
pub use chunk_builder::lemma_chunk_faces_len;
pub use chunk_builder::lemma_empty_chunk_mesh;
pub use chunk_builder::lemma_filled_chunk_mesh;
pub use chunk_builder::lemma_mesh_indices_valid;
pub use chunk_builder::mesh_matches;
pub use chunk_builder::spec_visible;
pub use chunk_manager::ChunkManager;
pub use chunk_manager::in_stream_cube;
pub use chunk_manager::lemma_add_filled_world_block;
pub use chunk_manager::lemma_cover_unique;
pub use direction::Direction;
pub use direction::dir_name;
pub use direction::dir_of;
pub use direction::dir_offset;
pub use direction::dir_ordinal;
pub use math::Pos3;
pub use math::chunk_coord_of;
pub use math::get_chunk_position;
pub use quad::COORD_LIMIT;
pub use quad::MAX_QUAD_INDEX;
pub use quad::Quad;
pub use quad::SKY_COLUMNS;
pub use quad::TEXTURE_COLUMNS;
pub use quad::Vertex;
pub use quad::block_quad;
pub use quad::position_in_limit;
pub use quad::quad;
pub use quad::sky_quad;
pub use quad::spec_block_quad_vertices;
pub use quad::spec_index_pattern;
pub use quad::spec_light;
pub use quad::spec_quad_indices;
pub use quad::spec_quad_vertices;
pub use quad::spec_sky_quad_vertices;
pub use quad::winds_forward;
pub use raycaster::BlockRayHit;
pub use raycaster::RAY_SCALE;
pub use raycaster::block_ray;
pub use raycaster::in_march_range;
pub use raycaster::is_first_hit;
pub use raycaster::is_isqrt;
pub use raycaster::lemma_isqrt_unique;
pub use raycaster::ray_input_ok;
pub use raycaster::spec_hit_at;
pub use raycaster::spec_isqrt;
pub use raycaster::spec_len2;
pub use raycaster::spec_ray_dir;
pub use raycaster::spec_sample;
pub use raycaster::spec_sample_block;
pub use sky_builder::sky_face_center;
pub use sky_builder::sky_mesh_matches;
