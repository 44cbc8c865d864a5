use explora::atlas::BlockAtlas;
use explora::block::{BlockId, BlockMap, BlockSettings, BlockTextures};
use explora::chunk::{BlockPos, Chunk};
use explora::mesh::create_chunk_mesh;
use explora::vertex::TerrainVertex;

fn settings(name: &str) -> BlockSettings {
    BlockSettings {
        name: name.to_string(),
        textures: BlockTextures {
            top: format!("{}_top", name),
            bottom: format!("{}_bottom", name),
            north: format!("{}_north", name),
            west: format!("{}_west", name),
            east: format!("{}_east", name),
            south: format!("{}_south", name),
        },
    }
}

fn block_map() -> BlockMap {
    BlockMap::from_settings(vec![settings("stone"), settings("dirt"), settings("grass")])
}

fn atlas() -> BlockAtlas {
    let mut atlas = BlockAtlas::new(128, 16);
    let mut id = 1;
    for block in ["stone", "dirt", "grass"] {
        for face in ["top", "north", "west", "east", "south"] {
            atlas.insert(format!("{}_{}", block, face), id);
            id += 1;
        }
    }
    atlas
}

fn texture(atlas: &BlockAtlas, name: &str) -> u32 {
    atlas.get_texture_id(name).unwrap()
}

#[test]
fn the_mesh_has_a_quad_for_every_face_on_the_chunks_surface() {
    let mesh = create_chunk_mesh(&Chunk::flat(), &atlas(), &block_map()).unwrap();
    let faces = 2 * (16 * 256) + 2 * (16 * 256) + 2 * (16 * 16);
    assert_eq!(mesh.len(), 4 * faces);
}

#[test]
fn the_first_block_shows_its_south_west_and_bottom_faces() {
    let atlas = atlas();
    let mesh = create_chunk_mesh(&Chunk::flat(), &atlas, &block_map()).unwrap();
    let south = texture(&atlas, "stone_south");
    let west = texture(&atlas, "stone_west");
    let expected = vec![
        TerrainVertex::new(0, 1, 0, south),
        TerrainVertex::new(0, 0, 0, south),
        TerrainVertex::new(1, 0, 0, south),
        TerrainVertex::new(1, 1, 0, south),
        TerrainVertex::new(0, 1, 1, west),
        TerrainVertex::new(0, 0, 1, west),
        TerrainVertex::new(0, 0, 0, west),
        TerrainVertex::new(0, 1, 0, west),
        TerrainVertex::new(0, 0, 0, west),
        TerrainVertex::new(0, 0, 1, west),
        TerrainVertex::new(1, 0, 1, west),
        TerrainVertex::new(1, 0, 0, west),
    ];
    assert_eq!(mesh[..12], expected[..]);
}

#[test]
fn the_second_block_shows_its_south_and_bottom_faces() {
    let atlas = atlas();
    let mesh = create_chunk_mesh(&Chunk::flat(), &atlas, &block_map()).unwrap();
    let south = texture(&atlas, "stone_south");
    let west = texture(&atlas, "stone_west");
    let expected = vec![
        TerrainVertex::new(1, 1, 0, south),
        TerrainVertex::new(1, 0, 0, south),
        TerrainVertex::new(2, 0, 0, south),
        TerrainVertex::new(2, 1, 0, south),
        TerrainVertex::new(1, 0, 0, west),
        TerrainVertex::new(1, 0, 1, west),
        TerrainVertex::new(2, 0, 1, west),
        TerrainVertex::new(2, 0, 0, west),
    ];
    assert_eq!(mesh[12..20], expected[..]);
}

#[test]
fn the_last_block_shows_its_north_east_and_top_faces() {
    let atlas = atlas();
    let mesh = create_chunk_mesh(&Chunk::flat(), &atlas, &block_map()).unwrap();
    let north = texture(&atlas, "grass_north");
    let east = texture(&atlas, "grass_east");
    let top = texture(&atlas, "grass_top");
    let expected = vec![
        TerrainVertex::new(16, 256, 16, north),
        TerrainVertex::new(16, 255, 16, north),
        TerrainVertex::new(15, 255, 16, north),
        TerrainVertex::new(15, 256, 16, north),
        TerrainVertex::new(16, 256, 15, east),
        TerrainVertex::new(16, 255, 15, east),
        TerrainVertex::new(16, 255, 16, east),
        TerrainVertex::new(16, 256, 16, east),
        TerrainVertex::new(15, 256, 16, top),
        TerrainVertex::new(15, 256, 15, top),
        TerrainVertex::new(16, 256, 15, top),
        TerrainVertex::new(16, 256, 16, top),
    ];
    assert_eq!(mesh[mesh.len() - 12..], expected[..]);
}

#[test]
fn a_block_without_settings_stops_the_mesh() {
    let map = BlockMap::from_settings(vec![settings("stone"), settings("dirt")]);
    assert!(create_chunk_mesh(&Chunk::flat(), &atlas(), &map).is_none());
}

#[test]
fn a_block_inside_needs_settings_too() {
    let mut chunk = Chunk::flat();
    assert!(chunk.set(BlockPos::new(8, 100, 8), BlockId::Air));
    assert!(create_chunk_mesh(&chunk, &atlas(), &block_map()).is_none());
    let with_air = BlockMap::from_settings(vec![
        settings("stone"),
        settings("dirt"),
        settings("grass"),
        settings("air"),
    ]);
    let mesh = create_chunk_mesh(&chunk, &atlas(), &with_air).unwrap();
    let faces = 2 * (16 * 256) + 2 * (16 * 256) + 2 * (16 * 16);
    assert_eq!(mesh.len(), 4 * faces);
}

#[test]
fn a_missing_texture_stops_the_mesh() {
    let mut short = BlockAtlas::new(128, 16);
    short.insert("stone_south".to_string(), 1);
    assert!(create_chunk_mesh(&Chunk::flat(), &short, &block_map()).is_none());
}

#[test]
fn the_bottom_texture_is_never_asked_for() {
    let atlas = atlas();
    assert_eq!(atlas.get_texture_id("stone_bottom"), None);
    assert!(create_chunk_mesh(&Chunk::flat(), &atlas, &block_map()).is_some());
}
