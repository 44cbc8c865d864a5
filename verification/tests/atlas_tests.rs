use explora::atlas::{tile_count, AtlasPlan, BlockAtlas, Placement, TextureFile};

fn file(name: &str, size: Option<(u32, u32)>) -> TextureFile {
    TextureFile { name: name.to_string(), size }
}

#[test]
fn tile_count_is_the_least_square_with_room_for_one_more() {
    assert_eq!(tile_count(0), 1);
    assert_eq!(tile_count(1), 2);
    assert_eq!(tile_count(3), 2);
    assert_eq!(tile_count(4), 3);
    assert_eq!(tile_count(8), 3);
    assert_eq!(tile_count(9), 4);
    assert_eq!(tile_count(15), 4);
    assert_eq!(tile_count(16), 5);
    assert_eq!(tile_count(99), 10);
    assert_eq!(tile_count(u32::MAX), 65536);
}

#[test]
fn tile_count_is_the_rounded_up_root() {
    for files in 0..2000u32 {
        let expected = ((files + 1) as f32).sqrt().ceil() as u32;
        assert_eq!(tile_count(files), expected);
    }
}

#[test]
fn an_atlas_knows_the_textures_it_was_given() {
    let mut atlas = BlockAtlas::new(64, 16);
    assert_eq!(atlas.size(), 64);
    assert_eq!(atlas.tile_size(), 16);
    assert_eq!(atlas.get_texture_id("dirt"), None);
    atlas.insert("dirt".to_string(), 1);
    atlas.insert("stone".to_string(), 2);
    assert_eq!(atlas.get_texture_id("dirt"), Some(1));
    assert_eq!(atlas.get_texture_id("stone"), Some(2));
    assert_eq!(atlas.get_texture_id("Dirt"), None);
    assert_eq!(atlas.get_texture_id(""), None);
}

#[test]
fn a_later_number_replaces_an_earlier_one() {
    let mut atlas = BlockAtlas::new(64, 16);
    atlas.insert("dirt".to_string(), 1);
    atlas.insert("stone".to_string(), 2);
    atlas.insert("dirt".to_string(), 3);
    assert_eq!(atlas.get_texture_id("dirt"), Some(3));
    assert_eq!(atlas.get_texture_id("stone"), Some(2));
}

#[test]
fn textures_are_laid_out_row_by_row_from_tile_1() {
    let files = vec![
        file("dirt", Some((16, 16))),
        file("grass_side", Some((16, 16))),
        file("grass_top", Some((16, 16))),
        file("stone", Some((16, 16))),
    ];
    let AtlasPlan { atlas, tiles, placed } = BlockAtlas::plan(16, 16, &files).unwrap();
    assert_eq!(tiles, 3);
    assert_eq!(atlas.size(), 48);
    assert_eq!(atlas.tile_size(), 16);
    assert_eq!(
        placed,
        vec![
            Placement { file: 0, id: 1, x: 16, y: 0 },
            Placement { file: 1, id: 2, x: 32, y: 0 },
            Placement { file: 2, id: 3, x: 0, y: 16 },
            Placement { file: 3, id: 4, x: 16, y: 16 },
        ]
    );
    assert_eq!(atlas.get_texture_id("dirt"), Some(1));
    assert_eq!(atlas.get_texture_id("grass_side"), Some(2));
    assert_eq!(atlas.get_texture_id("grass_top"), Some(3));
    assert_eq!(atlas.get_texture_id("stone"), Some(4));
    assert_eq!(atlas.get_texture_id("water"), None);
}

#[test]
fn unreadable_and_odd_sized_files_are_left_out() {
    let files = vec![
        file("dirt", Some((16, 16))),
        file("broken", None),
        file("wide", Some((32, 16))),
        file("tall", Some((16, 32))),
        file("stone", Some((16, 16))),
    ];
    let AtlasPlan { atlas, tiles, placed } = BlockAtlas::plan(16, 16, &files).unwrap();
    assert_eq!(tiles, 3);
    assert_eq!(
        placed,
        vec![Placement { file: 0, id: 1, x: 16, y: 0 }, Placement { file: 4, id: 2, x: 32, y: 0 }]
    );
    assert_eq!(atlas.get_texture_id("dirt"), Some(1));
    assert_eq!(atlas.get_texture_id("stone"), Some(2));
    assert_eq!(atlas.get_texture_id("broken"), None);
    assert_eq!(atlas.get_texture_id("wide"), None);
    assert_eq!(atlas.get_texture_id("tall"), None);
}

#[test]
fn tiles_of_unequal_sides_keep_their_own_step() {
    let files = vec![file("a", Some((8, 4))), file("b", Some((8, 4))), file("c", Some((8, 4)))];
    let AtlasPlan { atlas, tiles, placed } = BlockAtlas::plan(8, 4, &files).unwrap();
    assert_eq!(tiles, 2);
    assert_eq!(atlas.size(), 16);
    assert_eq!(
        placed,
        vec![
            Placement { file: 0, id: 1, x: 8, y: 0 },
            Placement { file: 1, id: 2, x: 0, y: 4 },
            Placement { file: 2, id: 3, x: 8, y: 4 },
        ]
    );
}

#[test]
fn every_tile_lies_within_the_image() {
    for count in 0..60usize {
        let files: Vec<TextureFile> =
            (0..count).map(|n| file(&format!("t{}", n), Some((16, 16)))).collect();
        let AtlasPlan { atlas, tiles, placed } = BlockAtlas::plan(16, 16, &files).unwrap();
        assert_eq!(placed.len(), count);
        assert_eq!(atlas.size(), 16 * tiles);
        for placement in placed {
            assert!(placement.x + 16 <= atlas.size());
            assert!(placement.y + 16 <= atlas.size());
            assert!(placement.id >= 1);
        }
    }
}

#[test]
fn an_atlas_too_wide_for_its_size_is_not_laid_out() {
    let files = vec![file("a", Some((u32::MAX, 1)))];
    assert!(BlockAtlas::plan(u32::MAX, 1, &files).is_none());
    assert!(BlockAtlas::plan(1, u32::MAX, &files).is_none());
    assert!(BlockAtlas::plan(u32::MAX / 2, 1, &files).is_some());
}

#[test]
fn an_atlas_of_no_file_is_one_free_tile() {
    let AtlasPlan { atlas, tiles, placed } = BlockAtlas::plan(16, 16, &Vec::new()).unwrap();
    assert_eq!(tiles, 1);
    assert_eq!(atlas.size(), 16);
    assert!(placed.is_empty());
}
