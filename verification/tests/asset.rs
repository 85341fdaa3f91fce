use tiled_compose::asset::{
    AtlasCell, AtlasGrid, TextureBinding, TiledMap, TiledMapTileset,
};
use tiled_compose::document::{
    tiled_chunks_fit, ImageRef, MapDocument, Orientation, TileEntry, Tileset,
};

fn image(source: &str, width: i32, height: i32) -> ImageRef {
    ImageRef { source: source.to_string(), width, height }
}

fn shared(image_width: i32, tile: u32, spacing: u32, margin: u32, tilecount: u32) -> Tileset {
    Tileset {
        name: "sheet".to_string(),
        tile_width: tile,
        tile_height: tile,
        spacing,
        margin,
        tilecount,
        offset_x: 0,
        offset_y: 0,
        image: Some(image("sheet.png", image_width, 100)),
        tiles: Vec::new(),
    }
}

fn collection(images: Vec<(u32, Option<(i32, i32)>)>) -> Tileset {
    Tileset {
        name: "things".to_string(),
        tile_width: 8,
        tile_height: 8,
        spacing: 0,
        margin: 0,
        tilecount: images.len() as u32,
        offset_x: 0,
        offset_y: 0,
        image: None,
        tiles: images
            .into_iter()
            .map(|(id, size)| TileEntry {
                id,
                image: size.map(|(w, h)| image(&format!("thing{id}.png"), w, h)),
            })
            .collect(),
    }
}

#[test]
fn columns_of_an_atlas() {
    let grid = AtlasGrid::for_tileset(&shared(64, 16, 0, 0, 16), &image("sheet.png", 64, 64));
    assert_eq!(grid.map(|g| (g.columns, g.rows)), Some((4, 4)));
    // floor((70 - 2 + 1) / (16 + 1)) = 4, and 10 / 4 = 2
    let tileset = shared(70, 16, 1, 2, 10);
    let grid = AtlasGrid::for_tileset(&tileset, &image("sheet.png", 70, 40)).unwrap();
    assert_eq!(
        grid,
        AtlasGrid {
            tile_width: 16,
            tile_height: 16,
            columns: 4,
            rows: 2,
            spacing: 1,
            offset_x: 2,
            offset_y: 2
        }
    );
    assert!(grid.check_fits());
}

#[test]
fn an_image_narrower_than_a_tile_has_no_atlas() {
    let tileset = shared(10, 16, 0, 0, 4);
    assert_eq!(AtlasGrid::for_tileset(&tileset, &image("sheet.png", 10, 64)), None);
    let binding = TiledMapTileset::bind(&tileset);
    assert!(!binding.usable_for_tiles_layer);
    assert!(binding.texture_atlas_layout.is_none());
    assert!(matches!(binding.tilemap_texture, TextureBinding::Single(_)));
    assert!(!AtlasGrid::has_columns(&tileset, &image("sheet.png", 10, 64)));
    assert!(AtlasGrid::has_columns(&tileset, &image("sheet.png", 16, 64)));
    let flat = shared(10, 0, 0, 0, 4);
    assert_eq!(AtlasGrid::for_tileset(&flat, &image("sheet.png", 10, 64)), None);
    let wide_margin = shared(10, 4, 0, 11, 4);
    assert_eq!(AtlasGrid::for_tileset(&wide_margin, &image("sheet.png", 10, 64)), None);
}

#[test]
fn an_atlas_that_does_not_fit_is_left_out() {
    let mut tileset = shared(64, 16, 0, 0, u32::MAX);
    tileset.tile_height = u32::MAX / 2;
    let grid = AtlasGrid::for_tileset(&tileset, &image("sheet.png", 64, 64));
    assert_eq!(grid, None);
    let mut shifted = shared(64, 16, 0, 0, 16);
    shifted.offset_x = -1;
    assert_eq!(AtlasGrid::for_tileset(&shifted, &image("sheet.png", 64, 64)), None);
}

#[test]
fn layout_of_a_grid_with_spacing_and_offset() {
    let grid = AtlasGrid {
        tile_width: 16,
        tile_height: 8,
        columns: 3,
        rows: 2,
        spacing: 1,
        offset_x: 2,
        offset_y: 5,
    };
    let layout = grid.layout();
    assert_eq!(layout.textures.len(), 6);
    assert_eq!(layout.textures[0], AtlasCell { min_x: 2, min_y: 5, max_x: 18, max_y: 13 });
    assert_eq!(layout.textures[1], AtlasCell { min_x: 19, min_y: 5, max_x: 35, max_y: 13 });
    assert_eq!(layout.textures[2], AtlasCell { min_x: 36, min_y: 5, max_x: 52, max_y: 13 });
    assert_eq!(layout.textures[3], AtlasCell { min_x: 2, min_y: 14, max_x: 18, max_y: 22 });
    assert_eq!(layout.textures[5], AtlasCell { min_x: 36, min_y: 14, max_x: 52, max_y: 22 });
    assert_eq!((layout.width, layout.height), (50, 17));
}

#[test]
fn layout_of_a_single_row_and_of_no_rows() {
    let row = AtlasGrid {
        tile_width: 4,
        tile_height: 4,
        columns: 2,
        rows: 1,
        spacing: 3,
        offset_x: 0,
        offset_y: 0,
    };
    let layout = row.layout();
    assert_eq!(layout.textures.len(), 2);
    assert_eq!((layout.width, layout.height), (11, 4));
    let none = AtlasGrid { rows: 0, ..row };
    let layout = none.layout();
    assert!(layout.textures.is_empty());
    assert_eq!((layout.width, layout.height), (8, 0));
    let column = AtlasGrid { columns: 1, rows: 3, ..row };
    let layout = column.layout();
    assert_eq!(layout.textures.len(), 3);
    assert_eq!(layout.textures[2], AtlasCell { min_x: 0, min_y: 14, max_x: 4, max_y: 18 });
    assert_eq!((layout.width, layout.height), (4, 18));
}

#[test]
fn binding_of_a_shared_image() {
    let binding = TiledMapTileset::bind(&shared(64, 16, 0, 0, 16));
    assert!(binding.usable_for_tiles_layer);
    match &binding.tilemap_texture {
        TextureBinding::Single(img) => {
            assert_eq!(img.source, "sheet.png");
            assert_eq!((img.width, img.height), (64, 100));
        }
        TextureBinding::Vector(_) => panic!("a shared image is bound as one texture"),
    }
    assert!(binding.tile_image_offsets.is_empty());
    let layout = binding.texture_atlas_layout.as_ref().unwrap();
    assert_eq!(layout.textures.len(), 16);
    assert_eq!(layout.textures[5], AtlasCell { min_x: 16, min_y: 16, max_x: 32, max_y: 32 });
    assert_eq!((layout.width, layout.height), (64, 64));
    assert_eq!(binding.texture_index_of(7), Some(7));
}

#[test]
fn images_of_a_collection_get_offsets_in_order() {
    let tileset =
        collection(vec![(5, Some((8, 8))), (2, None), (9, Some((8, 8))), (0, Some((8, 8)))]);
    assert!(tileset.is_valid());
    let binding = TiledMapTileset::bind(&tileset);
    assert!(binding.usable_for_tiles_layer);
    assert!(binding.texture_atlas_layout.is_none());
    match &binding.tilemap_texture {
        TextureBinding::Vector(images) => {
            let sources: Vec<&str> = images.iter().map(|i| i.source.as_str()).collect();
            assert_eq!(sources, vec!["thing5.png", "thing9.png", "thing0.png"]);
        }
        TextureBinding::Single(_) => panic!("a collection is bound as a list"),
    }
    assert_eq!(binding.tile_image_offsets.len(), 3);
    assert_eq!(binding.tile_image_offsets.get(&5), Some(&0));
    assert_eq!(binding.tile_image_offsets.get(&9), Some(&1));
    assert_eq!(binding.tile_image_offsets.get(&0), Some(&2));
    assert_eq!(binding.texture_index_of(9), Some(1));
    assert_eq!(binding.texture_index_of(2), None);
    assert_eq!(binding.texture_index_of(1), None);
}

#[test]
fn images_of_different_size_make_a_collection_unusable() {
    let same = collection(vec![(0, Some((8, 8))), (1, Some((8, 8))), (2, Some((8, 8)))]);
    assert!(TiledMapTileset::bind(&same).usable_for_tiles_layer);
    let wider = collection(vec![(0, Some((8, 8))), (1, Some((9, 8))), (2, Some((8, 8)))]);
    assert!(!TiledMapTileset::bind(&wider).usable_for_tiles_layer);
    let higher = collection(vec![(0, Some((8, 8))), (1, Some((8, 8))), (2, Some((8, 7)))]);
    assert!(!TiledMapTileset::bind(&higher).usable_for_tiles_layer);
    let back = collection(vec![(0, Some((8, 8))), (1, Some((4, 4))), (2, Some((4, 4)))]);
    assert!(!TiledMapTileset::bind(&back).usable_for_tiles_layer);
}

#[test]
fn a_collection_without_images_is_usable() {
    let empty = collection(Vec::new());
    let binding = TiledMapTileset::bind(&empty);
    assert!(binding.usable_for_tiles_layer);
    assert!(binding.tile_image_offsets.is_empty());
    assert!(matches!(&binding.tilemap_texture, TextureBinding::Vector(images) if images.is_empty()));
    let bare = collection(vec![(3, None)]);
    assert!(TiledMapTileset::bind(&bare).usable_for_tiles_layer);
}

#[test]
fn tilesets_with_a_tile_listed_twice_are_not_valid() {
    let twice = collection(vec![(1, Some((8, 8))), (1, Some((8, 8)))]);
    assert!(!twice.is_valid());
    let map = MapDocument {
        orientation: Orientation::Orthogonal,
        width: 1,
        height: 1,
        tile_width: 8,
        tile_height: 8,
        tilesets: vec![twice],
        layers: Vec::new(),
    };
    assert!(!map.is_valid());
}

#[test]
fn the_asset_binds_every_tileset_under_its_index() {
    let map = MapDocument {
        orientation: Orientation::Orthogonal,
        width: 4,
        height: 4,
        tile_width: 16,
        tile_height: 16,
        tilesets: vec![shared(64, 16, 0, 0, 16), collection(vec![(3, Some((8, 8)))])],
        layers: Vec::new(),
    };
    let asset = TiledMap::from_document(map);
    assert_eq!(asset.map.tilesets.len(), 2);
    assert_eq!(asset.tilesets.len(), 2);
    assert!(matches!(asset.tilesets.get(&0).unwrap().tilemap_texture, TextureBinding::Single(_)));
    assert!(matches!(asset.tilesets.get(&1).unwrap().tilemap_texture, TextureBinding::Vector(_)));
    assert_eq!(asset.tilesets.get(&1).unwrap().texture_index_of(3), Some(0));
}

#[test]
fn chunks_of_the_decoder_are_the_chunks_of_the_library() {
    assert!(tiled_chunks_fit());
}
