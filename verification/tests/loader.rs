use std::io::Cursor;
use std::path::Path;
use tiled_compose::asset::TiledMap;
use tiled_compose::document::{
    FiniteLayer, ImageRef, Layer, LayerKind, LayerTile, MapDocument, Orientation, Tileset,
};
use tiled_compose::layers::plan_layers;
use tiled_compose::loader::{read_from, IoErrorKind, ResourceSource, TiledMapLoaderError};
use tiled_compose::tmx::report;

const GOOD_MAP: &str = r#"<?xml version="1.0" encoding="UTF-8"?>
<map version="1.10" orientation="orthogonal" renderorder="right-down" width="2" height="2" tilewidth="16" tileheight="16" infinite="0">
 <tileset firstgid="1" name="ground" tilewidth="16" tileheight="16" tilecount="16" columns="4">
  <image source="ground.png" width="64" height="64"/>
 </tileset>
 <layer id="1" name="ground" width="2" height="2">
  <data encoding="csv">
2147483652,0,
0,0
</data>
 </layer>
</map>
"#;

fn parse(text: &'static str) -> Result<tiled::Map, tiled::Error> {
    let mut loader = tiled::Loader::with_reader(
        move |_: &Path| -> std::io::Result<Cursor<&'static [u8]>> { Ok(Cursor::new(text.as_bytes())) },
    );
    loader.load_tmx_map("map.tmx")
}

fn decode(text: &'static str) -> Result<tiled::Map, TiledMapLoaderError> {
    report(parse(text).map_err(|e| e.to_string()))
}

#[test]
fn tileset_files_are_read_from_outside() {
    assert_eq!(read_from(Some("tsx")), ResourceSource::External);
    assert_eq!(read_from(Some("tmx")), ResourceSource::Document);
    assert_eq!(read_from(Some("TSX")), ResourceSource::Document);
    assert_eq!(read_from(Some("tsx ")), ResourceSource::Document);
    assert_eq!(read_from(Some("")), ResourceSource::Document);
    assert_eq!(read_from(Some("png")), ResourceSource::Document);
    assert_eq!(read_from(None), ResourceSource::Document);
    let extension = Path::new("tiles/ground.tsx").extension().and_then(|e| e.to_str());
    assert_eq!(read_from(extension), ResourceSource::External);
    let extension = Path::new("maps/level.tmx").extension().and_then(|e| e.to_str());
    assert_eq!(read_from(extension), ResourceSource::Document);
}

#[test]
fn a_failed_outside_read_counts_as_not_found() {
    match TiledMapLoaderError::not_found("permission denied") {
        TiledMapLoaderError::Io { kind, message } => {
            assert_eq!(kind, IoErrorKind::NotFound);
            assert_eq!(message, "permission denied");
        }
    }
    assert_eq!(
        TiledMapLoaderError::not_found("gone").to_string(),
        "Could not load Tiled file: gone"
    );
}

#[test]
fn a_malformed_document_fails_with_the_decoders_words() {
    let failure = parse("<map version=\"1.10\" width=\"two\"></map>");
    let cause = match failure {
        Err(error) => error.to_string(),
        Ok(_) => panic!("a malformed document was decoded"),
    };
    assert!(!cause.is_empty());
    let loaded: Result<tiled::Map, TiledMapLoaderError> =
        Err(TiledMapLoaderError::parse_failure(&cause));
    match loaded {
        Err(TiledMapLoaderError::Io { kind, message }) => {
            assert_eq!(kind, IoErrorKind::Other);
            assert_eq!(message, format!("Could not load TMX map: {cause}"));
        }
        Ok(_) => panic!("no asset comes out of a failure"),
    }
    let error = TiledMapLoaderError::parse_failure(&cause);
    assert_eq!(
        error.to_string(),
        format!("Could not load Tiled file: Could not load TMX map: {cause}")
    );
    assert!(parse("this is no document").is_err());
}

#[test]
fn a_decoded_document_is_materialized() {
    let map = decode(GOOD_MAP).unwrap();
    let tilesets = map
        .tilesets()
        .iter()
        .map(|t| Tileset {
            name: t.name.clone(),
            tile_width: t.tile_width,
            tile_height: t.tile_height,
            spacing: t.spacing,
            margin: t.margin,
            tilecount: t.tilecount,
            offset_x: t.offset_x,
            offset_y: t.offset_y,
            image: t.image.as_ref().map(|i| ImageRef {
                source: i.source.to_string_lossy().into_owned(),
                width: i.width,
                height: i.height,
            }),
            tiles: Vec::new(),
        })
        .collect();
    let mut layers = Vec::new();
    for layer in map.layers() {
        let kind = match layer.layer_type() {
            tiled::LayerType::Tiles(tiled::TileLayer::Finite(finite)) => {
                let mut tiles = Vec::new();
                for y in 0..finite.height() as i32 {
                    for x in 0..finite.width() as i32 {
                        tiles.push(finite.get_tile_data(x, y).map(|d| LayerTile {
                            tileset_index: d.tileset_index(),
                            id: d.id(),
                            flip_h: d.flip_h,
                            flip_v: d.flip_v,
                            flip_d: d.flip_d,
                        }));
                    }
                }
                LayerKind::Finite(FiniteLayer {
                    width: finite.width(),
                    height: finite.height(),
                    tiles,
                })
            }
            _ => LayerKind::Other,
        };
        layers.push(Layer { id: layer.id(), name: layer.name.clone(), kind });
    }
    let document = MapDocument {
        orientation: Orientation::Orthogonal,
        width: map.width,
        height: map.height,
        tile_width: map.tile_width,
        tile_height: map.tile_height,
        tilesets,
        layers,
    };
    assert!(document.is_valid());
    let asset = TiledMap::from_document(document);
    let plans = plan_layers(&asset);
    assert_eq!(plans.len(), 1);
    let placed = plans[0].storage.get(0, 1).unwrap();
    assert_eq!(placed.texture_index, 3);
    assert!(placed.flip_h && !placed.flip_v && !placed.flip_d);
    assert_eq!(plans[0].storage.tiles().len(), 1);
}
