use tiled_compose::loader::{IoErrorKind, TiledMapLoaderError};
use tiled_compose::tmx::{
    copy_bytes, decode_world, list_unresolved, report, report_world, resolve, ExternalResource,
};
use tiled_compose::world::{TiledWorld, WorldMapEntry};

const EMBEDDED: &str = r#"<?xml version="1.0" encoding="UTF-8"?>
<map version="1.10" orientation="orthogonal" renderorder="right-down" width="2" height="1" tilewidth="16" tileheight="16" infinite="0">
 <tileset firstgid="1" name="ground" tilewidth="16" tileheight="16" tilecount="16" columns="4">
  <image source="ground.png" width="64" height="64"/>
 </tileset>
 <layer id="1" name="ground" width="2" height="1">
  <data encoding="csv">
1,5
</data>
 </layer>
</map>
"#;

const REFERRING: &str = r#"<?xml version="1.0" encoding="UTF-8"?>
<map version="1.10" orientation="orthogonal" renderorder="right-down" width="1" height="1" tilewidth="16" tileheight="16" infinite="0">
 <tileset firstgid="1" source="tiles/ground.tsx"/>
 <layer id="1" name="ground" width="1" height="1">
  <data encoding="csv">
3
</data>
 </layer>
</map>
"#;

const TILESET: &str = r#"<?xml version="1.0" encoding="UTF-8"?>
<tileset version="1.10" name="outside" tilewidth="16" tileheight="16" tilecount="4" columns="2">
 <image source="ground.png" width="32" height="32"/>
</tileset>
"#;

const WORLD: &str = r#"{
  "maps": [
    { "fileName": "first.tmx", "x": 0, "y": 0, "width": 160, "height": 160 },
    { "fileName": "second.tmx", "x": 160, "y": -32, "width": 80, "height": 96 }
  ],
  "type": "world"
}"#;

fn bytes(text: &str) -> Vec<u8> {
    text.as_bytes().to_vec()
}

fn decode_map(
    bytes: &Vec<u8>,
    path: &str,
    externals: &Vec<ExternalResource>,
) -> Result<tiled::Map, TiledMapLoaderError> {
    let reader = |p: &std::path::Path| -> std::io::Result<std::io::Cursor<Vec<u8>>> {
        let extension = p.extension().and_then(|e| e.to_str());
        match resolve(extension, &p.to_string_lossy(), bytes, externals) {
            Ok(data) => Ok(std::io::Cursor::new(data)),
            Err(e) => Err(std::io::Error::new(std::io::ErrorKind::NotFound, e.to_string())),
        }
    };
    report(tiled::Loader::with_reader(reader).load_tmx_map(path).map_err(|e| e.to_string()))
}

fn outside(path: &str, text: &str) -> ExternalResource {
    ExternalResource { path: path.to_string(), bytes: bytes(text) }
}

#[test]
fn requests_are_answered_from_the_document_or_from_outside() {
    let document = bytes("document");
    let externals = vec![outside("a.tsx", "first"), outside("b.tsx", "b"), outside("a.tsx", "late")];
    assert_eq!(resolve(Some("png"), "a.tsx", &document, &externals).unwrap(), document);
    assert_eq!(resolve(None, "whatever", &document, &externals).unwrap(), document);
    assert_eq!(resolve(Some("tsx"), "a.tsx", &document, &externals).unwrap(), bytes("first"));
    assert_eq!(resolve(Some("tsx"), "b.tsx", &document, &externals).unwrap(), bytes("b"));
    match resolve(Some("tsx"), "c.tsx", &document, &externals) {
        Err(TiledMapLoaderError::Io { kind, message }) => {
            assert_eq!(kind, IoErrorKind::NotFound);
            assert_eq!(message, "c.tsx");
        }
        Ok(_) => panic!("a tileset file that was not brought along was found"),
    }
    assert_eq!(copy_bytes(&document), document);
    assert_eq!(copy_bytes(&Vec::new()), Vec::<u8>::new());
}

#[test]
fn a_document_with_its_tileset_inside_is_decoded() {
    let map = decode_map(&bytes(EMBEDDED), "maps/level.tmx", &Vec::new()).unwrap();
    assert_eq!((map.width, map.height), (2, 1));
    assert_eq!(map.tilesets().len(), 1);
    assert_eq!(map.tilesets()[0].name, "ground");
    let layer = map.get_layer(0).unwrap().as_tile_layer().unwrap();
    assert_eq!(layer.get_tile(1, 0).unwrap().id(), 4);
}

#[test]
fn a_tileset_file_is_read_from_what_was_brought_along() {
    let externals = vec![outside("maps/tiles/ground.tsx", TILESET)];
    let map = decode_map(&bytes(REFERRING), "maps/level.tmx", &externals).unwrap();
    assert_eq!(map.tilesets()[0].name, "outside");
    assert_eq!(map.tilesets()[0].tilecount, 4);
    let failed = decode_map(&bytes(REFERRING), "maps/level.tmx", &Vec::new());
    match failed {
        Err(TiledMapLoaderError::Io { kind, message }) => {
            assert_eq!(kind, IoErrorKind::Other);
            assert!(message.starts_with("Could not load TMX map: "));
        }
        Ok(_) => panic!("a document was decoded without its tileset file"),
    }
}

#[test]
fn malformed_document_is_a_load_failure() {
    let result = decode_map(&bytes("<map version=\"1.10\" width=\"two\"></map>"), "bad.tmx", &Vec::new());
    let error = match result {
        Err(error) => error,
        Ok(_) => panic!("a malformed document was decoded"),
    };
    let text = error.to_string();
    assert!(text.starts_with("Could not load Tiled file: Could not load TMX map: "));
    assert!(text.len() > "Could not load Tiled file: Could not load TMX map: ".len());
    match error {
        TiledMapLoaderError::Io { kind, .. } => assert_eq!(kind, IoErrorKind::Other),
    }
    assert!(decode_map(&bytes("no document at all"), "bad.tmx", &Vec::new()).is_err());
    assert!(decode_map(&Vec::new(), "empty.tmx", &Vec::new()).is_err());
}

#[test]
fn a_world_document_lists_its_maps() {
    let mut entries = decode_world(&bytes(WORLD), "worlds/all.world").unwrap();
    assert_eq!(entries.len(), 2);
    assert_eq!(entries[0].filename, "first.tmx");
    assert_eq!((entries[1].x, entries[1].y), (160, -32));
    assert_eq!((entries[1].width, entries[1].height), (Some(80), Some(96)));
    assert!(entries.iter().all(|entry| entry.map.is_none()));
    assert!(TiledWorld::build(&entries).is_err());
    for (position, entry) in entries.iter_mut().enumerate() {
        entry.map = Some(position as u64);
    }
    let world = TiledWorld::build(&entries).unwrap();
    assert_eq!(
        (world.world_rect.min_x, world.world_rect.min_y, world.world_rect.max_x, world.world_rect.max_y),
        (0, -32, 240, 160)
    );
}

#[test]
fn a_malformed_world_is_a_load_failure() {
    match decode_world(&bytes("{ \"maps\": 3 }"), "worlds/bad.world") {
        Err(TiledMapLoaderError::Io { kind, message }) => {
            assert_eq!(kind, IoErrorKind::Other);
            assert!(message.starts_with("Could not load Tiled world: "));
            assert!(message.len() > "Could not load Tiled world: ".len());
        }
        Ok(_) => panic!("a malformed world was decoded"),
    }
}

#[test]
fn the_end_of_a_decoding_is_reported() {
    let decoded: Result<u32, String> = Ok(7);
    assert!(matches!(report(decoded), Ok(7)));
    let failed: Result<u32, String> = Err("unexpected end".to_string());
    match report(failed) {
        Err(TiledMapLoaderError::Io { kind, message }) => {
            assert_eq!(kind, IoErrorKind::Other);
            assert_eq!(message, "Could not load TMX map: unexpected end");
        }
        Ok(_) => panic!("a failure was reported as decoded"),
    }
    let silent: Result<u32, String> = Err(String::new());
    match report(silent) {
        Err(error) => assert_eq!(
            error.to_string(),
            "Could not load Tiled file: Could not load TMX map: "
        ),
        Ok(_) => panic!("a failure was reported as decoded"),
    }
}

#[test]
fn listed_maps_are_not_resolved() {
    let listed = vec![
        WorldMapEntry {
            filename: "a.tmx".to_string(),
            x: 3,
            y: -4,
            width: Some(10),
            height: None,
            map: Some(9),
        },
        WorldMapEntry {
            filename: "b.tmx".to_string(),
            x: 0,
            y: 0,
            width: None,
            height: Some(2),
            map: None,
        },
    ];
    let entries = list_unresolved(&listed);
    assert_eq!(entries.len(), 2);
    assert_eq!(entries[0].filename, "a.tmx");
    assert_eq!((entries[0].x, entries[0].y), (3, -4));
    assert_eq!((entries[0].width, entries[0].height), (Some(10), None));
    assert_eq!(entries[0].map, None);
    assert_eq!(entries[1].filename, "b.tmx");
    assert_eq!((entries[1].width, entries[1].height), (None, Some(2)));
    assert_eq!(entries[1].map, None);
    assert!(list_unresolved(&Vec::new()).is_empty());
}

#[test]
fn the_end_of_decoding_a_world_is_reported() {
    let decoded: Result<Vec<u8>, String> = Ok(vec![1, 2]);
    assert_eq!(report_world(decoded).ok(), Some(vec![1, 2]));
    let failed: Result<u32, String> = Err("expected value".to_string());
    match report_world(failed) {
        Err(TiledMapLoaderError::Io { kind, message }) => {
            assert_eq!(kind, IoErrorKind::Other);
            assert_eq!(message, "Could not load Tiled world: expected value");
        }
        Ok(_) => panic!("a failure was reported as decoded"),
    }
    match TiledMapLoaderError::world_failure("gone") {
        TiledMapLoaderError::Io { kind, message } => {
            assert_eq!(kind, IoErrorKind::Other);
            assert_eq!(message, "Could not load Tiled world: gone");
        }
    }
}

#[test]
fn a_world_is_decoded_from_its_bytes_whatever_its_path() {
    let entries = decode_world(&bytes(WORLD), "worlds/all.tsx").unwrap();
    assert_eq!(entries.len(), 2);
    assert_eq!(entries[0].filename, "first.tmx");
    let empty = decode_world(&bytes("{}"), "").unwrap();
    assert!(empty.is_empty());
}

#[test]
fn bytes_that_are_no_text_are_no_world() {
    match decode_world(&vec![0xff, 0xfe, 0x00], "worlds/all.world") {
        Err(TiledMapLoaderError::Io { kind, message }) => {
            assert_eq!(kind, IoErrorKind::Other);
            assert!(message.starts_with("Could not load Tiled world: Could not open 'worlds/all.world'"));
        }
        Ok(_) => panic!("bytes that are no text were decoded"),
    }
}
