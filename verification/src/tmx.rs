//! Answering the decoder, and reporting how a decoding ended.
//!
//! Documents are decoded by tiled. While it decodes, tiled asks for every resource that
//! the document refers to; `resolve` answers it from the bytes of the document and from
//! the tileset files that the caller has brought along. However a decoding ended,
//! `report` and `report_world` say what is made of it: what was decoded is handed on as
//! it is, and the words of a failure become a load error.
//!
//! A world document refers to nothing that is read while it is decoded, so it is decoded
//! here: tiled asks once, for the document itself, and is handed its bytes whatever path
//! it asks for. What tiled makes of the bytes has the name `tiled_world`. A map document
//! is decoded by the caller, beside the reading of its files.

use crate::loader::{read_from, IoErrorKind, ResourceSource, TiledMapLoaderError};
use crate::world::WorldMapEntry;
use vstd::prelude::*;
use vstd::string::*;

verus! {

/// A tileset file that the caller has read, under the path by which the document
/// refers to it.
#[derive(Debug)]
pub struct ExternalResource {
    pub path: String,
    pub bytes: Vec<u8>,
}

/// The resource at position `i` is the first with the given path.
pub open spec fn first_at(externals: Seq<ExternalResource>, path: Seq<char>, i: int) -> bool {
    &&& 0 <= i < externals.len()
    &&& externals[i].path@ == path
    &&& forall|k: int| 0 <= k < i ==> (#[trigger] externals[k]).path@ != path
}

/// No resource has the given path.
pub open spec fn missing(externals: Seq<ExternalResource>, path: Seq<char>) -> bool {
    forall|k: int| 0 <= k < externals.len() ==> (#[trigger] externals[k]).path@ != path
}

/// Copies bytes.
pub fn copy_bytes(bytes: &Vec<u8>) -> (copy: Vec<u8>)
    ensures
        copy@ == bytes@,
{
    let mut copy: Vec<u8> = Vec::new();
    let mut i: usize = 0;
    while i < bytes.len()
        invariant
            i <= bytes@.len(),
            copy@ == bytes@.take(i as int),
        decreases bytes@.len() - i,
    {
        copy.push(bytes[i]);
        assert(copy@ =~= bytes@.take(i + 1));
        i += 1;
    }
    assert(bytes@.take(bytes@.len() as int) =~= bytes@);
    copy
}

/// Answers a request for the resource at `path` with the file extension `extension`: a
/// tileset file with the bytes of the first resource brought along under that path, and
/// as not found where there is none; anything else with the bytes of the document.
pub fn resolve(
    extension: Option<&str>,
    path: &str,
    bytes: &Vec<u8>,
    externals: &Vec<ExternalResource>,
) -> (result: Result<Vec<u8>, TiledMapLoaderError>)
    ensures
        match result {
            Ok(data) => if crate::loader::is_tileset_extension(extension) {
                exists|i: int|
                    first_at(externals@, path@, i) && data@ == (#[trigger] externals@[i]).bytes@
            } else {
                data@ == bytes@
            },
            Err(error) => {
                &&& crate::loader::is_tileset_extension(extension)
                &&& missing(externals@, path@)
                &&& error matches TiledMapLoaderError::Io { kind, message }
                &&& kind == IoErrorKind::NotFound
                &&& message@ == path@
            },
        },
{
    match read_from(extension) {
        ResourceSource::Document => Ok(copy_bytes(bytes)),
        ResourceSource::External => {
            let wanted = String::from_str(path);
            let mut i: usize = 0;
            while i < externals.len()
                invariant
                    i <= externals@.len(),
                    wanted@ == path@,
                    crate::loader::is_tileset_extension(extension),
                    forall|k: int| 0 <= k < i ==> (#[trigger] externals@[k]).path@ != path@,
                decreases externals@.len() - i,
            {
                if externals[i].path == wanted {
                    let data = copy_bytes(&externals[i].bytes);
                    assert(first_at(externals@, path@, i as int));
                    assert(data@ == externals@[i as int].bytes@);
                    return Ok(data);
                }
                i += 1;
            }
            Err(TiledMapLoaderError::not_found(path))
        },
    }
}

/// What tiled makes of a world document with the given bytes, loaded under the given
/// path: the maps that it lists, in their order, each with its file name, its position
/// and its size where it has one; or the words of the failure.
pub uninterp spec fn tiled_world(bytes: Seq<u8>, path: Seq<char>) -> Result<
    Seq<(Seq<char>, i32, i32, Option<i32>, Option<i32>)>,
    Seq<char>,
>;

/// Where a map of a world lies: its file name, its position and its size.
pub open spec fn placement(entry: WorldMapEntry) -> (Seq<char>, i32, i32, Option<i32>, Option<i32>) {
    (entry.filename@, entry.x, entry.y, entry.width, entry.height)
}

/// How a decoding ended, in plain values: the placements of the listed maps, or the words
/// of the failure.
pub open spec fn decoded(parsed: Result<Vec<WorldMapEntry>, String>) -> Result<
    Seq<(Seq<char>, i32, i32, Option<i32>, Option<i32>)>,
    Seq<char>,
> {
    match parsed {
        Ok(listed) => Ok(listed@.map_values(|entry: WorldMapEntry| placement(entry))),
        Err(cause) => Err(cause@),
    }
}

/// `Loader::load_world` of tiled, on a loader whose reader answers every request with the
/// bytes of the document. The maps of the decoded world are copied out field by field,
/// and a failure is turned into its words by the error's `Display`. What comes out is
/// what `tiled_world` names: it depends on the bytes and the path alone.
#[verifier::external_body]
fn parse_world(bytes: &Vec<u8>, path: &str) -> (parsed: Result<Vec<WorldMapEntry>, String>)
    ensures
        decoded(parsed) == tiled_world(bytes@, path@),
{
    let reader = |_: &std::path::Path| -> std::io::Result<std::io::Cursor<Vec<u8>>> {
        Ok(std::io::Cursor::new(copy_bytes(bytes)))
    };
    match tiled::Loader::with_reader(reader).load_world(path) {
        Ok(w) => Ok(w.maps.iter().map(|m| WorldMapEntry {
            filename: m.filename.clone(), x: m.x, y: m.y, width: m.width, height: m.height, map: None,
        }).collect()),
        Err(e) => Err(e.to_string()),
    }
}

/// The error is of the other kind, and its message is `words` and then `cause`.
pub open spec fn says(error: TiledMapLoaderError, words: Seq<char>, cause: Seq<char>) -> bool {
    error matches TiledMapLoaderError::Io { kind, message } && kind == IoErrorKind::Other
        && message@ == words + cause
}

/// The error is of the other kind, and its message starts with `words`.
pub open spec fn starts_with(error: TiledMapLoaderError, words: Seq<char>) -> bool {
    error matches TiledMapLoaderError::Io { kind, message } && kind == IoErrorKind::Other
        && message@.len() >= words.len() && message@.subrange(0, words.len() as int) == words
}

/// The error is that of a map document that could not be decoded, with the words `cause`
/// of the decoder.
pub open spec fn is_failure_with(error: TiledMapLoaderError, cause: Seq<char>) -> bool {
    says(error, "Could not load TMX map: "@, cause)
}

/// The error is that of a map document that could not be decoded.
pub open spec fn is_parse_failure(error: TiledMapLoaderError) -> bool {
    starts_with(error, "Could not load TMX map: "@)
}

/// The error is that of a world document that could not be decoded, with the words
/// `cause` of the decoder.
pub open spec fn is_world_failure_with(error: TiledMapLoaderError, cause: Seq<char>) -> bool {
    says(error, "Could not load Tiled world: "@, cause)
}

/// The error is that of a world document that could not be decoded.
pub open spec fn is_world_failure(error: TiledMapLoaderError) -> bool {
    starts_with(error, "Could not load Tiled world: "@)
}

/// A message that is some words and then a cause starts with the words.
pub proof fn lemma_says_starts_with(error: TiledMapLoaderError, words: Seq<char>, cause: Seq<char>)
    requires
        says(error, words, cause),
    ensures
        starts_with(error, words),
{
    assert((words + cause).subrange(0, words.len() as int) =~= words);
}

/// Reports how the decoding of a map document ended: what was decoded is handed on as it
/// is, and the words of a failure become a load error. No document that failed to decode
/// comes out as decoded.
pub fn report<T>(parsed: Result<T, String>) -> (result: Result<T, TiledMapLoaderError>)
    ensures
        match parsed {
            Ok(decoded) => result == Ok::<T, TiledMapLoaderError>(decoded),
            Err(cause) => result matches Err(error) && is_failure_with(error, cause@),
        },
        result matches Err(error) ==> is_parse_failure(error),
{
    match parsed {
        Ok(decoded) => Ok(decoded),
        Err(cause) => {
            let error = TiledMapLoaderError::parse_failure(cause.as_str());
            proof {
                lemma_says_starts_with(error, "Could not load TMX map: "@, cause@);
            }
            Err(error)
        },
    }
}

/// Reports how the decoding of a world document ended: what was decoded is handed on as
/// it is, and the words of a failure become a load error.
pub fn report_world<T>(parsed: Result<T, String>) -> (result: Result<T, TiledMapLoaderError>)
    ensures
        match parsed {
            Ok(decoded) => result == Ok::<T, TiledMapLoaderError>(decoded),
            Err(cause) => result matches Err(error) && is_world_failure_with(error, cause@),
        },
        result matches Err(error) ==> is_world_failure(error),
{
    match parsed {
        Ok(decoded) => Ok(decoded),
        Err(cause) => {
            let error = TiledMapLoaderError::world_failure(cause.as_str());
            proof {
                lemma_says_starts_with(error, "Could not load Tiled world: "@, cause@);
            }
            Err(error)
        },
    }
}

/// `entry` as it is before its map is resolved.
pub open spec fn unresolved(entry: WorldMapEntry) -> WorldMapEntry {
    WorldMapEntry {
        filename: entry.filename,
        x: entry.x,
        y: entry.y,
        width: entry.width,
        height: entry.height,
        map: None,
    }
}

/// Lists the maps of a world anew, in their order, each as it is before its map is
/// resolved.
pub fn list_unresolved(listed: &Vec<WorldMapEntry>) -> (entries: Vec<WorldMapEntry>)
    ensures
        entries@.len() == listed@.len(),
        forall|i: int| 0 <= i < listed@.len() ==> #[trigger] entries@[i] == unresolved(listed@[i]),
{
    let mut entries: Vec<WorldMapEntry> = Vec::new();
    let mut i: usize = 0;
    while i < listed.len()
        invariant
            i <= listed@.len(),
            entries@.len() == i,
            forall|k: int| 0 <= k < i ==> #[trigger] entries@[k] == unresolved(listed@[k]),
        decreases listed@.len() - i,
    {
        entries.push(
            WorldMapEntry {
                filename: listed[i].filename.clone(),
                x: listed[i].x,
                y: listed[i].y,
                width: listed[i].width,
                height: listed[i].height,
                map: None,
            },
        );
        i += 1;
    }
    entries
}

/// Decodes a world document from its bytes and lists its maps, none of them resolved
/// yet. It succeeds exactly where tiled decodes the document, with the maps that tiled
/// lists; a failure is that of a world that could not be decoded, with the words of
/// tiled.
pub fn decode_world(bytes: &Vec<u8>, path: &str) -> (result: Result<
    Vec<WorldMapEntry>,
    TiledMapLoaderError,
>)
    ensures
        match tiled_world(bytes@, path@) {
            Ok(maps) => {
                &&& result matches Ok(entries)
                &&& entries@.len() == maps.len()
                &&& forall|i: int|
                    0 <= i < maps.len() ==> placement(#[trigger] entries@[i]) == maps[i]
                        && entries@[i].map is None
            },
            Err(cause) => result matches Err(error) && is_world_failure_with(error, cause),
        },
        result matches Err(error) ==> is_world_failure(error),
{
    let listed = match parse_world(bytes, path) {
        Ok(listed) => Ok(list_unresolved(&listed)),
        Err(cause) => Err(cause),
    };
    report_world(listed)
}

} // verus!
