//! Loading a map document: where its resources are read from and how a failure is
//! reported.
//!
//! A document may refer to tilesets in files of their own. Those are read through the
//! caller; every other path is answered from the bytes of the document itself.

use vstd::prelude::*;
use vstd::string::*;

verus! {

/// The kind of a failed read.
#[derive(Clone, Copy, Debug, PartialEq, Eq, Structural)]
pub enum IoErrorKind {
    NotFound,
    Other,
}

/// Why a map could not be loaded.
#[derive(Debug)]
pub enum TiledMapLoaderError {
    /// Reading or decoding failed.
    Io { kind: IoErrorKind, message: String },
}

/// Where a resource is read from.
#[derive(Clone, Copy, Debug, PartialEq, Eq, Structural)]
pub enum ResourceSource {
    /// From the bytes of the document that is being loaded.
    Document,
    /// From a file of its own, through the caller.
    External,
}

/// The extension is that of a tileset file.
pub open spec fn is_tileset_extension(extension: Option<&str>) -> bool {
    extension matches Some(e) && e@ == "tsx"@
}

/// Decides where the resource with the given file extension is read from: a tileset file
/// from outside, everything else from the document.
pub fn read_from(extension: Option<&str>) -> (source: ResourceSource)
    ensures
        source is External <==> is_tileset_extension(extension),
{
    match extension {
        Some(e) => {
            let given = String::from_str(e);
            let tileset = String::from_str("tsx");
            if given == tileset {
                ResourceSource::External
            } else {
                ResourceSource::Document
            }
        },
        None => ResourceSource::Document,
    }
}

impl TiledMapLoaderError {
    /// The failure of an outside read: whatever went wrong, the resource counts as not
    /// found.
    pub fn not_found(cause: &str) -> (error: TiledMapLoaderError)
        ensures
            error matches TiledMapLoaderError::Io { kind, message } && kind
                == IoErrorKind::NotFound && message@ == cause@,
    {
        TiledMapLoaderError::Io { kind: IoErrorKind::NotFound, message: String::from_str(cause) }
    }

    /// The failure of decoding a document, with what the decoder said.
    pub fn parse_failure(cause: &str) -> (error: TiledMapLoaderError)
        ensures
            error matches TiledMapLoaderError::Io { kind, message } && kind == IoErrorKind::Other
                && message@ == "Could not load TMX map: "@ + cause@,
    {
        let message = String::from_str("Could not load TMX map: ").concat(cause);
        TiledMapLoaderError::Io { kind: IoErrorKind::Other, message }
    }

    /// The failure of decoding a world document, with what the decoder said.
    pub fn world_failure(cause: &str) -> (error: TiledMapLoaderError)
        ensures
            error matches TiledMapLoaderError::Io { kind, message } && kind == IoErrorKind::Other
                && message@ == "Could not load Tiled world: "@ + cause@,
    {
        let message = String::from_str("Could not load Tiled world: ").concat(cause);
        TiledMapLoaderError::Io { kind: IoErrorKind::Other, message }
    }

    /// What the error says.
    pub open spec fn text(&self) -> Seq<char> {
        match self {
            TiledMapLoaderError::Io { kind, message } => "Could not load Tiled file: "@
                + message@,
        }
    }

    /// Writes the error out.
    pub fn to_string(&self) -> (text: String)
        ensures
            text@ == self.text(),
    {
        match self {
            TiledMapLoaderError::Io { kind, message } => String::from_str(
                "Could not load Tiled file: ",
            ).concat(message.as_str()),
        }
    }
}

} // verus!
