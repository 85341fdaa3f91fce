//! The tile-map document as the rest of the library reads it: tilesets, layers and the
//! tiles they hold, all as plain values.
//!
//! A document counts rows downwards from its top-left corner. Finite layers store their
//! cells row by row; infinite layers store them in square chunks addressed by signed chunk
//! coordinates.

use vstd::prelude::*;

verus! {

/// Number of cells along the horizontal side of a chunk.
pub const CHUNK_WIDTH: u32 = 16;

/// Number of cells along the vertical side of a chunk.
pub const CHUNK_HEIGHT: u32 = 16;

/// Number of cells in one chunk.
pub const CHUNK_TILE_COUNT: usize = 256;

/// `ChunkData::WIDTH` and `ChunkData::HEIGHT` of tiled: the sides of the chunks that
/// tiled cuts infinite layers into. Both are 16 in the tiled that this library is built
/// with; tiled reserves the right to change them from one version to the next.
#[verifier::external_body]
fn tiled_chunk_size() -> (size: (u32, u32))
    ensures
        size.0 == 16,
        size.1 == 16,
{
    (tiled::ChunkData::WIDTH, tiled::ChunkData::HEIGHT)
}

/// Tests whether chunks of `width` by `height` cells are the chunks of this library.
pub fn is_chunk_size(width: u32, height: u32) -> (ok: bool)
    ensures
        ok == (width == CHUNK_WIDTH && height == CHUNK_HEIGHT),
{
    width == CHUNK_WIDTH && height == CHUNK_HEIGHT
}

/// Tests whether the chunks that tiled decodes are the chunks of this library, as they
/// are with the tiled that this library is built with. Chunks are to be taken over from
/// tiled only where they are.
pub fn tiled_chunks_fit() -> (ok: bool)
    ensures
        ok,
{
    let (width, height) = tiled_chunk_size();
    is_chunk_size(width, height)
}

/// How the grid of a map is laid out on screen.
#[derive(Clone, Copy, Debug, PartialEq, Eq, Structural)]
pub enum Orientation {
    Orthogonal,
    Isometric,
    Staggered,
    Hexagonal,
}

/// One tile as a layer references it: which tileset, which tile in it, and how it is flipped.
#[derive(Clone, Copy, Debug, PartialEq, Eq, Structural)]
pub struct LayerTile {
    /// Position of the tileset in the document's tileset list.
    pub tileset_index: usize,
    /// Identifier of the tile inside its tileset.
    pub id: u32,
    pub flip_h: bool,
    pub flip_v: bool,
    pub flip_d: bool,
}

/// A reference to an image file together with its size in pixels.
#[derive(Clone, Debug)]
pub struct ImageRef {
    pub source: String,
    pub width: i32,
    pub height: i32,
}

/// A tile of a tileset that carries data of its own, here its image if it has one.
#[derive(Clone, Debug)]
pub struct TileEntry {
    pub id: u32,
    pub image: Option<ImageRef>,
}

/// A tileset: either one shared image cut into a regular grid, or a collection of tiles
/// each with an image of its own.
#[derive(Clone, Debug)]
pub struct Tileset {
    pub name: String,
    pub tile_width: u32,
    pub tile_height: u32,
    pub spacing: u32,
    pub margin: u32,
    pub tilecount: u32,
    pub offset_x: i32,
    pub offset_y: i32,
    /// The shared image; `None` for a collection of images.
    pub image: Option<ImageRef>,
    /// The tiles that carry data, in the order in which they are to be visited.
    pub tiles: Vec<TileEntry>,
}

/// A layer of known size, stored row by row from the top.
#[derive(Clone, Debug)]
pub struct FiniteLayer {
    pub width: u32,
    pub height: u32,
    pub tiles: Vec<Option<LayerTile>>,
}

/// One chunk of an infinite layer, stored row by row from its top-left cell.
#[derive(Clone, Debug)]
pub struct Chunk {
    /// Horizontal chunk coordinate.
    pub x: i32,
    /// Vertical chunk coordinate.
    pub y: i32,
    pub tiles: Vec<Option<LayerTile>>,
}

/// A layer without declared bounds.
#[derive(Clone, Debug)]
pub struct InfiniteLayer {
    pub chunks: Vec<Chunk>,
}

/// What a layer holds.
#[derive(Clone, Debug)]
pub enum LayerKind {
    Finite(FiniteLayer),
    Infinite(InfiniteLayer),
    /// An object, image or group layer: nothing is drawn from it as tiles.
    Other,
}

#[derive(Clone, Debug)]
pub struct Layer {
    pub id: u32,
    pub name: String,
    pub kind: LayerKind,
}

#[derive(Clone, Debug)]
pub struct MapDocument {
    pub orientation: Orientation,
    /// Width of the map in tiles.
    pub width: u32,
    /// Height of the map in tiles.
    pub height: u32,
    /// Width of one grid cell in pixels.
    pub tile_width: u32,
    /// Height of one grid cell in pixels.
    pub tile_height: u32,
    pub tilesets: Vec<Tileset>,
    pub layers: Vec<Layer>,
}

/// No two entries carry the same tile identifier.
pub open spec fn tile_ids_distinct(tiles: Seq<TileEntry>) -> bool {
    forall|i: int, j: int| 0 <= i < j < tiles.len() ==> tiles[i].id != tiles[j].id
}

/// No two chunks sit at the same chunk coordinates.
pub open spec fn chunk_positions_distinct(chunks: Seq<Chunk>) -> bool {
    forall|i: int, j: int|
        0 <= i < j < chunks.len() ==> !(chunks[i].x == chunks[j].x && chunks[i].y == chunks[j].y)
}

impl Tileset {
    /// Each tile that carries data is listed once, and their number fits the identifiers.
    pub open spec fn wf(&self) -> bool {
        &&& tile_ids_distinct(self.tiles@)
        &&& self.tiles@.len() <= u32::MAX
    }

    /// Tests `wf`.
    pub fn is_valid(&self) -> (ok: bool)
        ensures
            ok == self.wf(),
    {
        let n = self.tiles.len();
        if n as u64 > u32::MAX as u64 {
            return false;
        }
        let mut j: usize = 0;
        while j < n
            invariant
                j <= n,
                n == self.tiles@.len(),
                n <= u32::MAX,
                forall|a: int, b: int| 0 <= a < b < j ==> self.tiles@[a].id != self.tiles@[b].id,
            decreases n - j,
        {
            let mut i: usize = 0;
            while i < j
                invariant
                    i <= j,
                    j < n,
                    n == self.tiles@.len(),
                    forall|a: int| 0 <= a < i ==> self.tiles@[a].id != self.tiles@[j as int].id,
                decreases j - i,
            {
                if self.tiles[i].id == self.tiles[j].id {
                    return false;
                }
                i += 1;
            }
            j += 1;
        }
        true
    }
}

impl FiniteLayer {
    /// The cells fill the declared rectangle exactly.
    pub open spec fn wf(&self) -> bool {
        self.tiles@.len() == self.width * self.height
    }

    /// The cell in column `x` of document row `y`; nothing outside the layer.
    pub open spec fn cell(&self, x: int, y: int) -> Option<LayerTile> {
        if 0 <= x < self.width && 0 <= y < self.height {
            self.tiles@[y * self.width + x]
        } else {
            None
        }
    }

    /// Tests `wf`.
    pub fn is_valid(&self) -> (ok: bool)
        ensures
            ok == self.wf(),
    {
        proof {
            lemma_product_fits(self.width as int, self.height as int);
        }
        let cells: u64 = (self.width as u64) * (self.height as u64);
        self.tiles.len() as u64 == cells
    }

    /// Reads the cell in column `x` of document row `y`.
    pub fn get(&self, x: u32, y: u32) -> (tile: Option<LayerTile>)
        requires
            self.wf(),
        ensures
            tile == self.cell(x as int, y as int),
    {
        if x < self.width && y < self.height {
            proof {
                lemma_cell_index(x as int, y as int, self.width as int, self.height as int);
                lemma_product_fits(y as int, self.width as int);
            }
            let index: u64 = (y as u64) * (self.width as u64) + (x as u64);
            let len = self.tiles.len();
            assert(index < len);
            self.tiles[index as usize]
        } else {
            None
        }
    }
}

impl Chunk {
    /// A chunk holds one cell for each position of its square.
    pub open spec fn wf(&self) -> bool {
        self.tiles@.len() == CHUNK_WIDTH * CHUNK_HEIGHT
    }

    /// The cell in column `x` of row `y` of the chunk; nothing outside it.
    pub open spec fn cell(&self, x: int, y: int) -> Option<LayerTile> {
        if 0 <= x < CHUNK_WIDTH && 0 <= y < CHUNK_HEIGHT {
            self.tiles@[y * CHUNK_WIDTH + x]
        } else {
            None
        }
    }

    /// Tests `wf`.
    pub fn is_valid(&self) -> (ok: bool)
        ensures
            ok == self.wf(),
    {
        self.tiles.len() == CHUNK_TILE_COUNT
    }

    /// Reads the cell in column `x` of row `y` of the chunk.
    pub fn get(&self, x: u32, y: u32) -> (tile: Option<LayerTile>)
        requires
            self.wf(),
        ensures
            tile == self.cell(x as int, y as int),
    {
        if x < CHUNK_WIDTH && y < CHUNK_HEIGHT {
            let index: u32 = y * CHUNK_WIDTH + x;
            self.tiles[index as usize]
        } else {
            None
        }
    }
}

impl InfiniteLayer {
    /// Every chunk is complete and no chunk position occurs twice.
    pub open spec fn wf(&self) -> bool {
        &&& forall|i: int| 0 <= i < self.chunks@.len() ==> (#[trigger] self.chunks@[i]).wf()
        &&& chunk_positions_distinct(self.chunks@)
    }

    /// Tests `wf`.
    pub fn is_valid(&self) -> (ok: bool)
        ensures
            ok == self.wf(),
    {
        let n = self.chunks.len();
        let mut j: usize = 0;
        while j < n
            invariant
                j <= n,
                n == self.chunks@.len(),
                forall|a: int| 0 <= a < j ==> (#[trigger] self.chunks@[a]).wf(),
                forall|a: int, b: int|
                    0 <= a < b < j ==> !(self.chunks@[a].x == self.chunks@[b].x && self.chunks@[a].y
                        == self.chunks@[b].y),
            decreases n - j,
        {
            if !self.chunks[j].is_valid() {
                return false;
            }
            let mut i: usize = 0;
            while i < j
                invariant
                    i <= j,
                    j < n,
                    n == self.chunks@.len(),
                    forall|a: int|
                        0 <= a < i ==> !(self.chunks@[a].x == self.chunks@[j as int].x
                            && self.chunks@[a].y == self.chunks@[j as int].y),
                decreases j - i,
            {
                if self.chunks[i].x == self.chunks[j].x && self.chunks[i].y == self.chunks[j].y {
                    return false;
                }
                i += 1;
            }
            j += 1;
        }
        true
    }
}

impl LayerKind {
    pub open spec fn wf(&self) -> bool {
        match self {
            LayerKind::Finite(layer) => layer.wf(),
            LayerKind::Infinite(layer) => layer.wf(),
            LayerKind::Other => true,
        }
    }

    /// Tests `wf`.
    pub fn is_valid(&self) -> (ok: bool)
        ensures
            ok == self.wf(),
    {
        match self {
            LayerKind::Finite(layer) => layer.is_valid(),
            LayerKind::Infinite(layer) => layer.is_valid(),
            LayerKind::Other => true,
        }
    }
}

impl MapDocument {
    /// Every tileset and every layer of the document is well formed.
    pub open spec fn wf(&self) -> bool {
        &&& forall|i: int| 0 <= i < self.tilesets@.len() ==> (#[trigger] self.tilesets@[i]).wf()
        &&& forall|i: int| 0 <= i < self.layers@.len() ==> (#[trigger] self.layers@[i]).kind.wf()
    }

    /// Tests `wf`.
    pub fn is_valid(&self) -> (ok: bool)
        ensures
            ok == self.wf(),
    {
        let mut i: usize = 0;
        while i < self.tilesets.len()
            invariant
                i <= self.tilesets@.len(),
                forall|a: int| 0 <= a < i ==> (#[trigger] self.tilesets@[a]).wf(),
            decreases self.tilesets@.len() - i,
        {
            if !self.tilesets[i].is_valid() {
                return false;
            }
            i += 1;
        }
        let mut k: usize = 0;
        while k < self.layers.len()
            invariant
                k <= self.layers@.len(),
                forall|a: int| 0 <= a < self.tilesets@.len() ==> (#[trigger] self.tilesets@[a]).wf(),
                forall|a: int| 0 <= a < k ==> (#[trigger] self.layers@[a]).kind.wf(),
            decreases self.layers@.len() - k,
        {
            if !self.layers[k].kind.is_valid() {
                return false;
            }
            k += 1;
        }
        true
    }
}

/// The product of two 32-bit magnitudes fits in 64 bits with room to spare.
pub proof fn lemma_product_fits(a: int, b: int)
    requires
        0 <= a <= u32::MAX,
        0 <= b <= u32::MAX,
    ensures
        0 <= a * b <= 0xFFFF_FFFE_0000_0001,
{
    assert(0 <= a * b <= 0xFFFF_FFFF * 0xFFFF_FFFF) by (nonlinear_arith)
        requires
            0 <= a <= 0xFFFF_FFFF,
            0 <= b <= 0xFFFF_FFFF,
    ;
}

/// A cell inside a `width` by `height` grid has a row-major index inside the grid.
pub proof fn lemma_cell_index(x: int, y: int, width: int, height: int)
    requires
        0 <= x < width,
        0 <= y < height,
    ensures
        0 <= y * width + x < width * height,
        y * width >= 0,
{
    assert(y * width >= 0) by (nonlinear_arith)
        requires
            0 <= y,
            0 < width,
    ;
    assert((y + 1) * width <= height * width) by (nonlinear_arith)
        requires
            y + 1 <= height,
            0 < width,
    ;
    assert((y + 1) * width == y * width + width) by (nonlinear_arith);
    assert(height * width == width * height) by (nonlinear_arith);
}

} // verus!
