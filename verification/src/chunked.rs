//! Materializing an infinite layer, whose tiles come in chunks at signed chunk coordinates.
//!
//! The chunks are scanned once for the least and the greatest coordinate on each axis.
//! The grid spans the chunks between them, and every chunk is shifted so that the least
//! coordinate becomes 0; what the shift moved away is the origin of the layer. A layer
//! without chunks counts as one whose only chunk coordinate is 0.

use crate::asset::TiledMapTileset;
use crate::document::{chunk_positions_distinct, Chunk, InfiniteLayer, CHUNK_HEIGHT, CHUNK_WIDTH};
use crate::geometry::{is_greatest, is_least};
use crate::materialize::{flipped_row, place_tile, placed_tile, unbound, Placement};
use crate::storage::{PlacedTile, TileGrid};
use vstd::prelude::*;

verus! {

/// The least and the greatest chunk coordinate of a layer on each axis.
#[derive(Clone, Copy, Debug, PartialEq, Eq, Structural)]
pub struct ChunkBounds {
    pub min_x: i32,
    pub min_y: i32,
    pub max_x: i32,
    pub max_y: i32,
}

/// The horizontal chunk coordinates, in the order of the chunks.
pub open spec fn chunk_xs(chunks: Seq<Chunk>) -> Seq<int> {
    Seq::new(chunks.len(), |i: int| chunks[i].x as int)
}

/// The vertical chunk coordinates, in the order of the chunks.
pub open spec fn chunk_ys(chunks: Seq<Chunk>) -> Seq<int> {
    Seq::new(chunks.len(), |i: int| chunks[i].y as int)
}

/// The chunk at position `i` sits at chunk coordinates `(cx, cy)`.
pub open spec fn is_chunk_at(chunks: Seq<Chunk>, i: int, cx: int, cy: int) -> bool {
    0 <= i < chunks.len() && chunks[i].x == cx && chunks[i].y == cy
}

/// The position of the chunk at chunk coordinates `(cx, cy)`, if there is one.
pub open spec fn chunk_index_at(chunks: Seq<Chunk>, cx: int, cy: int) -> Option<int> {
    if exists|i: int| is_chunk_at(chunks, i, cx, cy) {
        Some(choose|i: int| is_chunk_at(chunks, i, cx, cy))
    } else {
        None
    }
}

/// With distinct chunk positions, a chunk is the one found at its coordinates.
pub proof fn lemma_chunk_index_unique(chunks: Seq<Chunk>, i: int)
    requires
        chunk_positions_distinct(chunks),
        0 <= i < chunks.len(),
    ensures
        chunk_index_at(chunks, chunks[i].x as int, chunks[i].y as int) == Some(i),
{
    let cx = chunks[i].x as int;
    let cy = chunks[i].y as int;
    assert(is_chunk_at(chunks, i, cx, cy));
    let j = choose|j: int| is_chunk_at(chunks, j, cx, cy);
    if j < i {
        assert(!(chunks[j].x == chunks[i].x && chunks[j].y == chunks[i].y));
    } else if i < j {
        assert(!(chunks[i].x == chunks[j].x && chunks[i].y == chunks[j].y));
    }
}

/// A number of chunks as a number of cells along a side of `side` cells.
fn scale(count: i64, side: u32) -> (cells: i64)
    requires
        -0x1_0000_0000 <= count <= 0x1_0000_0000,
        side <= 16,
    ensures
        cells == count * side,
{
    assert(-0x10_0000_0000 <= count * side <= 0x10_0000_0000) by (nonlinear_arith)
        requires
            -0x1_0000_0000 <= count <= 0x1_0000_0000,
            0 <= side <= 16,
    ;
    count * (side as i64)
}

impl ChunkBounds {
    /// The bounds of `chunks`: the least and the greatest coordinate on each axis, 0 for a
    /// layer without chunks.
    pub open spec fn of(chunks: Seq<Chunk>) -> ChunkBounds {
        ChunkBounds {
            min_x: chunk_xs(chunks).min() as i32,
            min_y: chunk_ys(chunks).min() as i32,
            max_x: chunk_xs(chunks).max() as i32,
            max_y: chunk_ys(chunks).max() as i32,
        }
    }

    /// These are the bounds of `chunks`.
    pub open spec fn bounds(&self, chunks: Seq<Chunk>) -> bool {
        &&& is_least(chunk_xs(chunks), self.min_x as int)
        &&& is_least(chunk_ys(chunks), self.min_y as int)
        &&& is_greatest(chunk_xs(chunks), self.max_x as int)
        &&& is_greatest(chunk_ys(chunks), self.max_y as int)
    }

    /// Number of columns of the grid that spans the bounds.
    pub open spec fn columns(&self) -> int {
        (self.max_x - self.min_x + 1) * CHUNK_WIDTH
    }

    /// Number of rows of the grid that spans the bounds.
    pub open spec fn rows(&self) -> int {
        (self.max_y - self.min_y + 1) * CHUNK_HEIGHT
    }

    /// Column of the grid in which column 0 of the document lies.
    pub open spec fn origin_x(&self) -> int {
        -self.min_x * CHUNK_WIDTH
    }

    /// Row, counted from the top of the grid, in which row 0 of the document lies.
    pub open spec fn origin_y(&self) -> int {
        -self.min_y * CHUNK_HEIGHT
    }

    /// The grid can be held: its sides fit in 32 bits and its cells can be counted.
    pub open spec fn fits(&self) -> bool {
        &&& self.min_x <= self.max_x
        &&& self.min_y <= self.max_y
        &&& self.columns() <= u32::MAX
        &&& self.rows() <= u32::MAX
        &&& self.columns() * self.rows() <= usize::MAX
    }

    /// The size of the grid, where it `fits`.
    pub fn size(&self) -> (size: Option<(u32, u32)>)
        ensures
            size is Some <==> self.fits(),
            size matches Some((columns, rows)) ==> columns == self.columns() && rows
                == self.rows(),
    {
        if self.min_x > self.max_x || self.min_y > self.max_y {
            return None;
        }
        let columns: i64 = scale(self.max_x as i64 - self.min_x as i64 + 1, CHUNK_WIDTH);
        let rows: i64 = scale(self.max_y as i64 - self.min_y as i64 + 1, CHUNK_HEIGHT);
        if columns > u32::MAX as i64 || rows > u32::MAX as i64 {
            return None;
        }
        proof {
            crate::document::lemma_product_fits(columns as int, rows as int);
        }
        let cells: u64 = (columns as u64) * (rows as u64);
        if cells > usize::MAX as u64 {
            return None;
        }
        Some((columns as u32, rows as u32))
    }

    /// The origin of the layer: the cell of the grid, rows counted from the top, on which
    /// the document's cell `(0, 0)` lies.
    pub fn origin(&self) -> (origin: (i64, i64))
        ensures
            origin.0 == self.origin_x(),
            origin.1 == self.origin_y(),
    {
        (scale(0 - (self.min_x as i64), CHUNK_WIDTH), scale(0 - (self.min_y as i64), CHUNK_HEIGHT))
    }
}

/// `ChunkBounds::of` gives bounds: each is the coordinate of a chunk, none lies beyond.
pub proof fn lemma_bounds_of(chunks: Seq<Chunk>)
    ensures
        ChunkBounds::of(chunks).bounds(chunks),
        ChunkBounds::of(chunks).min_x == chunk_xs(chunks).min(),
        ChunkBounds::of(chunks).max_x == chunk_xs(chunks).max(),
        ChunkBounds::of(chunks).min_y == chunk_ys(chunks).min(),
        ChunkBounds::of(chunks).max_y == chunk_ys(chunks).max(),
{
    let xs = chunk_xs(chunks);
    let ys = chunk_ys(chunks);
    xs.min_ensures();
    xs.max_ensures();
    ys.min_ensures();
    ys.max_ensures();
    if chunks.len() > 0 {
        let a = choose|i: int| 0 <= i < xs.len() && xs[i] == xs.min();
        let b = choose|i: int| 0 <= i < xs.len() && xs[i] == xs.max();
        let c = choose|i: int| 0 <= i < ys.len() && ys[i] == ys.min();
        let d = choose|i: int| 0 <= i < ys.len() && ys[i] == ys.max();
        assert(xs[a] == chunks[a].x && xs[b] == chunks[b].x);
        assert(ys[c] == chunks[c].y && ys[d] == chunks[d].y);
    }
}

/// The bounds of a sequence of chunks are determined by it.
pub proof fn lemma_bounds_unique(chunks: Seq<Chunk>, first: ChunkBounds, second: ChunkBounds)
    requires
        first.bounds(chunks),
        second.bounds(chunks),
    ensures
        first == second,
{
    if chunks.len() > 0 {
        let xs = chunk_xs(chunks);
        let ys = chunk_ys(chunks);
        let a = choose|i: int| 0 <= i < xs.len() && xs[i] == first.min_x;
        let b = choose|i: int| 0 <= i < xs.len() && xs[i] == second.min_x;
        assert(first.min_x <= xs[b] && second.min_x <= xs[a]);
        let a = choose|i: int| 0 <= i < ys.len() && ys[i] == first.min_y;
        let b = choose|i: int| 0 <= i < ys.len() && ys[i] == second.min_y;
        assert(first.min_y <= ys[b] && second.min_y <= ys[a]);
        let a = choose|i: int| 0 <= i < xs.len() && xs[i] == first.max_x;
        let b = choose|i: int| 0 <= i < xs.len() && xs[i] == second.max_x;
        assert(first.max_x >= xs[b] && second.max_x >= xs[a]);
        let a = choose|i: int| 0 <= i < ys.len() && ys[i] == first.max_y;
        let b = choose|i: int| 0 <= i < ys.len() && ys[i] == second.max_y;
        assert(first.max_y >= ys[b] && second.max_y >= ys[a]);
    }
}

/// Scans the chunks of a layer for their bounds.
pub fn chunk_bounds(layer: &InfiniteLayer) -> (bounds: ChunkBounds)
    ensures
        bounds == ChunkBounds::of(layer.chunks@),
        bounds.bounds(layer.chunks@),
{
    proof {
        lemma_bounds_of(layer.chunks@);
        assert forall|other: ChunkBounds| other.bounds(layer.chunks@) implies other
            == ChunkBounds::of(layer.chunks@) by {
            lemma_bounds_unique(layer.chunks@, other, ChunkBounds::of(layer.chunks@));
        }
    }
    let n = layer.chunks.len();
    let ghost xs = chunk_xs(layer.chunks@);
    let ghost ys = chunk_ys(layer.chunks@);
    if n == 0 {
        return ChunkBounds { min_x: 0, min_y: 0, max_x: 0, max_y: 0 };
    }
    let mut bounds = ChunkBounds {
        min_x: layer.chunks[0].x,
        min_y: layer.chunks[0].y,
        max_x: layer.chunks[0].x,
        max_y: layer.chunks[0].y,
    };
    let ghost mut at_min_x: int = 0;
    let ghost mut at_min_y: int = 0;
    let ghost mut at_max_x: int = 0;
    let ghost mut at_max_y: int = 0;
    let mut i: usize = 1;
    while i < n
        invariant
            1 <= i <= n,
            n == layer.chunks@.len(),
            xs == chunk_xs(layer.chunks@),
            ys == chunk_ys(layer.chunks@),
            0 <= at_min_x < i && xs[at_min_x] == bounds.min_x,
            0 <= at_min_y < i && ys[at_min_y] == bounds.min_y,
            0 <= at_max_x < i && xs[at_max_x] == bounds.max_x,
            0 <= at_max_y < i && ys[at_max_y] == bounds.max_y,
            forall|k: int| 0 <= k < i ==> bounds.min_x <= #[trigger] xs[k] <= bounds.max_x,
            forall|k: int| 0 <= k < i ==> bounds.min_y <= #[trigger] ys[k] <= bounds.max_y,
        decreases n - i,
    {
        let chunk = &layer.chunks[i];
        assert(xs[i as int] == chunk.x && ys[i as int] == chunk.y);
        if chunk.x < bounds.min_x {
            bounds.min_x = chunk.x;
            proof {
                at_min_x = i as int;
            }
        }
        if chunk.x > bounds.max_x {
            bounds.max_x = chunk.x;
            proof {
                at_max_x = i as int;
            }
        }
        if chunk.y < bounds.min_y {
            bounds.min_y = chunk.y;
            proof {
                at_min_y = i as int;
            }
        }
        if chunk.y > bounds.max_y {
            bounds.max_y = chunk.y;
            proof {
                at_max_y = i as int;
            }
        }
        i += 1;
    }
    bounds
}

/// What the grid of an infinite layer holds at `(x, y)`: the cell of the chunk that
/// covers the position, found by undoing the shift and the mirroring of rows.
pub open spec fn infinite_cell(
    chunks: Seq<Chunk>,
    bounds: ChunkBounds,
    tileset_index: usize,
    binding: &TiledMapTileset,
    x: int,
    y: int,
) -> Option<PlacedTile> {
    let row = flipped_row(bounds.rows(), y);
    match chunk_index_at(
        chunks,
        bounds.min_x + x / (CHUNK_WIDTH as int),
        bounds.min_y + row / (CHUNK_HEIGHT as int),
    ) {
        Some(i) => placed_tile(
            chunks[i].cell(x % (CHUNK_WIDTH as int), row % (CHUNK_HEIGHT as int)),
            tileset_index,
            binding,
            x,
            y,
        ),
        None => None,
    }
}

/// Every tile of the tileset in every chunk has a texture index.
pub open spec fn infinite_bound(
    chunks: Seq<Chunk>,
    tileset_index: usize,
    binding: &TiledMapTileset,
) -> bool {
    forall|i: int, x: int, y: int|
        0 <= i < chunks.len() && 0 <= x < CHUNK_WIDTH && 0 <= y < CHUNK_HEIGHT ==> !unbound(
            #[trigger] chunks[i].cell(x, y),
            tileset_index,
            binding,
        )
}

/// `storage` is the grid of the infinite layer for the tileset: as large as the bounds of
/// the chunks say, each cell holding what `infinite_cell` says.
pub open spec fn is_infinite_storage(
    storage: &TileGrid,
    chunks: Seq<Chunk>,
    bounds: ChunkBounds,
    tileset_index: usize,
    binding: &TiledMapTileset,
) -> bool {
    &&& bounds.bounds(chunks)
    &&& storage.wf()
    &&& storage.width == bounds.columns()
    &&& storage.height == bounds.rows()
    &&& forall|x: int, y: int|
        0 <= x < storage.width && 0 <= y < storage.height ==> #[trigger] storage.cell(x, y)
            == infinite_cell(chunks, bounds, tileset_index, binding, x, y)
}

/// The cell at `(x, y)` while chunk `done` is being copied: of the chunks before it
/// everything, of the chunk itself the cells before `(column, row)` in row-major order.
spec fn copied_cell(
    chunks: Seq<Chunk>,
    bounds: ChunkBounds,
    tileset_index: usize,
    binding: &TiledMapTileset,
    done: int,
    row: int,
    column: int,
    x: int,
    y: int,
) -> Option<PlacedTile> {
    let from_top = flipped_row(bounds.rows(), y);
    match chunk_index_at(
        chunks,
        bounds.min_x + x / (CHUNK_WIDTH as int),
        bounds.min_y + from_top / (CHUNK_HEIGHT as int),
    ) {
        Some(i) => {
            let local_x = x % (CHUNK_WIDTH as int);
            let local_y = from_top % (CHUNK_HEIGHT as int);
            if i < done || (i == done && (local_y < row || (local_y == row && local_x < column))) {
                placed_tile(chunks[i].cell(local_x, local_y), tileset_index, binding, x, y)
            } else {
                None
            }
        },
        None => None,
    }
}

/// Materializes an infinite layer for one tileset, chunk by chunk. Gives nothing exactly
/// when the grid cannot be held or a tile of the tileset has no texture index.
pub fn try_materialize_infinite(
    layer: &InfiniteLayer,
    tileset_index: usize,
    binding: &TiledMapTileset,
) -> (result: Option<(TileGrid, ChunkBounds)>)
    requires
        layer.wf(),
    ensures
        result is Some <==> ChunkBounds::of(layer.chunks@).fits() && infinite_bound(
            layer.chunks@,
            tileset_index,
            binding,
        ),
        result matches Some((storage, bounds)) ==> bounds == ChunkBounds::of(layer.chunks@)
            && is_infinite_storage(&storage, layer.chunks@, bounds, tileset_index, binding),
{
    let bounds = chunk_bounds(layer);
    let ghost chunks = layer.chunks@;
    let (columns, rows) = match bounds.size() {
        Some(size) => size,
        None => {
            return None;
        },
    };
    let mut storage = TileGrid::empty(columns, rows);
    let n = layer.chunks.len();
    let mut k: usize = 0;
    while k < n
        invariant
            k <= n,
            n == chunks.len(),
            chunks == layer.chunks@,
            layer.wf(),
            bounds.bounds(chunks),
            bounds.fits(),
            columns == bounds.columns(),
            rows == bounds.rows(),
            storage.wf(),
            storage.width == columns,
            storage.height == rows,
            forall|x: int, y: int|
                0 <= x < columns && 0 <= y < rows ==> #[trigger] storage.cell(x, y) == copied_cell(
                    chunks,
                    bounds,
                    tileset_index,
                    binding,
                    k as int,
                    0,
                    0,
                    x,
                    y,
                ),
            forall|i: int, x: int, y: int|
                0 <= i < k && 0 <= x < CHUNK_WIDTH && 0 <= y < CHUNK_HEIGHT ==> !unbound(
                    #[trigger] chunks[i].cell(x, y),
                    tileset_index,
                    binding,
                ),
        decreases n - k,
    {
        let chunk = &layer.chunks[k];
        assert(chunk.wf());
        proof {
            lemma_chunk_index_unique(chunks, k as int);
            assert(chunk_xs(chunks)[k as int] == chunk.x);
            assert(chunk_ys(chunks)[k as int] == chunk.y);
        }
        let base_x: i64 = scale(chunk.x as i64 - bounds.min_x as i64, CHUNK_WIDTH);
        let base_y: i64 = scale(chunk.y as i64 - bounds.min_y as i64, CHUNK_HEIGHT);
        let mut row: u32 = 0;
        while row < CHUNK_HEIGHT
            invariant
                row <= CHUNK_HEIGHT,
                k < n,
                n == chunks.len(),
                chunks == layer.chunks@,
                *chunk == chunks[k as int],
                chunk.wf(),
                chunk_positions_distinct(chunks),
                chunk_index_at(chunks, chunk.x as int, chunk.y as int) == Some(k as int),
                bounds.min_x <= chunk.x <= bounds.max_x,
                bounds.min_y <= chunk.y <= bounds.max_y,
                bounds.fits(),
                columns == bounds.columns(),
                rows == bounds.rows(),
                base_x == (chunk.x - bounds.min_x) * CHUNK_WIDTH,
                base_y == (chunk.y - bounds.min_y) * CHUNK_HEIGHT,
                storage.wf(),
                storage.width == columns,
                storage.height == rows,
                forall|x: int, y: int|
                    0 <= x < columns && 0 <= y < rows ==> #[trigger] storage.cell(x, y)
                        == copied_cell(
                        chunks,
                        bounds,
                        tileset_index,
                        binding,
                        k as int,
                        row as int,
                        0,
                        x,
                        y,
                    ),
                forall|i: int, x: int, y: int|
                    0 <= i < k && 0 <= x < CHUNK_WIDTH && 0 <= y < CHUNK_HEIGHT ==> !unbound(
                        #[trigger] chunks[i].cell(x, y),
                        tileset_index,
                        binding,
                    ),
                forall|x: int, y: int|
                    0 <= x < CHUNK_WIDTH && 0 <= y < row ==> !unbound(
                        #[trigger] chunk.cell(x, y),
                        tileset_index,
                        binding,
                    ),
            decreases CHUNK_HEIGHT - row,
        {
            let from_top: i64 = base_y + row as i64;
            let target_y: u32 = (rows as i64 - 1 - from_top) as u32;
            let mut column: u32 = 0;
            while column < CHUNK_WIDTH
                invariant
                    column <= CHUNK_WIDTH,
                    row < CHUNK_HEIGHT,
                    k < n,
                    n == chunks.len(),
                    chunks == layer.chunks@,
                    *chunk == chunks[k as int],
                    chunk.wf(),
                    chunk_index_at(chunks, chunk.x as int, chunk.y as int) == Some(k as int),
                    bounds.min_x <= chunk.x <= bounds.max_x,
                    bounds.min_y <= chunk.y <= bounds.max_y,
                    bounds.fits(),
                    columns == bounds.columns(),
                    rows == bounds.rows(),
                    base_x == (chunk.x - bounds.min_x) * CHUNK_WIDTH,
                    base_y == (chunk.y - bounds.min_y) * CHUNK_HEIGHT,
                    from_top == base_y + row,
                    target_y == flipped_row(rows as int, from_top as int),
                    0 <= target_y < rows,
                    storage.wf(),
                    storage.width == columns,
                    storage.height == rows,
                    forall|x: int, y: int|
                        0 <= x < columns && 0 <= y < rows ==> #[trigger] storage.cell(x, y)
                            == copied_cell(
                            chunks,
                            bounds,
                            tileset_index,
                            binding,
                            k as int,
                            row as int,
                            column as int,
                            x,
                            y,
                        ),
                    forall|x: int, y: int|
                        0 <= x < CHUNK_WIDTH && (0 <= y < row || (y == row && x < column))
                            ==> !unbound(#[trigger] chunk.cell(x, y), tileset_index, binding),
                decreases CHUNK_WIDTH - column,
            {
                let target_x: u32 = (base_x + column as i64) as u32;
                let tile = chunk.get(column, row);
                let ghost before = storage;
                match place_tile(tile, tileset_index, binding, target_x, target_y) {
                    Placement::Unbound => {
                        assert(unbound(
                            chunks[k as int].cell(column as int, row as int),
                            tileset_index,
                            binding,
                        ));
                        return None;
                    },
                    Placement::Tile(placed) => {
                        storage.set(placed);
                    },
                    Placement::Empty => {},
                }
                proof {
                    assert forall|x: int, y: int|
                        0 <= x < columns && 0 <= y < rows implies #[trigger] storage.cell(x, y)
                        == copied_cell(
                        chunks,
                        bounds,
                        tileset_index,
                        binding,
                        k as int,
                        row as int,
                        column + 1,
                        x,
                        y,
                    ) by {
                        assert(before.cell(x, y) == copied_cell(
                            chunks,
                            bounds,
                            tileset_index,
                            binding,
                            k as int,
                            row as int,
                            column as int,
                            x,
                            y,
                        ));
                    }
                }
                column += 1;
            }
            row += 1;
        }
        k += 1;
    }
    proof {
        assert forall|x: int, y: int|
            0 <= x < storage.width && 0 <= y < storage.height implies #[trigger] storage.cell(x, y)
            == infinite_cell(chunks, bounds, tileset_index, binding, x, y) by {
            assert(storage.cell(x, y) == copied_cell(
                chunks,
                bounds,
                tileset_index,
                binding,
                n as int,
                0,
                0,
                x,
                y,
            ));
        }
    }
    Some((storage, bounds))
}

/// Materializes an infinite layer for one tileset. The grid that spans the chunks must be
/// one that can be held, and the binding must have a texture index for every tile of the
/// tileset that the layer holds.
pub fn materialize_infinite(
    layer: &InfiniteLayer,
    tileset_index: usize,
    binding: &TiledMapTileset,
) -> (result: (TileGrid, ChunkBounds))
    requires
        layer.wf(),
        ChunkBounds::of(layer.chunks@).fits(),
        infinite_bound(layer.chunks@, tileset_index, binding),
    ensures
        result.1 == ChunkBounds::of(layer.chunks@),
        is_infinite_storage(&result.0, layer.chunks@, result.1, tileset_index, binding),
{
    match try_materialize_infinite(layer, tileset_index, binding) {
        Some(result) => result,
        None => {
            proof {
                assert(false);
            }
            (TileGrid::empty(0, 0), ChunkBounds { min_x: 0, min_y: 0, max_x: 0, max_y: 0 })
        },
    }
}

/// The same infinite layer, tileset and binding give the same grid, cell for cell.
pub proof fn lemma_infinite_storage_unique(
    first: &TileGrid,
    second: &TileGrid,
    chunks: Seq<Chunk>,
    bounds: ChunkBounds,
    tileset_index: usize,
    binding: &TiledMapTileset,
)
    requires
        is_infinite_storage(first, chunks, bounds, tileset_index, binding),
        is_infinite_storage(second, chunks, bounds, tileset_index, binding),
    ensures
        first.width == second.width,
        first.height == second.height,
        first.cells@ == second.cells@,
{
    first.lemma_equal_by_cells(second);
}

/// The grid of an infinite layer is `(max - min + 1)` chunks wide and high, whatever the
/// chunk coordinates are, and its origin is the least coordinate times the chunk size,
/// negated.
pub proof fn lemma_infinite_size(
    storage: &TileGrid,
    chunks: Seq<Chunk>,
    bounds: ChunkBounds,
    tileset_index: usize,
    binding: &TiledMapTileset,
)
    requires
        is_infinite_storage(storage, chunks, bounds, tileset_index, binding),
    ensures
        bounds == ChunkBounds::of(chunks),
        storage.width == (chunk_xs(chunks).max() - chunk_xs(chunks).min() + 1) * CHUNK_WIDTH,
        storage.height == (chunk_ys(chunks).max() - chunk_ys(chunks).min() + 1) * CHUNK_HEIGHT,
        bounds.origin_x() == -chunk_xs(chunks).min() * CHUNK_WIDTH,
        bounds.origin_y() == -chunk_ys(chunks).min() * CHUNK_HEIGHT,
{
    lemma_bounds_of(chunks);
    lemma_bounds_unique(chunks, bounds, ChunkBounds::of(chunks));
}

/// A layer of one chunk has a grid of one chunk, and its origin is the chunk's
/// coordinates times the chunk size, negated: not 0 where a coordinate is negative.
pub proof fn lemma_single_chunk(chunk: Chunk)
    ensures
        ChunkBounds::of(seq![chunk]).columns() == CHUNK_WIDTH,
        ChunkBounds::of(seq![chunk]).rows() == CHUNK_HEIGHT,
        ChunkBounds::of(seq![chunk]).origin_x() == -chunk.x * CHUNK_WIDTH,
        ChunkBounds::of(seq![chunk]).origin_y() == -chunk.y * CHUNK_HEIGHT,
        chunk.x < 0 ==> ChunkBounds::of(seq![chunk]).origin_x() > 0,
        chunk.y < 0 ==> ChunkBounds::of(seq![chunk]).origin_y() > 0,
{
    let chunks = seq![chunk];
    lemma_bounds_of(chunks);
    assert(chunk_xs(chunks)[0] == chunk.x);
    assert(chunk_ys(chunks)[0] == chunk.y);
}

} // verus!
