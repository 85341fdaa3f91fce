//! Materializing a tile layer for one tileset: from the cells of the document to a dense
//! grid of placed tiles.
//!
//! A layer may mix tiles of several tilesets; each tileset gets a grid of its own, which
//! holds the layer's tiles of that tileset and nothing else. The document counts rows
//! downwards and the grid upwards, so row `y` of the document lands in row
//! `height - 1 - y` of the grid.

use crate::asset::TiledMapTileset;
use crate::document::{FiniteLayer, LayerTile};
use crate::storage::{PlacedTile, TileGrid};
use vstd::prelude::*;

verus! {

/// The row that row `y` is mirrored to in a grid of `height` rows.
pub open spec fn flipped_row(height: int, y: int) -> int {
    height - 1 - y
}

/// Mirroring a row keeps it inside the grid, and mirroring it again gives the row back.
pub proof fn lemma_flipped_row_round_trip(height: int, y: int)
    requires
        0 <= y < height,
    ensures
        0 <= flipped_row(height, y) < height,
        flipped_row(height, flipped_row(height, y)) == y,
{
}

/// The layer tile belongs to the tileset but the binding has no texture index for it.
pub open spec fn unbound(
    tile: Option<LayerTile>,
    tileset_index: usize,
    binding: &TiledMapTileset,
) -> bool {
    tile matches Some(t) && t.tileset_index == tileset_index && binding.texture_index(t.id) is None
}

/// What the grid of tileset `tileset_index` holds at `(x, y)` for the layer tile `tile`:
/// nothing for an empty cell or a tile of another tileset, else the tile with its texture
/// index and its three flip flags as the document has them.
pub open spec fn placed_tile(
    tile: Option<LayerTile>,
    tileset_index: usize,
    binding: &TiledMapTileset,
    x: int,
    y: int,
) -> Option<PlacedTile> {
    match tile {
        Some(t) => if t.tileset_index == tileset_index {
            match binding.texture_index(t.id) {
                Some(texture_index) => Some(
                    PlacedTile {
                        x: x as u32,
                        y: y as u32,
                        texture_index,
                        flip_h: t.flip_h,
                        flip_v: t.flip_v,
                        flip_d: t.flip_d,
                    },
                ),
                None => None,
            }
        } else {
            None
        },
        None => None,
    }
}

/// What becomes of one cell of a layer.
#[derive(Clone, Copy, Debug, PartialEq, Eq, Structural)]
pub enum Placement {
    /// Nothing is placed.
    Empty,
    /// This tile is placed.
    Tile(PlacedTile),
    /// The tile is of the tileset asked for, and the binding has no texture index for it.
    Unbound,
}

/// Decides what the layer tile `tile` places at `(x, y)` of the grid of `tileset_index`.
pub fn place_tile(
    tile: Option<LayerTile>,
    tileset_index: usize,
    binding: &TiledMapTileset,
    x: u32,
    y: u32,
) -> (placement: Placement)
    ensures
        placement is Unbound <==> unbound(tile, tileset_index, binding),
        placement matches Placement::Tile(placed) ==> placed_tile(
            tile,
            tileset_index,
            binding,
            x as int,
            y as int,
        ) == Some(placed),
        placement is Empty ==> placed_tile(tile, tileset_index, binding, x as int, y as int)
            is None,
{
    match tile {
        Some(t) => {
            if t.tileset_index != tileset_index {
                Placement::Empty
            } else {
                match binding.texture_index_of(t.id) {
                    Some(texture_index) => Placement::Tile(
                        PlacedTile {
                            x,
                            y,
                            texture_index,
                            flip_h: t.flip_h,
                            flip_v: t.flip_v,
                            flip_d: t.flip_d,
                        },
                    ),
                    None => Placement::Unbound,
                }
            }
        },
        None => Placement::Empty,
    }
}

/// What the grid of a finite layer holds at `(x, y)`.
pub open spec fn finite_cell(
    layer: &FiniteLayer,
    height: int,
    tileset_index: usize,
    binding: &TiledMapTileset,
    x: int,
    y: int,
) -> Option<PlacedTile> {
    placed_tile(layer.cell(x, flipped_row(height, y)), tileset_index, binding, x, y)
}

/// Every tile of the tileset within `width` by `height` cells of the layer has a texture
/// index.
pub open spec fn finite_bound(
    layer: &FiniteLayer,
    width: int,
    height: int,
    tileset_index: usize,
    binding: &TiledMapTileset,
) -> bool {
    forall|x: int, y: int|
        0 <= x < width && 0 <= y < height ==> !unbound(
            #[trigger] layer.cell(x, y),
            tileset_index,
            binding,
        )
}

/// `storage` is the grid of the finite layer for the tileset: `width` by `height` cells,
/// each holding what `finite_cell` says.
pub open spec fn is_finite_storage(
    storage: &TileGrid,
    layer: &FiniteLayer,
    width: u32,
    height: u32,
    tileset_index: usize,
    binding: &TiledMapTileset,
) -> bool {
    &&& storage.wf()
    &&& storage.width == width
    &&& storage.height == height
    &&& forall|x: int, y: int|
        0 <= x < width && 0 <= y < height ==> #[trigger] storage.cell(x, y) == finite_cell(
            layer,
            height as int,
            tileset_index,
            binding,
            x,
            y,
        )
}

/// Materializes a finite layer for one tileset into a grid of the map's size, visiting
/// the document row by row. Gives nothing exactly when a tile of the tileset has no
/// texture index.
pub fn try_materialize_finite(
    width: u32,
    height: u32,
    layer: &FiniteLayer,
    tileset_index: usize,
    binding: &TiledMapTileset,
) -> (result: Option<TileGrid>)
    requires
        layer.wf(),
        width * height <= usize::MAX,
    ensures
        result is Some <==> finite_bound(
            layer,
            width as int,
            height as int,
            tileset_index,
            binding,
        ),
        result matches Some(storage) ==> is_finite_storage(
            &storage,
            layer,
            width,
            height,
            tileset_index,
            binding,
        ),
{
    let mut storage = TileGrid::empty(width, height);
    let mut row: u32 = 0;
    while row < height
        invariant
            row <= height,
            layer.wf(),
            storage.wf(),
            storage.width == width,
            storage.height == height,
            forall|x: int, y: int|
                0 <= x < width && 0 <= y < height ==> #[trigger] storage.cell(x, y) == (if flipped_row(
                    height as int,
                    y,
                ) < row {
                    finite_cell(layer, height as int, tileset_index, binding, x, y)
                } else {
                    None
                }),
            forall|x: int, y: int|
                0 <= x < width && 0 <= y < row ==> !unbound(
                    #[trigger] layer.cell(x, y),
                    tileset_index,
                    binding,
                ),
        decreases height - row,
    {
        let target: u32 = height - 1 - row;
        let mut column: u32 = 0;
        while column < width
            invariant
                column <= width,
                row < height,
                target == flipped_row(height as int, row as int),
                layer.wf(),
                storage.wf(),
                storage.width == width,
                storage.height == height,
                forall|x: int, y: int|
                    0 <= x < width && 0 <= y < height ==> #[trigger] storage.cell(x, y) == (if flipped_row(
                        height as int,
                        y,
                    ) < row || (flipped_row(height as int, y) == row && x < column) {
                        finite_cell(layer, height as int, tileset_index, binding, x, y)
                    } else {
                        None
                    }),
                forall|x: int, y: int|
                    0 <= x < width && (0 <= y < row || (y == row && x < column)) ==> !unbound(
                        #[trigger] layer.cell(x, y),
                        tileset_index,
                        binding,
                    ),
            decreases width - column,
        {
            let tile = layer.get(column, row);
            match place_tile(tile, tileset_index, binding, column, target) {
                Placement::Unbound => {
                    assert(unbound(layer.cell(column as int, row as int), tileset_index, binding));
                    return None;
                },
                Placement::Tile(placed) => {
                    storage.set(placed);
                },
                Placement::Empty => {},
            }
            column += 1;
        }
        row += 1;
    }
    Some(storage)
}

/// Materializes a finite layer for one tileset into a grid of the map's size. The binding
/// must have a texture index for every tile of the tileset that the layer holds.
pub fn materialize_finite(
    width: u32,
    height: u32,
    layer: &FiniteLayer,
    tileset_index: usize,
    binding: &TiledMapTileset,
) -> (storage: TileGrid)
    requires
        layer.wf(),
        width * height <= usize::MAX,
        finite_bound(layer, width as int, height as int, tileset_index, binding),
    ensures
        is_finite_storage(&storage, layer, width, height, tileset_index, binding),
{
    match try_materialize_finite(width, height, layer, tileset_index, binding) {
        Some(storage) => storage,
        None => {
            proof {
                assert(false);
            }
            TileGrid::empty(0, 0)
        },
    }
}

/// The same finite layer, tileset and binding give the same grid, cell for cell.
pub proof fn lemma_finite_storage_unique(
    first: &TileGrid,
    second: &TileGrid,
    layer: &FiniteLayer,
    width: u32,
    height: u32,
    tileset_index: usize,
    binding: &TiledMapTileset,
)
    requires
        is_finite_storage(first, layer, width, height, tileset_index, binding),
        is_finite_storage(second, layer, width, height, tileset_index, binding),
    ensures
        first.width == second.width,
        first.height == second.height,
        first.cells@ == second.cells@,
{
    first.lemma_equal_by_cells(second);
}

/// A tile of a finite layer at document position `(x, y)` inside the map is found in
/// the grid at `(x, height - 1 - y)`, and mirroring that row again leads back to `y`.
pub proof fn lemma_finite_row_mapping(
    storage: &TileGrid,
    layer: &FiniteLayer,
    width: u32,
    height: u32,
    tileset_index: usize,
    binding: &TiledMapTileset,
    x: int,
    y: int,
)
    requires
        is_finite_storage(storage, layer, width, height, tileset_index, binding),
        0 <= x < width,
        0 <= y < height,
    ensures
        storage.cell(x, flipped_row(height as int, y)) == placed_tile(
            layer.cell(x, y),
            tileset_index,
            binding,
            x,
            flipped_row(height as int, y),
        ),
        storage.cell(x, flipped_row(height as int, y)) matches Some(placed) ==> placed.x == x
            && flipped_row(height as int, placed.y as int) == y,
{
    lemma_flipped_row_round_trip(height as int, y);
}

} // verus!
