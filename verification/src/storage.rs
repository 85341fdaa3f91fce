//! The dense grid that a tile layer is materialized into.
//!
//! The grid counts rows upwards from its bottom-left corner. A cell is empty or holds the
//! tile placed on it; cells are kept row by row.

use crate::document::{lemma_cell_index, lemma_product_fits};
use vstd::arithmetic::div_mod::lemma_fundamental_div_mod_converse;
use vstd::prelude::*;

verus! {

/// A tile as it is drawn: where, with which texture, and how flipped.
#[derive(Clone, Copy, Debug, PartialEq, Eq, Structural)]
pub struct PlacedTile {
    pub x: u32,
    pub y: u32,
    pub texture_index: u32,
    pub flip_h: bool,
    pub flip_v: bool,
    pub flip_d: bool,
}

/// A grid of `width` by `height` cells.
#[derive(Debug)]
pub struct TileGrid {
    pub width: u32,
    pub height: u32,
    pub cells: Vec<Option<PlacedTile>>,
}

/// Row-major index of the cell in column `x` of row `y`.
pub open spec fn cell_index(width: int, x: int, y: int) -> int {
    y * width + x
}

/// Row-major indices and cells of a grid correspond one to one.
pub proof fn lemma_index_of_cell(width: int, height: int, x: int, y: int)
    requires
        0 <= x < width,
        0 <= y < height,
    ensures
        0 <= cell_index(width, x, y) < width * height,
        cell_index(width, x, y) % width == x,
        cell_index(width, x, y) / width == y,
{
    lemma_cell_index(x, y, width, height);
    lemma_fundamental_div_mod_converse(y * width + x, width, y, x);
}

/// Every index below `width * height` is the index of a cell of the grid.
pub proof fn lemma_cell_of_index(width: int, height: int, i: int)
    requires
        0 <= i < width * height,
        0 < width,
    ensures
        0 <= i % width < width,
        0 <= i / width < height,
        cell_index(width, i % width, i / width) == i,
{
    vstd::arithmetic::div_mod::lemma_fundamental_div_mod(i, width);
    vstd::arithmetic::div_mod::lemma_mod_bound(i, width);
    let q = i / width;
    assert(width * q == q * width) by (nonlinear_arith);
    assert(0 <= q < height) by (nonlinear_arith)
        requires
            0 <= i < width * height,
            0 < width,
            i == q * width + i % width,
            0 <= i % width < width,
    ;
}

/// Picks what a cell holds.
pub open spec fn held() -> spec_fn(Option<PlacedTile>) -> Option<PlacedTile> {
    |cell: Option<PlacedTile>| cell
}

/// The tiles that the cells hold, in the order of the cells.
pub open spec fn placed_tiles(cells: Seq<Option<PlacedTile>>) -> Seq<PlacedTile> {
    cells.filter_map(held())
}

impl TileGrid {
    /// There is one cell for each position, and a tile sits on the cell that it names.
    pub open spec fn wf(&self) -> bool {
        &&& self.cells@.len() == self.width * self.height
        &&& forall|i: int|
            0 <= i < self.cells@.len() ==> ((#[trigger] self.cells@[i]) matches Some(tile)
                ==> tile.x == i % (self.width as int) && tile.y == i / (self.width as int))
    }

    /// What the cell in column `x` of row `y` holds; nothing outside the grid.
    pub open spec fn cell(&self, x: int, y: int) -> Option<PlacedTile> {
        if 0 <= x < self.width && 0 <= y < self.height {
            self.cells@[cell_index(self.width as int, x, y)]
        } else {
            None
        }
    }

    /// A grid of the given size with every cell empty.
    pub fn empty(width: u32, height: u32) -> (storage: TileGrid)
        requires
            width * height <= usize::MAX,
        ensures
            storage.wf(),
            storage.width == width,
            storage.height == height,
            forall|x: int, y: int| storage.cell(x, y) is None,
    {
        proof {
            lemma_product_fits(width as int, height as int);
        }
        let count: u64 = (width as u64) * (height as u64);
        let mut cells: Vec<Option<PlacedTile>> = Vec::new();
        let mut i: u64 = 0;
        while i < count
            invariant
                i <= count,
                count <= usize::MAX,
                cells@.len() == i,
                forall|k: int| 0 <= k < i ==> (#[trigger] cells@[k]) is None,
            decreases count - i,
        {
            cells.push(None);
            i += 1;
        }
        let storage = TileGrid { width, height, cells };
        assert forall|x: int, y: int| storage.cell(x, y) is None by {
            if 0 <= x < width && 0 <= y < height {
                lemma_index_of_cell(width as int, height as int, x, y);
            }
        }
        storage
    }

    /// Reads the cell in column `x` of row `y`.
    pub fn get(&self, x: u32, y: u32) -> (tile: Option<PlacedTile>)
        requires
            self.wf(),
        ensures
            tile == self.cell(x as int, y as int),
    {
        if x < self.width && y < self.height {
            proof {
                lemma_index_of_cell(self.width as int, self.height as int, x as int, y as int);
                lemma_product_fits(y as int, self.width as int);
            }
            let index: u64 = (y as u64) * (self.width as u64) + (x as u64);
            let len = self.cells.len();
            assert(index < len);
            self.cells[index as usize]
        } else {
            None
        }
    }

    /// Puts `tile` on the cell that it names, replacing what was there.
    pub fn set(&mut self, tile: PlacedTile)
        requires
            old(self).wf(),
            tile.x < old(self).width,
            tile.y < old(self).height,
        ensures
            final(self).wf(),
            final(self).width == old(self).width,
            final(self).height == old(self).height,
            forall|x: int, y: int|
                #![trigger final(self).cell(x, y)]
                final(self).cell(x, y) == if x == tile.x && y == tile.y {
                    Some(tile)
                } else {
                    old(self).cell(x, y)
                },
    {
        let ghost width = self.width as int;
        let ghost height = self.height as int;
        proof {
            lemma_index_of_cell(width, height, tile.x as int, tile.y as int);
            lemma_product_fits(tile.y as int, width);
        }
        let index: u64 = (tile.y as u64) * (self.width as u64) + (tile.x as u64);
        let len = self.cells.len();
        assert(index < len);
        self.cells.set(index as usize, Some(tile));
        proof {
            assert forall|x: int, y: int|
                #![trigger self.cell(x, y)]
                self.cell(x, y) == if x == tile.x && y == tile.y {
                    Some(tile)
                } else {
                    old(self).cell(x, y)
                } by {
                if 0 <= x < width && 0 <= y < height {
                    lemma_index_of_cell(width, height, x, y);
                }
            }
        }
    }

    /// Lists the placed tiles, row by row from the bottom.
    pub fn tiles(&self) -> (tiles: Vec<PlacedTile>)
        ensures
            tiles@ == placed_tiles(self.cells@),
    {
        let mut tiles: Vec<PlacedTile> = Vec::new();
        let mut i: usize = 0;
        assert(self.cells@.take(0) =~= Seq::<Option<PlacedTile>>::empty());
        while i < self.cells.len()
            invariant
                i <= self.cells@.len(),
                tiles@ == placed_tiles(self.cells@.take(i as int)),
            decreases self.cells@.len() - i,
        {
            proof {
                self.cells@.lemma_filter_map_take_succ(held(), i as int);
            }
            match self.cells[i] {
                Some(tile) => {
                    tiles.push(tile);
                    assert(tiles@ =~= placed_tiles(self.cells@.take(i as int)) + seq![tile]);
                },
                None => {
                    assert(placed_tiles(self.cells@.take(i as int)) + Seq::<PlacedTile>::empty()
                        =~= placed_tiles(self.cells@.take(i as int)));
                },
            }
            i += 1;
        }
        assert(self.cells@.take(self.cells@.len() as int) =~= self.cells@);
        tiles
    }

    /// Two well-formed grids of one size with the same cells hold the same sequence.
    pub proof fn lemma_equal_by_cells(&self, other: &TileGrid)
        requires
            self.wf(),
            other.wf(),
            self.width == other.width,
            self.height == other.height,
            forall|x: int, y: int|
                0 <= x < self.width && 0 <= y < self.height ==> self.cell(x, y) == other.cell(x, y),
        ensures
            self.cells@ == other.cells@,
    {
        assert forall|i: int| 0 <= i < self.cells@.len() implies self.cells@[i]
            == other.cells@[i] by {
            let width = self.width as int;
            if width > 0 {
                lemma_cell_of_index(width, self.height as int, i);
                assert(self.cell(i % width, i / width) == other.cell(i % width, i / width));
            } else {
                assert(self.width * self.height == 0) by (nonlinear_arith)
                    requires
                        self.width == 0,
                ;
            }
        }
        assert(self.cells@ =~= other.cells@);
    }
}

} // verus!
