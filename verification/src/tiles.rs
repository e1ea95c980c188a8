//! Tile layers as the simulation reads them.

use vstd::prelude::*;

verus! {

/// Largest number of rows, and of tiles in a row, that a layer may have.
/// World coordinates of every tile of such a layer fit the coordinate type.
pub const MAX_LAYER_SIDE: usize = 0xFFFF_FFFF;

/// One placed tile: the tile id, 0 for an empty cell, and its flip flags.
#[derive(Clone, Copy, PartialEq, Eq, Structural, Debug)]
pub struct LayerTile {
    pub gid: u32,
    pub flip_h: bool,
    pub flip_v: bool,
    pub flip_d: bool,
}

/// One layer of a map: rows of tiles, top row first.
#[derive(Debug)]
pub struct Layer {
    pub tiles: Vec<Vec<LayerTile>>,
}

impl Layer {
    /// The rows of the layer.
    pub open spec fn grid(&self) -> Seq<Seq<LayerTile>> {
        Seq::new(self.tiles@.len(), |y: int| self.tiles@[y]@)
    }

    /// Whether the layer and each of its rows are at most
    /// [`MAX_LAYER_SIDE`] long.
    pub open spec fn in_bounds(&self) -> bool {
        grid_in_bounds(self.grid())
    }

    /// Whether the layer and each of its rows are at most
    /// [`MAX_LAYER_SIDE`] long.
    pub fn is_in_bounds(&self) -> (b: bool)
        ensures
            b == self.in_bounds(),
    {
        if self.tiles.len() > MAX_LAYER_SIDE {
            return false;
        }
        let mut y: usize = 0;
        while y < self.tiles.len()
            invariant
                y <= self.tiles.len(),
                self.tiles.len() <= MAX_LAYER_SIDE,
                forall|k: int| 0 <= k < y ==> (#[trigger] self.grid()[k]).len() <= MAX_LAYER_SIDE,
            decreases self.tiles.len() - y,
        {
            if self.tiles[y].len() > MAX_LAYER_SIDE {
                assert(self.grid()[y as int].len() > MAX_LAYER_SIDE);
                return false;
            }
            y += 1;
        }
        true
    }
}

/// Whether a grid and each of its rows are at most [`MAX_LAYER_SIDE`] long.
pub open spec fn grid_in_bounds(grid: Seq<Seq<LayerTile>>) -> bool {
    &&& grid.len() <= MAX_LAYER_SIDE
    &&& forall|y: int| 0 <= y < grid.len() ==> (#[trigger] grid[y]).len() <= MAX_LAYER_SIDE
}

/// Whether `(x, y)` is a cell of the grid.
pub open spec fn in_grid(grid: Seq<Seq<LayerTile>>, x: int, y: int) -> bool {
    0 <= y < grid.len() && 0 <= x < grid[y].len()
}

/// Whether `(x, y)` is an empty cell of the grid.
pub open spec fn is_void(grid: Seq<Seq<LayerTile>>, x: int, y: int) -> bool {
    in_grid(grid, x, y) && grid[y][x].gid == 0
}

/// Whether `(x, y)` is a cell in the first or last row of the grid, or the
/// first or last cell of its row.
pub open spec fn on_ring(grid: Seq<Seq<LayerTile>>, x: int, y: int) -> bool {
    in_grid(grid, x, y) && (y == 0 || y == grid.len() - 1 || x == 0 || x == grid[y].len() - 1)
}

} // verus!
