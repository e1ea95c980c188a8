//! Drawing the tiles of a layer.

use std::collections::HashMap;
use vstd::prelude::*;
use crate::components::{
    each_has_own_body, lemma_newcomer_has_own_body, Actor, ActorView, Draw, DrawType, DrawView, Role,
    TileDrawData,
};
use crate::geometry::{Vec2, TILE_SIZE};
use crate::region::Region;
use crate::sprites::Sprite;
use crate::store::{lemma_spawned, Entities};
use crate::tile_objects::{spec_tile_rotation, tile_rotation};
use crate::tiles::{grid_in_bounds, Layer, LayerTile, MAX_LAYER_SIDE};

verus! {

broadcast use vstd::std_specs::hash::group_hash_axioms;

/// Edge of a tile as it is drawn at twice its size: 32 pixels.
pub const DRAWN_TILE: i64 = 32000;

/// A tile together with its column `x` and row `y`.
#[derive(Clone, Copy, PartialEq, Eq, Structural, Debug)]
pub struct PlacedTile {
    pub x: usize,
    pub y: usize,
    pub tile: LayerTile,
}

/// One tile to draw: which, where, at what depth, from which part of its
/// texture and how turned.
#[derive(Clone, Copy, PartialEq, Eq, Structural, Debug)]
pub struct TileCommand {
    /// The tile id, under which the sprite catalog has the texture's name.
    pub gid: u32,
    pub position: Vec2,
    pub z: i64,
    pub region: Region,
    /// Rotation in degrees.
    pub rotation: i32,
}

/// The tiles among the first `n` cells of row `y` that are not empty.
pub open spec fn row_cells(row: Seq<LayerTile>, y: int, n: int) -> Seq<PlacedTile>
    decreases n,
{
    if n <= 0 {
        Seq::<PlacedTile>::empty()
    } else if row[n - 1].gid != 0 {
        row_cells(row, y, n - 1).push(
            PlacedTile { x: (n - 1) as usize, y: y as usize, tile: row[n - 1] },
        )
    } else {
        row_cells(row, y, n - 1)
    }
}

/// The tiles in the first `n` rows of a grid that are not empty, row by
/// row.
pub open spec fn grid_cells(grid: Seq<Seq<LayerTile>>, n: int) -> Seq<PlacedTile>
    decreases n,
{
    if n <= 0 {
        Seq::<PlacedTile>::empty()
    } else {
        grid_cells(grid, n - 1) + row_cells(grid[n - 1], n - 1, grid[n - 1].len() as int)
    }
}

/// The tiles of a grid that are not empty, row by row.
pub open spec fn all_cells(grid: Seq<Seq<LayerTile>>) -> Seq<PlacedTile> {
    grid_cells(grid, grid.len() as int)
}

/// Whether the catalog has the sprite of every tile of the grid.
pub open spec fn is_drawable(grid: Seq<Seq<LayerTile>>, catalog: Map<u32, Sprite>) -> bool {
    forall|k: int|
        0 <= k < all_cells(grid).len() ==> catalog.contains_key((#[trigger] all_cells(grid)[k]).tile.gid)
}

/// Every tile among the cells of a grid lies within the bounds of the grid.
pub proof fn lemma_cells_in_bounds(grid: Seq<Seq<LayerTile>>, n: int, k: int)
    requires
        grid_in_bounds(grid),
        0 <= n <= grid.len(),
        0 <= k < grid_cells(grid, n).len(),
    ensures
        grid_cells(grid, n)[k].x < MAX_LAYER_SIDE,
        grid_cells(grid, n)[k].y < MAX_LAYER_SIDE,
        grid_cells(grid, n)[k].tile.gid != 0,
    decreases n,
{
    let before = grid_cells(grid, n - 1);
    if k < before.len() {
        lemma_cells_in_bounds(grid, n - 1, k);
    } else {
        lemma_row_cells_in_bounds(grid[n - 1], n - 1, grid[n - 1].len() as int, k - before.len());
    }
}

proof fn lemma_row_cells_in_bounds(row: Seq<LayerTile>, y: int, n: int, k: int)
    requires
        0 <= y < MAX_LAYER_SIDE,
        0 <= n <= row.len() <= MAX_LAYER_SIDE,
        0 <= k < row_cells(row, y, n).len(),
    ensures
        row_cells(row, y, n)[k].x < MAX_LAYER_SIDE,
        row_cells(row, y, n)[k].y < MAX_LAYER_SIDE,
        row_cells(row, y, n)[k].tile.gid != 0,
    decreases n,
{
    if k < row_cells(row, y, n - 1).len() {
        lemma_row_cells_in_bounds(row, y, n - 1, k);
    }
}

/// The tiles of a layer that are not empty, row by row, each with its
/// column and row.
pub fn filled_cells(lyr: &Layer) -> (cells: Vec<PlacedTile>)
    ensures
        cells@ == all_cells(lyr.grid()),
{
    let mut cells: Vec<PlacedTile> = Vec::new();
    let mut y: usize = 0;
    while y < lyr.tiles.len()
        invariant
            y <= lyr.tiles.len(),
            cells@ == grid_cells(lyr.grid(), y as int),
        decreases lyr.tiles.len() - y,
    {
        let row = &lyr.tiles[y];
        let ghost before_row = cells@;
        assert(lyr.grid()[y as int] == row@);
        assert(cells@ =~= before_row + row_cells(row@, y as int, 0));
        let mut x: usize = 0;
        while x < row.len()
            invariant
                x <= row.len(),
                cells@ == before_row + row_cells(row@, y as int, x as int),
            decreases row.len() - x,
        {
            let tile = row[x];
            if tile.gid != 0 {
                cells.push(PlacedTile { x, y, tile });
            }
            assert(cells@ =~= before_row + row_cells(row@, y as int, x + 1));
            x += 1;
        }
        y += 1;
    }
    cells
}

/// Whether the catalog has the sprite of every tile of a layer.
pub fn can_draw_layer(lyr: &Layer, sprite_map: &HashMap<u32, Sprite>) -> (b: bool)
    ensures
        b == is_drawable(lyr.grid(), sprite_map@),
{
    let cells = filled_cells(lyr);
    let mut k: usize = 0;
    while k < cells.len()
        invariant
            k <= cells.len(),
            cells@ == all_cells(lyr.grid()),
            forall|i: int| 0 <= i < k ==> sprite_map@.contains_key((#[trigger] cells@[i]).tile.gid),
        decreases cells.len() - k,
    {
        if !sprite_map.contains_key(&cells[k].tile.gid) {
            assert(!sprite_map@.contains_key(all_cells(lyr.grid())[k as int].tile.gid));
            return false;
        }
        k += 1;
    }
    true
}

/// The command that draws one tile of a layer whose tiles lie `pitch`
/// apart: at `inset` past the tile's corner, with the sprite's part of the
/// texture, turned as the tile's flip flags say.
pub open spec fn tile_command(
    cell: PlacedTile,
    catalog: Map<u32, Sprite>,
    z_val: i64,
    pitch: int,
    inset: int,
) -> TileCommand {
    TileCommand {
        gid: cell.tile.gid,
        position: Vec2 { x: (cell.x * pitch + inset) as i64, y: (cell.y * pitch + inset) as i64 },
        z: z_val,
        region: catalog[cell.tile.gid].rect,
        rotation: spec_tile_rotation(cell.tile),
    }
}

/// The commands that draw the tiles `cells`, in their order.
pub open spec fn tile_commands(
    cells: Seq<PlacedTile>,
    catalog: Map<u32, Sprite>,
    z_val: i64,
    pitch: int,
    inset: int,
) -> Seq<TileCommand> {
    Seq::new(cells.len(), |k: int| tile_command(cells[k], catalog, z_val, pitch, inset))
}

/// The commands that draw a layer whose tiles lie `pitch` apart.
fn layer_commands(
    lyr: &Layer,
    sprite_map: &HashMap<u32, Sprite>,
    z_val: i64,
    pitch: i64,
    inset: i64,
) -> (commands: Vec<TileCommand>)
    requires
        lyr.in_bounds(),
        is_drawable(lyr.grid(), sprite_map@),
        0 <= pitch <= DRAWN_TILE,
        0 <= inset <= DRAWN_TILE,
    ensures
        commands@ == tile_commands(
            all_cells(lyr.grid()),
            sprite_map@,
            z_val,
            pitch as int,
            inset as int,
        ),
{
    let cells = filled_cells(lyr);
    let mut commands: Vec<TileCommand> = Vec::new();
    let mut k: usize = 0;
    while k < cells.len()
        invariant
            k <= cells.len(),
            lyr.in_bounds(),
            is_drawable(lyr.grid(), sprite_map@),
            0 <= pitch <= DRAWN_TILE,
            0 <= inset <= DRAWN_TILE,
            cells@ == all_cells(lyr.grid()),
            commands@ == tile_commands(
                cells@.take(k as int),
                sprite_map@,
                z_val,
                pitch as int,
                inset as int,
            ),
        decreases cells.len() - k,
    {
        let cell = cells[k];
        proof {
            lemma_cells_in_bounds(lyr.grid(), lyr.grid().len() as int, k as int);
            assert(sprite_map@.contains_key(all_cells(lyr.grid())[k as int].tile.gid));
            assert(cell.x * pitch <= 0xFFFF_FFFF * 32000) by (nonlinear_arith)
                requires
                    0 <= cell.x <= 0xFFFF_FFFF,
                    0 <= pitch <= 32000,
            ;
            assert(cell.y * pitch <= 0xFFFF_FFFF * 32000) by (nonlinear_arith)
                requires
                    0 <= cell.y <= 0xFFFF_FFFF,
                    0 <= pitch <= 32000,
            ;
            assert(cell.x * pitch >= 0 && cell.y * pitch >= 0) by (nonlinear_arith)
                requires
                    0 <= cell.x,
                    0 <= cell.y,
                    0 <= pitch,
            ;
        }
        match sprite_map.get(&cell.tile.gid) {
            Some(sprite) => {
                commands.push(
                    TileCommand {
                        gid: cell.tile.gid,
                        position: Vec2 {
                            x: (cell.x as i64) * pitch + inset,
                            y: (cell.y as i64) * pitch + inset,
                        },
                        z: z_val,
                        region: sprite.rect,
                        rotation: tile_rotation(&cell.tile),
                    },
                );
            },
            None => {},
        }
        assert(commands@ =~= tile_commands(
            cells@.take(k + 1),
            sprite_map@,
            z_val,
            pitch as int,
            inset as int,
        ));
        k += 1;
    }
    assert(cells@.take(cells@.len() as int) =~= cells@);
    commands
}

/// The commands that draw a layer at depth `z_val`, one for each tile that
/// is not empty, row by row; the tiles lie one tile apart.
pub fn draw_layer_new(lyr: &Layer, sprite_map: &HashMap<u32, Sprite>, z_val: i64) -> (commands: Vec<
    TileCommand,
>)
    requires
        lyr.in_bounds(),
        is_drawable(lyr.grid(), sprite_map@),
    ensures
        commands@ == tile_commands(all_cells(lyr.grid()), sprite_map@, z_val, TILE_SIZE as int, 0),
{
    layer_commands(lyr, sprite_map, z_val, TILE_SIZE, 0)
}

/// The commands that draw a layer at twice its size, one for each tile that
/// is not empty, row by row; the tiles lie two tiles apart and each is
/// drawn about its centre.
pub fn draw_layer(lyr: &Layer, sprite_map: &HashMap<u32, Sprite>) -> (commands: Vec<TileCommand>)
    requires
        lyr.in_bounds(),
        is_drawable(lyr.grid(), sprite_map@),
    ensures
        commands@ == tile_commands(
            all_cells(lyr.grid()),
            sprite_map@,
            0,
            DRAWN_TILE as int,
            TILE_SIZE as int,
        ),
{
    layer_commands(lyr, sprite_map, 0, DRAWN_TILE, TILE_SIZE)
}

/// The entity that shows one tile of a layer drawn at twice its size: at
/// the tile's lower left corner, at the depth of that corner's `y`.
pub open spec fn tile_actor(cell: PlacedTile) -> ActorView {
    let pos = Vec2 {
        x: (cell.x * DRAWN_TILE) as i64,
        y: (cell.y * DRAWN_TILE + DRAWN_TILE) as i64,
    };
    ActorView {
        role: Role::Tile,
        draw: DrawView {
            y: pos.y,
            draw_type: DrawType::Tile,
            player: None,
            tile: Some(
                TileDrawData { pos, gid: cell.tile.gid, rotation: spec_tile_rotation(cell.tile) },
            ),
        },
    }
}

/// Spawns one entity for each tile of a layer that is not empty, row by
/// row, as [`tile_actor`] describes it, and returns their ids in that
/// order, which is their spawn order. What the world held before stays as
/// it was, and each character keeps a body of its own.
pub fn spawn_ecs_tiles(lyr: &Layer, world: &mut Entities) -> (ids: Vec<u64>)
    requires
        lyr.in_bounds(),
        old(world).wf(),
    ensures
        final(world).wf(),
        final(world).order() == old(world).order() + ids@,
        ids@.len() == all_cells(lyr.grid()).len(),
        ids@.no_duplicates(),
        forall|id: u64|
            final(world)@.dom().contains(id) <==> old(world)@.dom().contains(id) || ids@.contains(id),
        forall|id: u64| #[trigger]
            old(world)@.dom().contains(id) ==> !ids@.contains(id) && final(world)@[id] == old(
                world,
            )@[id],
        forall|k: int|
            0 <= k < ids@.len() ==> final(world)@[#[trigger] ids@[k]] == tile_actor(
                all_cells(lyr.grid())[k],
            ),
        forall|n: nat| #[trigger]
            each_has_own_body(old(world)@, n) ==> each_has_own_body(final(world)@, n),
{
    let ghost start = *world;
    let cells = filled_cells(lyr);
    let mut ids: Vec<u64> = Vec::new();
    let mut k: usize = 0;
    assert(world.order() =~= start.order() + ids@);
    while k < cells.len()
        invariant
            k <= cells.len(),
            lyr.in_bounds(),
            cells@ == all_cells(lyr.grid()),
            ids@.len() == k,
            start.wf(),
            world.wf(),
            world.order() == start.order() + ids@,
            forall|id: u64| #[trigger] start@.dom().contains(id) ==> world@[id] == start@[id],
            forall|i: int| 0 <= i < k ==> world@[#[trigger] ids@[i]] == tile_actor(cells@[i]),
            forall|n: nat| #[trigger] each_has_own_body(start@, n) ==> each_has_own_body(world@, n),
        decreases cells.len() - k,
    {
        let cell = cells[k];
        proof {
            lemma_cells_in_bounds(lyr.grid(), lyr.grid().len() as int, k as int);
        }
        let pos = Vec2 {
            x: (cell.x as i64) * DRAWN_TILE,
            y: (cell.y as i64) * DRAWN_TILE + DRAWN_TILE,
        };
        let draw = Draw {
            y: pos.y,
            draw_type: DrawType::Tile,
            player: None,
            tile: Some(TileDrawData { pos, gid: cell.tile.gid, rotation: tile_rotation(&cell.tile) }),
        };
        let ghost last = *world;
        let ghost made = ids@;
        let id = world.spawn(Actor { role: Role::Tile, draw });
        ids.push(id);
        proof {
            lemma_spawned(start, last, made);
            assert(world.order() =~= start.order() + ids@);
            assert forall|i: int| 0 <= i < k implies world@[#[trigger] ids@[i]] == last@[made[i]] by {
                assert(made.contains(made[i]));
            }
            assert forall|n: nat| #[trigger] each_has_own_body(start@, n) implies each_has_own_body(
                world@,
                n,
            ) by {
                lemma_newcomer_has_own_body(last@, id, world@[id], n);
            }
        }
        k += 1;
    }
    proof {
        lemma_spawned(start, *world, ids@);
    }
    ids
}

} // verus!
