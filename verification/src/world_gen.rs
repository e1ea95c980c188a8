//! Building the static part of the world from tile layers.

use vstd::prelude::*;
use crate::geometry::{Vec2, HALF_TILE, TILE_HALF_EXTENT, TILE_SIZE};
use crate::physics::{BodyHandle, BodySet, Collider, ColliderSet, RigidBody};
use crate::tiles::{grid_in_bounds, in_grid, is_void, on_ring, Layer, LayerTile};

verus! {

/// Centre of the cell in column `x` of row `y`.
pub open spec fn cell_center(x: int, y: int) -> Vec2 {
    Vec2 { x: (TILE_SIZE * x + HALF_TILE) as i64, y: (TILE_SIZE * y + HALF_TILE) as i64 }
}

/// The collider of a solid tile carried by `body`.
pub open spec fn tile_collider(body: BodyHandle) -> Collider {
    Collider {
        body,
        half_extents: Vec2 { x: TILE_HALF_EXTENT, y: TILE_HALF_EXTENT },
        rotation: 0,
        material: None,
    }
}

/// Centres of the boundary bodies that one cell gives rise to, where `x_max`
/// is the last column of its row and `y_max` the last row: the cell's own
/// centre where the cell is empty or lies on the outer ring of the map, and
/// nothing for a tile inside the map.
pub open spec fn cell_bounds(gid: u32, x: int, y: int, x_max: int, y_max: int) -> Seq<Vec2> {
    if gid == 0 || y == 0 || y == y_max || x == 0 || x == x_max {
        seq![cell_center(x, y)]
    } else {
        Seq::<Vec2>::empty()
    }
}

/// Centres of the boundary bodies of the first `n` cells of row `y`.
pub open spec fn row_bounds(row: Seq<LayerTile>, y: int, y_max: int, n: int) -> Seq<Vec2>
    decreases n,
{
    if n <= 0 {
        Seq::<Vec2>::empty()
    } else {
        row_bounds(row, y, y_max, n - 1) + cell_bounds(
            row[n - 1].gid,
            n - 1,
            y,
            row.len() - 1,
            y_max,
        )
    }
}

/// Centres of the boundary bodies of the first `n` rows of a grid.
pub open spec fn layer_bounds(grid: Seq<Seq<LayerTile>>, n: int) -> Seq<Vec2>
    decreases n,
{
    if n <= 0 {
        Seq::<Vec2>::empty()
    } else {
        layer_bounds(grid, n - 1) + row_bounds(
            grid[n - 1],
            n - 1,
            grid.len() - 1,
            grid[n - 1].len() as int,
        )
    }
}

/// Centres of all boundary bodies of a grid, row by row and cell by cell.
pub open spec fn map_bounds(grid: Seq<Seq<LayerTile>>) -> Seq<Vec2> {
    layer_bounds(grid, grid.len() as int)
}

/// Static bodies at the given centres.
pub open spec fn static_bodies(centers: Seq<Vec2>) -> Seq<RigidBody> {
    Seq::new(centers.len(), |i: int| RigidBody::spec_fixed(centers[i]))
}

/// `n` tile colliders, the `i`-th carried by body `first + i`.
pub open spec fn tile_colliders(first: int, n: nat) -> Seq<Collider> {
    Seq::new(n, |i: int| tile_collider(BodyHandle((first + i) as usize)))
}

/// Whether a static body centred at `c` carries a tile collider.
pub open spec fn solid_at(bodies: Seq<RigidBody>, colliders: Seq<Collider>, c: Vec2) -> bool {
    exists|i: int|
        0 <= i < colliders.len() && #[trigger] colliders[i] == tile_collider(colliders[i].body)
            && colliders[i].body.0 < bodies.len() && bodies[colliders[i].body.0 as int]
            == RigidBody::spec_fixed(c)
}

proof fn lemma_concat_contains(a: Seq<Vec2>, b: Seq<Vec2>, c: Vec2)
    requires
        a.contains(c) || b.contains(c),
    ensures
        (a + b).contains(c),
{
    if a.contains(c) {
        let i = choose|i: int| 0 <= i < a.len() && a[i] == c;
        assert((a + b)[i] == c);
    } else {
        let i = choose|i: int| 0 <= i < b.len() && b[i] == c;
        assert((a + b)[a.len() + i] == c);
    }
}

proof fn lemma_row_bounds_contains(row: Seq<LayerTile>, y: int, y_max: int, n: int, x: int, c: Vec2)
    requires
        0 <= x < n <= row.len(),
        cell_bounds(row[x].gid, x, y, row.len() - 1, y_max).contains(c),
    ensures
        row_bounds(row, y, y_max, n).contains(c),
    decreases n,
{
    if x < n - 1 {
        lemma_row_bounds_contains(row, y, y_max, n - 1, x, c);
    }
    lemma_concat_contains(
        row_bounds(row, y, y_max, n - 1),
        cell_bounds(row[n - 1].gid, n - 1, y, row.len() - 1, y_max),
        c,
    );
}

proof fn lemma_layer_bounds_contains(grid: Seq<Seq<LayerTile>>, n: int, y: int, c: Vec2)
    requires
        0 <= y < n <= grid.len(),
        row_bounds(grid[y], y, grid.len() - 1, grid[y].len() as int).contains(c),
    ensures
        layer_bounds(grid, n).contains(c),
    decreases n,
{
    if y < n - 1 {
        lemma_layer_bounds_contains(grid, n - 1, y, c);
    }
    lemma_concat_contains(
        layer_bounds(grid, n - 1),
        row_bounds(grid[n - 1], n - 1, grid.len() - 1, grid[n - 1].len() as int),
        c,
    );
}

/// Every boundary body that a cell gives rise to is among those of its grid.
pub proof fn lemma_cell_bounds_in_map(grid: Seq<Seq<LayerTile>>, x: int, y: int, c: Vec2)
    requires
        in_grid(grid, x, y),
        cell_bounds(grid[y][x].gid, x, y, grid[y].len() - 1, grid.len() - 1).contains(c),
    ensures
        map_bounds(grid).contains(c),
{
    lemma_row_bounds_contains(grid[y], y, grid.len() - 1, grid[y].len() as int, x, c);
    lemma_layer_bounds_contains(grid, grid.len() as int, y, c);
}

/// An empty cell and a cell on the outer ring are solid: the cell's own
/// centre is among the boundary bodies.
pub proof fn lemma_ring_and_void_are_solid(grid: Seq<Seq<LayerTile>>, x: int, y: int)
    requires
        on_ring(grid, x, y) || is_void(grid, x, y),
    ensures
        map_bounds(grid).contains(cell_center(x, y)),
{
    let cell = cell_bounds(grid[y][x].gid, x, y, grid[y].len() - 1, grid.len() - 1);
    assert(cell[0] == cell_center(x, y));
    lemma_cell_bounds_in_map(grid, x, y, cell_center(x, y));
}

/// A centre among `centers` is solid once static bodies and tile colliders
/// for `centers` have been appended to the sets.
proof fn lemma_appended_is_solid(
    bodies: Seq<RigidBody>,
    colliders: Seq<Collider>,
    centers: Seq<Vec2>,
    c: Vec2,
)
    requires
        centers.contains(c),
        bodies.len() + centers.len() <= usize::MAX,
    ensures
        solid_at(
            bodies + static_bodies(centers),
            colliders + tile_colliders(bodies.len() as int, centers.len()),
            c,
        ),
{
    let k = choose|k: int| 0 <= k < centers.len() && centers[k] == c;
    let all_colliders = colliders + tile_colliders(bodies.len() as int, centers.len());
    let i = colliders.len() + k;
    assert(all_colliders[i] == tile_collider(BodyHandle((bodies.len() + k) as usize)));
}

/// Adds one solid tile centred at `center`: a static body and its collider.
fn add_solid_tile(center: Vec2, colliders: &mut ColliderSet, bodies: &mut BodySet)
    ensures
        final(bodies)@ == old(bodies)@.push(RigidBody::spec_fixed(center)),
        final(colliders)@ == old(colliders)@.push(
            tile_collider(BodyHandle(old(bodies)@.len() as usize)),
        ),
{
    let handle = bodies.insert(RigidBody::fixed(center));
    colliders.insert(
        Collider {
            body: handle,
            half_extents: Vec2 { x: TILE_HALF_EXTENT, y: TILE_HALF_EXTENT },
            rotation: 0,
            material: None,
        },
    );
}

/// Centre of the cell in column `x` of row `y`.
fn center_of(x: usize, y: usize) -> (c: Vec2)
    requires
        x <= 0xFFFF_FFFF,
        y <= 0xFFFF_FFFF,
    ensures
        c == cell_center(x as int, y as int),
{
    Vec2 { x: TILE_SIZE * (x as i64) + HALF_TILE, y: TILE_SIZE * (y as i64) + HALF_TILE }
}

/// Makes the base layer of a map solid where nothing may pass.
///
/// Every cell on the outer ring of `lyr`, whatever its tile, and every empty
/// cell inside it becomes one solid tile: a static body at the cell's centre
/// with a collider just short of the tile. A tile inside the map gets none.
/// The new bodies and colliders are appended to the sets in row order, and
/// what the sets held before stays as it was.
pub fn create_map_bounds(lyr: &Layer, colliders: &mut ColliderSet, bodies: &mut BodySet)
    requires
        lyr.in_bounds(),
    ensures
        final(bodies)@ == old(bodies)@ + static_bodies(map_bounds(lyr.grid())),
        final(colliders)@ == old(colliders)@ + tile_colliders(
            old(bodies)@.len() as int,
            map_bounds(lyr.grid()).len(),
        ),
        forall|x: int, y: int|
            #![trigger on_ring(lyr.grid(), x, y)]
            #![trigger is_void(lyr.grid(), x, y)]
            on_ring(lyr.grid(), x, y) || is_void(lyr.grid(), x, y) ==> solid_at(
                final(bodies)@,
                final(colliders)@,
                cell_center(x, y),
            ),
{
    let ghost grid = lyr.grid();
    let ghost bodies0 = bodies@;
    let ghost colliders0 = colliders@;
    let ghost mut centers: Seq<Vec2> = Seq::empty();
    let rows: usize = lyr.tiles.len();
    let mut y: usize = 0;
    while y < rows
        invariant
            y <= rows,
            rows == lyr.tiles.len(),
            grid == lyr.grid(),
            grid_in_bounds(grid),
            centers == layer_bounds(grid, y as int),
            bodies@ == bodies0 + static_bodies(centers),
            colliders@ == colliders0 + tile_colliders(bodies0.len() as int, centers.len()),
        decreases rows - y,
    {
        let row = &lyr.tiles[y];
        let width: usize = row.len();
        let ghost before_row = centers;
        let mut x: usize = 0;
        assert(grid[y as int] == row@);
        while x < width
            invariant
                x <= width,
                y < rows,
                rows <= 0xFFFF_FFFF,
                width <= 0xFFFF_FFFF,
                width == row@.len(),
                centers == before_row + row_bounds(row@, y as int, rows - 1, x as int),
                bodies@ == bodies0 + static_bodies(centers),
                colliders@ == colliders0 + tile_colliders(bodies0.len() as int, centers.len()),
            decreases width - x,
        {
            let tile = row[x];
            if tile.gid == 0 || y == 0 || y == rows - 1 || x == 0 || x == width - 1 {
                let c = center_of(x, y);
                add_solid_tile(c, colliders, bodies);
                proof {
                    centers = centers.push(c);
                }
            }
            x += 1;
        }
        y += 1;
    }
    proof {
        bodies.lemma_len_fits();
        assert forall|x: int, y: int|
            #![trigger on_ring(grid, x, y)]
            #![trigger is_void(grid, x, y)]
            on_ring(grid, x, y) || is_void(grid, x, y) implies solid_at(
            bodies@,
            colliders@,
            cell_center(x, y),
        ) by {
            lemma_ring_and_void_are_solid(grid, x, y);
            lemma_appended_is_solid(bodies0, colliders0, centers, cell_center(x, y));
        }
    }
}

} // verus!
