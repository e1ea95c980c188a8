//! Static colliders for the collision objects that tiles declare.

use std::collections::HashMap;
use vstd::prelude::*;
use crate::geometry::{half, halve, Vec2, TILE_SIZE};
use crate::physics::{BodyHandle, BodySet, Collider, ColliderSet, RigidBody};
use crate::sprites::{CollisionObject, ObjectShape, Sprite};
use crate::tiles::{Layer, LayerTile, MAX_LAYER_SIDE};

verus! {

broadcast use vstd::std_specs::hash::group_hash_axioms;

/// Largest magnitude that the offset and the size of a collision object may
/// have for its collider to be placed.
pub const MAX_OBJECT_SPAN: i64 = 0x100_0000_0000;

/// Where a static rectangular collider goes.
#[derive(Clone, Copy, PartialEq, Eq, Structural, Debug)]
pub struct Placement {
    pub center: Vec2,
    pub half_extents: Vec2,
    /// Rotation in degrees.
    pub rotation: i32,
}

/// Rotation of a placed tile in degrees, from its flip flags: a horizontal
/// flip turns it by 180, a diagonal flip back by 90, a vertical flip not at
/// all.
pub open spec fn spec_tile_rotation(tile: LayerTile) -> i32 {
    ((if tile.flip_h {
        180
    } else {
        0int
    }) - (if tile.flip_d {
        90
    } else {
        0int
    })) as i32
}

/// Rotation of a placed tile in degrees, from its flip flags. It is one of 0,
/// 90, -90 and 180 whatever the flags are.
pub fn tile_rotation(tile: &LayerTile) -> (rotation: i32)
    ensures
        rotation == spec_tile_rotation(*tile),
        rotation == 0 || rotation == 90 || rotation == -90 || rotation == 180,
{
    let mut rotation: i32 = 0;
    if tile.flip_h {
        rotation += 180;
    }
    if tile.flip_d {
        rotation -= 90;
    }
    rotation
}

/// Width and height of a collision object: those of a rectangle, 0 for any
/// other outline.
pub open spec fn object_size(obj: CollisionObject) -> (int, int) {
    match obj.shape {
        ObjectShape::Rect { width, height } => (width as int, height as int),
        ObjectShape::Other => (0, 0),
    }
}

/// Offset of an object's collider from its tile, for a tile rotated by
/// `rotation` degrees.
pub open spec fn object_offset(obj: CollisionObject, rotation: int) -> (int, int) {
    if rotation == 90 {
        (half(obj.y as int), half(obj.x as int))
    } else if rotation == -90 {
        (half(obj.y as int), -half(obj.x as int))
    } else if rotation == 180 {
        (-half(obj.x as int), -half(obj.y as int))
    } else {
        (obj.x as int, obj.y as int)
    }
}

/// Whether the offset and size of an object are at most
/// [`MAX_OBJECT_SPAN`] in magnitude.
pub open spec fn object_in_bounds(obj: CollisionObject) -> bool {
    &&& -MAX_OBJECT_SPAN <= obj.x <= MAX_OBJECT_SPAN
    &&& -MAX_OBJECT_SPAN <= obj.y <= MAX_OBJECT_SPAN
    &&& -MAX_OBJECT_SPAN <= object_size(obj).0 <= MAX_OBJECT_SPAN
    &&& -MAX_OBJECT_SPAN <= object_size(obj).1 <= MAX_OBJECT_SPAN
}

/// The collider of one collision object of the tile in column `x` of row
/// `y`: as large as the object, its centre at the tile's corner plus half
/// the object's size plus the object's offset.
pub open spec fn object_placement(obj: CollisionObject, x: int, y: int, rotation: i32) -> Placement {
    let (width, height) = object_size(obj);
    let (dx, dy) = object_offset(obj, rotation as int);
    Placement {
        center: Vec2 {
            x: (TILE_SIZE * x + half(width) + dx) as i64,
            y: (TILE_SIZE * y + half(height) + dy) as i64,
        },
        half_extents: Vec2 { x: half(width) as i64, y: half(height) as i64 },
        rotation,
    }
}

/// The colliders of the first `n` of a tile's collision objects.
pub open spec fn objects_placements(
    objects: Seq<CollisionObject>,
    x: int,
    y: int,
    rotation: i32,
    n: int,
) -> Seq<Placement>
    decreases n,
{
    if n <= 0 {
        Seq::<Placement>::empty()
    } else {
        objects_placements(objects, x, y, rotation, n - 1).push(
            object_placement(objects[n - 1], x, y, rotation),
        )
    }
}

/// The colliders of one placed tile: one for each collision object of its
/// sprite, none for an empty cell.
pub open spec fn cell_placements(tile: LayerTile, x: int, y: int, catalog: Map<u32, Sprite>) -> Seq<
    Placement,
> {
    if tile.gid != 0 && catalog.contains_key(tile.gid) {
        match catalog[tile.gid].collision_objects {
            Some(objects) => objects_placements(
                objects@,
                x,
                y,
                spec_tile_rotation(tile),
                objects@.len() as int,
            ),
            None => Seq::<Placement>::empty(),
        }
    } else {
        Seq::<Placement>::empty()
    }
}

/// The colliders of the first `n` tiles of row `y`.
pub open spec fn row_placements(row: Seq<LayerTile>, y: int, catalog: Map<u32, Sprite>, n: int) -> Seq<
    Placement,
>
    decreases n,
{
    if n <= 0 {
        Seq::<Placement>::empty()
    } else {
        row_placements(row, y, catalog, n - 1) + cell_placements(row[n - 1], n - 1, y, catalog)
    }
}

/// The colliders of the first `n` rows of a grid.
pub open spec fn layer_placements(grid: Seq<Seq<LayerTile>>, catalog: Map<u32, Sprite>, n: int) -> Seq<
    Placement,
>
    decreases n,
{
    if n <= 0 {
        Seq::<Placement>::empty()
    } else {
        layer_placements(grid, catalog, n - 1) + row_placements(
            grid[n - 1],
            n - 1,
            catalog,
            grid[n - 1].len() as int,
        )
    }
}

/// The colliders of the first `n` layers.
pub open spec fn world_placements(layers: Seq<Layer>, catalog: Map<u32, Sprite>, n: int) -> Seq<
    Placement,
>
    decreases n,
{
    if n <= 0 {
        Seq::<Placement>::empty()
    } else {
        world_placements(layers, catalog, n - 1) + layer_placements(
            layers[n - 1].grid(),
            catalog,
            layers[n - 1].grid().len() as int,
        )
    }
}

/// Static bodies at the centres of the placements.
pub open spec fn placed_bodies(placements: Seq<Placement>) -> Seq<RigidBody> {
    Seq::new(placements.len(), |i: int| RigidBody::spec_fixed(placements[i].center))
}

/// The colliders of the placements, the `i`-th carried by body `first + i`.
pub open spec fn placed_colliders(first: int, placements: Seq<Placement>) -> Seq<Collider> {
    Seq::new(
        placements.len(),
        |i: int|
            Collider {
                body: BodyHandle((first + i) as usize),
                half_extents: placements[i].half_extents,
                rotation: placements[i].rotation,
                material: None,
            },
    )
}

/// Whether the collider of a placed tile can be built: an empty cell always;
/// a tile if the catalog has its sprite and each collision object of the
/// sprite is in bounds.
pub open spec fn tile_placeable(tile: LayerTile, catalog: Map<u32, Sprite>) -> bool {
    tile.gid != 0 ==> catalog.contains_key(tile.gid) && match catalog[tile.gid].collision_objects {
        Some(objects) => forall|i: int|
            0 <= i < objects@.len() ==> object_in_bounds(#[trigger] objects@[i]),
        None => true,
    }
}

/// Whether each of the first `n` tiles of a row is placeable.
pub open spec fn row_placeable(row: Seq<LayerTile>, catalog: Map<u32, Sprite>, n: int) -> bool {
    forall|x: int| 0 <= x < n ==> tile_placeable(#[trigger] row[x], catalog)
}

/// Whether a grid is within bounds and each tile in its first `n` rows is
/// placeable.
pub open spec fn grid_placeable(grid: Seq<Seq<LayerTile>>, catalog: Map<u32, Sprite>, n: int) -> bool {
    &&& grid.len() <= MAX_LAYER_SIDE
    &&& forall|y: int|
        0 <= y < n ==> (#[trigger] grid[y]).len() <= MAX_LAYER_SIDE && row_placeable(
            grid[y],
            catalog,
            grid[y].len() as int,
        )
}

/// Whether the static colliders of the layers can be built from the
/// catalog: every layer is within bounds, the catalog has the sprite of
/// every tile, and every collision object met is in bounds.
pub open spec fn world_placeable(layers: Seq<Layer>, catalog: Map<u32, Sprite>) -> bool {
    forall|l: int|
        0 <= l < layers.len() ==> grid_placeable(
            (#[trigger] layers[l]).grid(),
            catalog,
            layers[l].grid().len() as int,
        )
}

fn object_is_in_bounds(obj: &CollisionObject) -> (b: bool)
    ensures
        b == object_in_bounds(*obj),
{
    let (width, height) = match obj.shape {
        ObjectShape::Rect { width, height } => (width, height),
        ObjectShape::Other => (0, 0),
    };
    -MAX_OBJECT_SPAN <= obj.x && obj.x <= MAX_OBJECT_SPAN && -MAX_OBJECT_SPAN <= obj.y && obj.y
        <= MAX_OBJECT_SPAN && -MAX_OBJECT_SPAN <= width && width <= MAX_OBJECT_SPAN
        && -MAX_OBJECT_SPAN <= height && height <= MAX_OBJECT_SPAN
}

fn tile_is_placeable(tile: &LayerTile, sprite_map: &HashMap<u32, Sprite>) -> (b: bool)
    ensures
        b == tile_placeable(*tile, sprite_map@),
{
    if tile.gid == 0 {
        return true;
    }
    match sprite_map.get(&tile.gid) {
        None => false,
        Some(sprite) => match &sprite.collision_objects {
            None => true,
            Some(objects) => {
                let mut i: usize = 0;
                while i < objects.len()
                    invariant
                        i <= objects.len(),
                        tile.gid != 0,
                        sprite_map@.contains_key(tile.gid),
                        sprite_map@[tile.gid].collision_objects == Some(*objects),
                        forall|k: int| 0 <= k < i ==> object_in_bounds(#[trigger] objects@[k]),
                    decreases objects.len() - i,
                {
                    if !object_is_in_bounds(&objects[i]) {
                        assert(!object_in_bounds(
                            sprite_map@[tile.gid].collision_objects->0@[i as int],
                        ));
                        return false;
                    }
                    i += 1;
                }
                true
            },
        },
    }
}

fn layer_is_placeable(lyr: &Layer, sprite_map: &HashMap<u32, Sprite>) -> (b: bool)
    ensures
        b == grid_placeable(lyr.grid(), sprite_map@, lyr.grid().len() as int),
{
    if lyr.tiles.len() > MAX_LAYER_SIDE {
        return false;
    }
    let mut y: usize = 0;
    while y < lyr.tiles.len()
        invariant
            y <= lyr.tiles.len(),
            grid_placeable(lyr.grid(), sprite_map@, y as int),
        decreases lyr.tiles.len() - y,
    {
        let row = &lyr.tiles[y];
        assert(lyr.grid()[y as int] == row@);
        if row.len() > MAX_LAYER_SIDE {
            return false;
        }
        let mut x: usize = 0;
        while x < row.len()
            invariant
                x <= row.len(),
                y < lyr.tiles.len(),
                lyr.grid()[y as int] == row@,
                row_placeable(row@, sprite_map@, x as int),
            decreases row.len() - x,
        {
            if !tile_is_placeable(&row[x], sprite_map) {
                return false;
            }
            x += 1;
        }
        y += 1;
    }
    true
}

/// Whether [`create_physics_world`] can build the static colliders of the
/// layers from the catalog.
pub fn can_create_physics_world(lyrs: &Vec<Layer>, sprite_map: &HashMap<u32, Sprite>) -> (b: bool)
    ensures
        b == world_placeable(lyrs@, sprite_map@),
{
    let mut l: usize = 0;
    while l < lyrs.len()
        invariant
            l <= lyrs.len(),
            forall|k: int|
                0 <= k < l ==> grid_placeable(
                    (#[trigger] lyrs@[k]).grid(),
                    sprite_map@,
                    lyrs@[k].grid().len() as int,
                ),
        decreases lyrs.len() - l,
    {
        if !layer_is_placeable(&lyrs[l], sprite_map) {
            return false;
        }
        l += 1;
    }
    true
}

/// Adds the collider of one collision object of the tile at `(x, y)`.
fn place_object(
    obj: &CollisionObject,
    x: usize,
    y: usize,
    rotation: i32,
    colliders: &mut ColliderSet,
    bodies: &mut BodySet,
)
    requires
        x <= MAX_LAYER_SIDE,
        y <= MAX_LAYER_SIDE,
        object_in_bounds(*obj),
    ensures
        final(bodies)@ == old(bodies)@.push(
            RigidBody::spec_fixed(object_placement(*obj, x as int, y as int, rotation).center),
        ),
        final(colliders)@ == old(colliders)@.push(
            Collider {
                body: BodyHandle(old(bodies)@.len() as usize),
                half_extents: object_placement(*obj, x as int, y as int, rotation).half_extents,
                rotation,
                material: None,
            },
        ),
{
    let (width, height) = match obj.shape {
        ObjectShape::Rect { width, height } => (width, height),
        ObjectShape::Other => (0, 0),
    };
    let half_width: i64 = halve(width);
    let half_height: i64 = halve(height);
    let (dx, dy) = if rotation == 90 {
        (halve(obj.y), halve(obj.x))
    } else if rotation == -90 {
        (halve(obj.y), -halve(obj.x))
    } else if rotation == 180 {
        (-halve(obj.x), -halve(obj.y))
    } else {
        (obj.x, obj.y)
    };
    let center = Vec2 {
        x: TILE_SIZE * (x as i64) + half_width + dx,
        y: TILE_SIZE * (y as i64) + half_height + dy,
    };
    let handle = bodies.insert(RigidBody::fixed(center));
    colliders.insert(
        Collider {
            body: handle,
            half_extents: Vec2 { x: half_width, y: half_height },
            rotation,
            material: None,
        },
    );
}

/// Builds the static colliders that the tiles of all layers declare.
///
/// Layer by layer, row by row and tile by tile, each collision object of a
/// tile's sprite becomes one static body with a rectangular collider, as
/// [`object_placement`] places it, turned by the tile's rotation. They are
/// appended to the sets in that order; what the sets held before stays as it
/// was.
pub fn create_physics_world(
    lyrs: &Vec<Layer>,
    sprite_map: &HashMap<u32, Sprite>,
    colliders: &mut ColliderSet,
    bodies: &mut BodySet,
)
    requires
        world_placeable(lyrs@, sprite_map@),
    ensures
        final(bodies)@ == old(bodies)@ + placed_bodies(
            world_placements(lyrs@, sprite_map@, lyrs@.len() as int),
        ),
        final(colliders)@ == old(colliders)@ + placed_colliders(
            old(bodies)@.len() as int,
            world_placements(lyrs@, sprite_map@, lyrs@.len() as int),
        ),
{
    let ghost bodies0 = bodies@;
    let ghost colliders0 = colliders@;
    let ghost catalog = sprite_map@;
    let ghost mut placed: Seq<Placement> = Seq::empty();
    let mut l: usize = 0;
    while l < lyrs.len()
        invariant
            l <= lyrs.len(),
            catalog == sprite_map@,
            world_placeable(lyrs@, catalog),
            placed == world_placements(lyrs@, catalog, l as int),
            bodies@ == bodies0 + placed_bodies(placed),
            colliders@ == colliders0 + placed_colliders(bodies0.len() as int, placed),
        decreases lyrs.len() - l,
    {
        let lyr = &lyrs[l];
        let ghost grid = lyr.grid();
        let ghost before_layer = placed;
        let mut y: usize = 0;
        while y < lyr.tiles.len()
            invariant
                y <= lyr.tiles.len(),
                grid == lyr.grid(),
                catalog == sprite_map@,
                grid_placeable(grid, catalog, grid.len() as int),
                placed == before_layer + layer_placements(grid, catalog, y as int),
                bodies@ == bodies0 + placed_bodies(placed),
                colliders@ == colliders0 + placed_colliders(bodies0.len() as int, placed),
            decreases lyr.tiles.len() - y,
        {
            let row = &lyr.tiles[y];
            let ghost before_row = placed;
            assert(grid[y as int] == row@);
            let mut x: usize = 0;
            while x < row.len()
                invariant
                    x <= row.len(),
                    y <= MAX_LAYER_SIDE,
                    row@.len() <= MAX_LAYER_SIDE,
                    catalog == sprite_map@,
                    row_placeable(row@, catalog, row@.len() as int),
                    placed == before_row + row_placements(row@, y as int, catalog, x as int),
                    bodies@ == bodies0 + placed_bodies(placed),
                    colliders@ == colliders0 + placed_colliders(bodies0.len() as int, placed),
                decreases row.len() - x,
            {
                let tile = row[x];
                let ghost before_cell = placed;
                if tile.gid != 0 {
                    let rotation = tile_rotation(&tile);
                    match sprite_map.get(&tile.gid) {
                        Some(sprite) => match &sprite.collision_objects {
                            Some(objects) => {
                                let mut i: usize = 0;
                                while i < objects.len()
                                    invariant
                                        i <= objects.len(),
                                        x <= MAX_LAYER_SIDE,
                                        y <= MAX_LAYER_SIDE,
                                        forall|k: int|
                                            0 <= k < objects@.len() ==> object_in_bounds(
                                                #[trigger] objects@[k],
                                            ),
                                        placed == before_cell + objects_placements(
                                            objects@,
                                            x as int,
                                            y as int,
                                            rotation,
                                            i as int,
                                        ),
                                        bodies@ == bodies0 + placed_bodies(placed),
                                        colliders@ == colliders0 + placed_colliders(
                                            bodies0.len() as int,
                                            placed,
                                        ),
                                    decreases objects.len() - i,
                                {
                                    let ghost p = object_placement(
                                        objects@[i as int],
                                        x as int,
                                        y as int,
                                        rotation,
                                    );
                                    place_object(&objects[i], x, y, rotation, colliders, bodies);
                                    proof {
                                        placed = placed.push(p);
                                    }
                                    i += 1;
                                }
                            },
                            None => {},
                        },
                        None => {},
                    }
                }
                x += 1;
            }
            y += 1;
        }
        l += 1;
    }
}

} // verus!
