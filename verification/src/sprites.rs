//! The sprite catalog: what each tile id looks like and where it is solid.

use std::collections::HashMap;
use vstd::prelude::*;
use crate::geometry::{Vec2, UNITS_PER_PIXEL};
use crate::region::Region;

verus! {

broadcast use vstd::std_specs::hash::group_hash_axioms;

/// Outline of a collision object.
#[derive(Clone, Copy, PartialEq, Eq, Structural, Debug)]
pub enum ObjectShape {
    /// A rectangle of the given size.
    Rect { width: i64, height: i64 },
    /// Any other outline; it collides as a rectangle without size.
    Other,
}

/// A collision object of a tile, placed relative to the tile's corner.
#[derive(Clone, Copy, PartialEq, Eq, Structural, Debug)]
pub struct CollisionObject {
    pub x: i64,
    pub y: i64,
    pub shape: ObjectShape,
}

/// What is known of one tile id.
#[derive(Debug)]
pub struct Sprite {
    pub width: i64,
    pub height: i64,
    /// Where the tile's picture lies in its texture.
    pub rect: Region,
    /// Corner of the picture in its texture.
    pub pos: Vec2,
    /// Name of the texture, which is the name of the tile set.
    pub texture: String,
    /// The tile's collision objects, if it declares any.
    pub collision_objects: Option<Vec<CollisionObject>>,
}

/// A [`Sprite`] as a mathematical value.
pub struct SpriteView {
    pub width: i64,
    pub height: i64,
    pub rect: Region,
    pub pos: Vec2,
    pub texture: Seq<char>,
    pub collision_objects: Option<Seq<CollisionObject>>,
}

impl View for Sprite {
    type V = SpriteView;

    open spec fn view(&self) -> SpriteView {
        SpriteView {
            width: self.width,
            height: self.height,
            rect: self.rect,
            pos: self.pos,
            texture: self.texture@,
            collision_objects: match self.collision_objects {
                Some(objects) => Some(objects@),
                None => None,
            },
        }
    }
}

/// Metadata of one tile of a tile set.
#[derive(Debug)]
pub struct TileMeta {
    /// Index of the tile in its tile set, counted row by row from 0.
    pub id: u32,
    pub objects: Option<Vec<CollisionObject>>,
}

/// One tile set: a sheet of equal tiles cut from one image.
#[derive(Debug)]
pub struct Tileset {
    pub first_gid: u32,
    pub name: String,
    /// Width of a tile in pixels.
    pub tile_width: u32,
    /// Height of a tile in pixels.
    pub tile_height: u32,
    /// Width of the image in pixels; 0 where the tile set has no image.
    pub image_width: i32,
    /// Height of the image in pixels; 0 where the tile set has no image.
    pub image_height: i32,
    pub tiles: Vec<TileMeta>,
}

/// How many whole tiles of size `tile` fit into `image` pixels.
pub open spec fn tiles_across(image: int, tile: int) -> int {
    if tile <= 0 || image <= 0 {
        0
    } else {
        image / tile
    }
}

/// Number of tile columns of a tile set.
pub open spec fn columns(ts: Tileset) -> int {
    tiles_across(ts.image_width as int, ts.tile_width as int)
}

/// Number of tile rows of a tile set.
pub open spec fn sheet_rows(ts: Tileset) -> int {
    tiles_across(ts.image_height as int, ts.tile_height as int)
}

/// Whether the tile set has a tile in column `col` of row `row`.
pub open spec fn in_sheet(ts: Tileset, col: int, row: int) -> bool {
    0 <= col < columns(ts) && 0 <= row < sheet_rows(ts)
}

/// The collision objects that the tile metadata give to tile `id`: those of
/// the last entry for `id` that has any.
pub open spec fn objects_of(tiles: Seq<TileMeta>, id: int) -> Option<Seq<CollisionObject>>
    decreases tiles.len(),
{
    if tiles.len() == 0 {
        None
    } else {
        match tiles.last().objects {
            Some(objects) if tiles.last().id == id => Some(objects@),
            _ => objects_of(tiles.drop_last(), id),
        }
    }
}

/// The sprite of the tile in column `col` of row `row` of a tile set.
pub open spec fn tile_sprite(ts: Tileset, col: int, row: int) -> SpriteView {
    let width = ts.tile_width * UNITS_PER_PIXEL;
    let height = ts.tile_height * UNITS_PER_PIXEL;
    SpriteView {
        width: width as i64,
        height: height as i64,
        rect: Region {
            x: (col * width) as i64,
            y: (row * height) as i64,
            width: width as i64,
            height: height as i64,
        },
        pos: Vec2 { x: (col * width) as i64, y: (row * height) as i64 },
        texture: ts.name@,
        collision_objects: objects_of(ts.tiles@, row * columns(ts) + col),
    }
}

/// Number of sprites in the first `n` tile sets.
pub open spec fn sprites_before(tilesets: Seq<Tileset>, n: int) -> int
    decreases n,
{
    if n <= 0 {
        0
    } else {
        sprites_before(tilesets, n - 1) + columns(tilesets[n - 1]) * sheet_rows(tilesets[n - 1])
    }
}

/// The tile id of the tile in column `col` of row `row` of tile set `t`.
/// Ids count up from the first tile set's first id, through every tile set
/// in turn, row by row.
pub open spec fn gid_of(tilesets: Seq<Tileset>, t: int, col: int, row: int) -> int {
    tilesets[0].first_gid + sprites_before(tilesets, t) + row * columns(tilesets[t]) + col
}

/// Whether every tile id of the tile sets is a `u32`.
pub open spec fn catalog_fits(tilesets: Seq<Tileset>) -> bool {
    tilesets.len() == 0 || tilesets[0].first_gid + sprites_before(
        tilesets,
        tilesets.len() as int,
    ) <= u32::MAX
}

/// Whether `catalog` holds exactly the sprites of the tile sets, each under
/// its tile id.
pub open spec fn is_catalog(catalog: Map<u32, Sprite>, tilesets: Seq<Tileset>) -> bool {
    &&& tilesets.len() == 0 ==> catalog == Map::<u32, Sprite>::empty()
    &&& tilesets.len() > 0 ==> forall|gid: u32|
        catalog.contains_key(gid) <==> tilesets[0].first_gid <= gid < tilesets[0].first_gid
            + sprites_before(tilesets, tilesets.len() as int)
    &&& forall|t: int, col: int, row: int|
        0 <= t < tilesets.len() && in_sheet(tilesets[t], col, row) ==> {
            &&& catalog.contains_key(gid_of(tilesets, t, col, row) as u32)
            &&& catalog[gid_of(tilesets, t, col, row) as u32]@ == #[trigger] tile_sprite(
                tilesets[t],
                col,
                row,
            )
        }
}

proof fn lemma_sprites_before_grows(tilesets: Seq<Tileset>, m: int, n: int)
    requires
        0 <= m <= n,
    ensures
        0 <= sprites_before(tilesets, m) <= sprites_before(tilesets, n),
    decreases n,
{
    if n > m {
        lemma_sprites_before_grows(tilesets, m, n - 1);
    } else if m > 0 {
        lemma_sprites_before_grows(tilesets, m - 1, m - 1);
    }
}

/// How many whole tiles of size `tile` fit into `image` pixels.
fn count_across(image: i32, tile: u32) -> (n: u32)
    ensures
        n == tiles_across(image as int, tile as int),
        n * tile <= 0x7FFF_FFFF,
{
    if tile == 0 || image <= 0 {
        0
    } else {
        let n: u64 = (image as u64) / (tile as u64);
        assert(n * tile <= image) by (nonlinear_arith)
            requires
                n == (image as int) / (tile as int),
                tile > 0,
                image >= 0,
        ;
        assert(n <= image) by (nonlinear_arith)
            requires
                n * tile <= image,
                tile >= 1,
                n >= 0,
        ;
        n as u32
    }
}

/// A copy of `objects`.
fn copy_objects(objects: &Vec<CollisionObject>) -> (copy: Vec<CollisionObject>)
    ensures
        copy@ == objects@,
{
    let mut copy: Vec<CollisionObject> = Vec::new();
    let mut i: usize = 0;
    while i < objects.len()
        invariant
            i <= objects.len(),
            copy@ == objects@.take(i as int),
        decreases objects.len() - i,
    {
        copy.push(objects[i]);
        i += 1;
    }
    copy
}

/// The collision objects that the tile metadata give to tile `id`.
fn find_objects(tiles: &Vec<TileMeta>, id: u32) -> (found: Option<Vec<CollisionObject>>)
    ensures
        (match found {
            Some(objects) => Some(objects@),
            None => None,
        }) == objects_of(tiles@, id as int),
{
    let mut i: usize = tiles.len();
    assert(tiles@.take(i as int) =~= tiles@);
    while i > 0
        invariant
            i <= tiles.len(),
            objects_of(tiles@, id as int) == objects_of(tiles@.take(i as int), id as int),
        decreases i,
    {
        let tile = &tiles[i - 1];
        assert(tiles@.take(i as int).drop_last() =~= tiles@.take(i - 1));
        if tile.id == id {
            match &tile.objects {
                Some(objects) => {
                    return Some(copy_objects(objects));
                },
                None => {},
            }
        }
        i -= 1;
    }
    None
}

/// The sprite of the tile with index `id` in column `col` of row `row`.
fn make_sprite(ts: &Tileset, col: u32, row: u32, id: u32) -> (sprite: Sprite)
    requires
        in_sheet(*ts, col as int, row as int),
        id == row * columns(*ts) + col,
    ensures
        sprite@ == tile_sprite(*ts, col as int, row as int),
{
    let cols: u32 = count_across(ts.image_width, ts.tile_width);
    let rows: u32 = count_across(ts.image_height, ts.tile_height);
    assert(col * ts.tile_width <= 0x7FFF_FFFF) by (nonlinear_arith)
        requires
            0 <= col < cols,
            cols * ts.tile_width <= 0x7FFF_FFFF,
    ;
    assert(row * ts.tile_height <= 0x7FFF_FFFF) by (nonlinear_arith)
        requires
            0 <= row < rows,
            rows * ts.tile_height <= 0x7FFF_FFFF,
    ;
    let width: i64 = (ts.tile_width as i64) * UNITS_PER_PIXEL;
    let height: i64 = (ts.tile_height as i64) * UNITS_PER_PIXEL;
    let x: i64 = (col as i64) * (ts.tile_width as i64) * UNITS_PER_PIXEL;
    let y: i64 = (row as i64) * (ts.tile_height as i64) * UNITS_PER_PIXEL;
    assert(x == col * (ts.tile_width * UNITS_PER_PIXEL)) by (nonlinear_arith)
        requires
            x == col * ts.tile_width * UNITS_PER_PIXEL,
    ;
    assert(y == row * (ts.tile_height * UNITS_PER_PIXEL)) by (nonlinear_arith)
        requires
            y == row * ts.tile_height * UNITS_PER_PIXEL,
    ;
    Sprite {
        width,
        height,
        rect: Region { x, y, width, height },
        pos: Vec2 { x, y },
        texture: ts.name.clone(),
        collision_objects: find_objects(&ts.tiles, id),
    }
}

/// Builds the sprite catalog of a map from its tile sets.
///
/// Tile ids count up from the first tile set's first id, through every tile
/// set in turn and through each sheet row by row. The catalog holds one
/// sprite for each tile that fits whole into its image, and nothing else. The
/// result is `None` exactly where an id would not fit a `u32`.
pub fn build_sprite_map(tilesets: &Vec<Tileset>) -> (catalog: Option<HashMap<u32, Sprite>>)
    ensures
        match catalog {
            Some(map) => catalog_fits(tilesets@) && is_catalog(map@, tilesets@),
            None => !catalog_fits(tilesets@),
        },
{
    let mut map: HashMap<u32, Sprite> = HashMap::new();
    if tilesets.len() == 0 {
        return Some(map);
    }
    let first: u32 = tilesets[0].first_gid;
    let mut gid: u32 = first;
    let mut t: usize = 0;
    while t < tilesets.len()
        invariant
            0 < tilesets.len(),
            t <= tilesets.len(),
            first == tilesets[0].first_gid,
            gid == first + sprites_before(tilesets@, t as int),
            first <= gid,
            forall|g: u32| map@.contains_key(g) <==> first <= g < gid,
            forall|tt: int, col: int, row: int|
                0 <= tt < t && in_sheet(tilesets@[tt], col, row) ==> {
                    &&& first <= gid_of(tilesets@, tt, col, row) < gid
                    &&& map@[gid_of(tilesets@, tt, col, row) as u32]@ == #[trigger] tile_sprite(
                        tilesets@[tt],
                        col,
                        row,
                    )
                },
        decreases tilesets.len() - t,
    {
        let ts = &tilesets[t];
        let cols: u32 = count_across(ts.image_width, ts.tile_width);
        let rows: u32 = count_across(ts.image_height, ts.tile_height);
        assert(cols * rows <= 0x7FFF_FFFF * 0x7FFF_FFFF) by (nonlinear_arith)
            requires
                0 <= cols <= 0x7FFF_FFFF,
                0 <= rows <= 0x7FFF_FFFF,
        ;
        let count: u64 = (cols as u64) * (rows as u64);
        if gid as u64 + count > u32::MAX as u64 {
            proof {
                lemma_sprites_before_grows(tilesets@, t + 1, tilesets.len() as int);
            }
            return None;
        }
        let base: u32 = gid;
        let mut id: u32 = 0;
        let mut row: u32 = 0;
        while row < rows
            invariant
                0 < tilesets.len(),
                t < tilesets.len(),
                ts == &tilesets@[t as int],
                cols == columns(*ts),
                rows == sheet_rows(*ts),
                count == cols * rows,
                base + count <= u32::MAX,
                row <= rows,
                id == row * cols,
                gid == base + id,
                first == tilesets[0].first_gid,
                base == first + sprites_before(tilesets@, t as int),
                first <= base,
                forall|g: u32| map@.contains_key(g) <==> first <= g < gid,
                forall|tt: int, col: int, row: int|
                    0 <= tt < t && in_sheet(tilesets@[tt], col, row) ==> {
                        &&& first <= gid_of(tilesets@, tt, col, row) < gid
                        &&& map@[gid_of(tilesets@, tt, col, row) as u32]@ == #[trigger] tile_sprite(
                            tilesets@[tt],
                            col,
                            row,
                        )
                    },
                forall|c: int, r: int|
                    0 <= r < row && 0 <= c < cols ==> {
                        &&& first <= gid_of(tilesets@, t as int, c, r) < gid
                        &&& map@[gid_of(tilesets@, t as int, c, r) as u32]@ == #[trigger] tile_sprite(
                            *ts,
                            c,
                            r,
                        )
                    },
            decreases rows - row,
        {
            let mut col: u32 = 0;
            while col < cols
                invariant
                    0 < tilesets.len(),
                    t < tilesets.len(),
                    ts == &tilesets@[t as int],
                    cols == columns(*ts),
                    rows == sheet_rows(*ts),
                    count == cols * rows,
                    base + count <= u32::MAX,
                    row < rows,
                    col <= cols,
                    id == row * cols + col,
                    gid == base + id,
                    first == tilesets[0].first_gid,
                    base == first + sprites_before(tilesets@, t as int),
                    first <= base,
                    forall|g: u32| map@.contains_key(g) <==> first <= g < gid,
                    forall|tt: int, col: int, row: int|
                        0 <= tt < t && in_sheet(tilesets@[tt], col, row) ==> {
                            &&& first <= gid_of(tilesets@, tt, col, row) < gid
                            &&& map@[gid_of(tilesets@, tt, col, row) as u32]@
                                == #[trigger] tile_sprite(tilesets@[tt], col, row)
                        },
                    forall|c: int, r: int|
                        (0 <= r < row && 0 <= c < cols) || (r == row && 0 <= c < col) ==> {
                            &&& first <= gid_of(tilesets@, t as int, c, r) < gid
                            &&& map@[gid_of(tilesets@, t as int, c, r) as u32]@
                                == #[trigger] tile_sprite(*ts, c, r)
                        },
                decreases cols - col,
            {
                assert(row * cols + col + 1 <= cols * rows) by (nonlinear_arith)
                    requires
                        0 <= row < rows,
                        0 <= col < cols,
                ;
                let sprite = make_sprite(ts, col, row, id);
                map.insert(gid, sprite);
                gid += 1;
                id += 1;
                col += 1;
            }
            assert((row + 1) * cols == row * cols + cols) by (nonlinear_arith);
            row += 1;
        }
        assert(rows * cols == cols * rows) by (nonlinear_arith);
        t += 1;
    }
    Some(map)
}

} // verus!
