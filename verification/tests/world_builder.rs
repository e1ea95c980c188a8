use neon_sim::geometry::Vec2;
use neon_sim::physics::{BodyHandle, BodySet, BodyStatus, Collider, ColliderSet, RigidBody};
use neon_sim::sprites::{build_sprite_map, CollisionObject, ObjectShape, TileMeta, Tileset};
use neon_sim::tile_objects::{can_create_physics_world, create_physics_world, tile_rotation};
use neon_sim::tiles::{Layer, LayerTile};
use neon_sim::world_gen::create_map_bounds;

fn tile(gid: u32) -> LayerTile {
    LayerTile { gid, flip_h: false, flip_v: false, flip_d: false }
}

fn layer(rows: &[&[u32]]) -> Layer {
    Layer { tiles: rows.iter().map(|row| row.iter().map(|gid| tile(*gid)).collect()).collect() }
}

fn centers(bodies: &BodySet) -> Vec<(i64, i64)> {
    (0..bodies.len())
        .map(|i| {
            let body = bodies.rigid_body(BodyHandle(i)).unwrap();
            (body.position.x, body.position.y)
        })
        .collect()
}

fn sheet(first_gid: u32, tiles: Vec<TileMeta>) -> Tileset {
    Tileset {
        first_gid,
        name: String::from("terrain"),
        tile_width: 16,
        tile_height: 16,
        image_width: 32,
        image_height: 48,
        tiles,
    }
}

#[test]
fn empty_three_by_three_grid_is_all_solid() {
    let lyr = layer(&[&[0, 0, 0], &[0, 0, 0], &[0, 0, 0]]);
    let mut colliders = ColliderSet::new();
    let mut bodies = BodySet::new();
    assert!(lyr.is_in_bounds());
    create_map_bounds(&lyr, &mut colliders, &mut bodies);
    assert_eq!(colliders.len(), 9);
    assert_eq!(bodies.len(), 9);
    let mut expected = Vec::new();
    for y in 0..3i64 {
        for x in 0..3i64 {
            expected.push((16000 * x + 8000, 16000 * y + 8000));
        }
    }
    assert_eq!(centers(&bodies), expected);
}

#[test]
fn boundary_tiles_are_static_and_just_short_of_a_tile() {
    let lyr = layer(&[&[0]]);
    let mut colliders = ColliderSet::new();
    let mut bodies = BodySet::new();
    create_map_bounds(&lyr, &mut colliders, &mut bodies);
    let body = bodies.rigid_body(BodyHandle(0)).unwrap();
    assert_eq!(body, RigidBody::fixed(Vec2::new(8000, 8000)));
    assert_eq!(body.status, BodyStatus::Static);
    assert!(!body.gravity_enabled);
    assert_eq!(
        colliders.get(neon_sim::physics::ColliderHandle(0)),
        Some(Collider {
            body: BodyHandle(0),
            half_extents: Vec2::new(7990, 7990),
            rotation: 0,
            material: None,
        })
    );
}

#[test]
fn full_grid_is_solid_along_its_ring() {
    let lyr = layer(&[&[1, 1, 1], &[1, 1, 1], &[1, 1, 1]]);
    let mut colliders = ColliderSet::new();
    let mut bodies = BodySet::new();
    create_map_bounds(&lyr, &mut colliders, &mut bodies);
    let got = centers(&bodies);
    let expected = vec![
        (8000, 8000),
        (24000, 8000),
        (40000, 8000),
        (8000, 24000),
        (40000, 24000),
        (8000, 40000),
        (24000, 40000),
        (40000, 40000),
    ];
    assert_eq!(got, expected);
    assert_eq!(colliders.len(), 8);
}

#[test]
fn every_ring_cell_and_every_void_cell_is_solid() {
    let grid: [&[u32]; 4] = [&[3, 0, 5, 1], &[0, 7, 0, 2], &[4, 8, 0, 0], &[1, 1, 0, 9]];
    let lyr = layer(&grid);
    let mut colliders = ColliderSet::new();
    let mut bodies = BodySet::new();
    create_map_bounds(&lyr, &mut colliders, &mut bodies);
    let got = centers(&bodies);
    let center = |x: i64, y: i64| (16000 * x + 8000, 16000 * y + 8000);
    let mut expected = Vec::new();
    for y in 0..4i64 {
        for x in 0..4i64 {
            let gid = grid[y as usize][x as usize];
            if gid == 0 || x == 0 || y == 0 || x == 3 || y == 3 {
                expected.push(center(x, y));
            }
        }
    }
    // one collider for each cell that is empty or on the ring, in row order
    assert_eq!(got, expected);
    assert_eq!(got.len(), 12 + 2);
    // the tiles inside the map add nothing
    assert!(!got.contains(&center(1, 1)));
    assert!(!got.contains(&center(1, 2)));
    for k in 0..colliders.len() {
        let collider = colliders.get(neon_sim::physics::ColliderHandle(k)).unwrap();
        assert_eq!(collider.body, BodyHandle(k));
        assert_eq!(collider.half_extents, Vec2::new(7990, 7990));
        assert_eq!(bodies.rigid_body(BodyHandle(k)).unwrap().status, BodyStatus::Static);
    }
}

#[test]
fn single_tile_is_solid_once() {
    let lyr = layer(&[&[4]]);
    let mut colliders = ColliderSet::new();
    let mut bodies = BodySet::new();
    create_map_bounds(&lyr, &mut colliders, &mut bodies);
    assert_eq!(centers(&bodies), vec![(8000, 8000)]);
    assert_eq!(colliders.len(), 1);
}

#[test]
fn one_row_and_one_column_are_closed_all_round() {
    let mut colliders = ColliderSet::new();
    let mut bodies = BodySet::new();
    create_map_bounds(&layer(&[&[1, 2, 3]]), &mut colliders, &mut bodies);
    assert_eq!(centers(&bodies), vec![(8000, 8000), (24000, 8000), (40000, 8000)]);
    let mut colliders = ColliderSet::new();
    let mut bodies = BodySet::new();
    create_map_bounds(&layer(&[&[1], &[2], &[3]]), &mut colliders, &mut bodies);
    assert_eq!(centers(&bodies), vec![(8000, 8000), (8000, 24000), (8000, 40000)]);
}

#[test]
fn map_bounds_keep_what_the_sets_held() {
    let lyr = layer(&[&[0, 2]]);
    let mut colliders = ColliderSet::new();
    let mut bodies = BodySet::new();
    let first = bodies.insert(RigidBody::dynamic(Vec2::new(5, 6), 1200));
    create_map_bounds(&lyr, &mut colliders, &mut bodies);
    assert_eq!(bodies.rigid_body(first), Some(RigidBody::dynamic(Vec2::new(5, 6), 1200)));
    assert_eq!(centers(&bodies), vec![(5, 6), (8000, 8000), (24000, 8000)]);
    assert_eq!(colliders.get(neon_sim::physics::ColliderHandle(0)).unwrap().body, BodyHandle(1));
    assert_eq!(colliders.get(neon_sim::physics::ColliderHandle(1)).unwrap().body, BodyHandle(2));
}

#[test]
fn empty_layer_has_no_bounds() {
    let lyr = Layer { tiles: Vec::new() };
    let mut colliders = ColliderSet::new();
    let mut bodies = BodySet::new();
    create_map_bounds(&lyr, &mut colliders, &mut bodies);
    assert_eq!(bodies.len(), 0);
    assert_eq!(colliders.len(), 0);
}

#[test]
fn tile_rotation_is_one_of_four_angles() {
    let mut seen = Vec::new();
    for bits in 0..8u32 {
        let t = LayerTile { gid: 1, flip_h: bits & 1 != 0, flip_v: bits & 2 != 0, flip_d: bits & 4 != 0 };
        let r = tile_rotation(&t);
        assert!(r == 0 || r == 90 || r == -90 || r == 180);
        seen.push((t.flip_h, t.flip_d, r));
    }
    assert!(seen.contains(&(false, false, 0)));
    assert!(seen.contains(&(true, false, 180)));
    assert!(seen.contains(&(false, true, -90)));
    assert!(seen.contains(&(true, true, 90)));
}

#[test]
fn sprite_catalog_numbers_tiles_row_by_row() {
    let rect = CollisionObject { x: 1000, y: 2000, shape: ObjectShape::Rect { width: 4000, height: 6000 } };
    let tilesets = vec![
        sheet(
            1,
            vec![
                TileMeta { id: 3, objects: Some(vec![rect]) },
                TileMeta { id: 4, objects: None },
                TileMeta { id: 3, objects: Some(vec![rect, rect]) },
            ],
        ),
        Tileset {
            first_gid: 100,
            name: String::from("castle"),
            tile_width: 8,
            tile_height: 8,
            image_width: 17,
            image_height: 8,
            tiles: Vec::new(),
        },
    ];
    let catalog = build_sprite_map(&tilesets).unwrap();
    assert_eq!(catalog.len(), 6 + 2);
    for gid in 1..=8u32 {
        assert!(catalog.contains_key(&gid));
    }
    assert!(!catalog.contains_key(&0));
    assert!(!catalog.contains_key(&9));
    assert!(!catalog.contains_key(&100));
    let s = &catalog[&4];
    assert_eq!((s.width, s.height), (16000, 16000));
    assert_eq!((s.rect.x, s.rect.y, s.rect.width, s.rect.height), (16000, 16000, 16000, 16000));
    assert_eq!(s.pos, Vec2::new(16000, 16000));
    assert_eq!(s.texture, "terrain");
    // tile 3 of the first sheet: the later of its two entries counts
    assert_eq!(s.collision_objects.as_ref().map(|o| o.len()), Some(2));
    assert!(catalog[&5].collision_objects.is_none());
    assert!(catalog[&1].collision_objects.is_none());
    // the second sheet goes on counting where the first stopped
    let c = &catalog[&8];
    assert_eq!(c.texture, "castle");
    assert_eq!((c.rect.x, c.rect.y, c.rect.width, c.rect.height), (8000, 0, 8000, 8000));
}

#[test]
fn sprite_catalog_of_nothing_is_empty() {
    assert_eq!(build_sprite_map(&Vec::new()).unwrap().len(), 0);
    let mut no_image = sheet(1, Vec::new());
    no_image.image_width = 0;
    assert_eq!(build_sprite_map(&vec![no_image]).unwrap().len(), 0);
    let mut no_size = sheet(1, Vec::new());
    no_size.tile_height = 0;
    assert_eq!(build_sprite_map(&vec![no_size]).unwrap().len(), 0);
}

#[test]
fn sprite_catalog_fails_where_ids_run_out() {
    assert!(build_sprite_map(&vec![sheet(u32::MAX - 5, Vec::new())]).is_none());
    assert!(build_sprite_map(&vec![sheet(u32::MAX - 6, Vec::new())]).is_some());
}

fn catalog_with(objects: Vec<CollisionObject>) -> std::collections::HashMap<u32, neon_sim::sprites::Sprite> {
    build_sprite_map(&vec![sheet(1, vec![TileMeta { id: 0, objects: Some(objects) }])]).unwrap()
}

fn placed(placed_tile: LayerTile, objects: Vec<CollisionObject>) -> (Vec<(i64, i64)>, Vec<Collider>) {
    let lyrs = vec![Layer { tiles: vec![vec![tile(0), tile(0)], vec![tile(0), placed_tile]] }];
    let catalog = catalog_with(objects);
    assert!(can_create_physics_world(&lyrs, &catalog));
    let mut colliders = ColliderSet::new();
    let mut bodies = BodySet::new();
    create_physics_world(&lyrs, &catalog, &mut colliders, &mut bodies);
    let cs = (0..colliders.len())
        .map(|i| colliders.get(neon_sim::physics::ColliderHandle(i)).unwrap())
        .collect();
    (centers(&bodies), cs)
}

#[test]
fn collision_objects_become_static_colliders() {
    let obj = CollisionObject { x: 3000, y: -5000, shape: ObjectShape::Rect { width: 8000, height: 6000 } };
    let flags = |h: bool, d: bool| LayerTile { gid: 1, flip_h: h, flip_v: true, flip_d: d };
    // unrotated: tile corner + half size + offset
    let (at, cs) = placed(flags(false, false), vec![obj]);
    assert_eq!(at, vec![(16000 + 4000 + 3000, 16000 + 3000 - 5000)]);
    assert_eq!(
        cs,
        vec![Collider { body: BodyHandle(0), half_extents: Vec2::new(4000, 3000), rotation: 0, material: None }]
    );
    // 180 degrees: minus half the offset
    let (at, cs) = placed(flags(true, false), vec![obj]);
    assert_eq!(at, vec![(16000 + 4000 - 1500, 16000 + 3000 + 2500)]);
    assert_eq!(cs[0].rotation, 180);
    // -90 degrees: half of y, minus half of x
    let (at, cs) = placed(flags(false, true), vec![obj]);
    assert_eq!(at, vec![(16000 + 4000 - 2500, 16000 + 3000 - 1500)]);
    assert_eq!(cs[0].rotation, -90);
    // 90 degrees: half of y, half of x
    let (at, cs) = placed(flags(true, true), vec![obj]);
    assert_eq!(at, vec![(16000 + 4000 - 2500, 16000 + 3000 + 1500)]);
    assert_eq!(cs[0].rotation, 90);
}

#[test]
fn halves_round_toward_zero() {
    let obj = CollisionObject { x: -3, y: 3, shape: ObjectShape::Rect { width: 5, height: 7 } };
    let turned = LayerTile { gid: 1, flip_h: true, flip_v: false, flip_d: false };
    let (at, cs) = placed(turned, vec![obj]);
    assert_eq!(at, vec![(16000 + 2 + 1, 16000 + 3 - 1)]);
    assert_eq!(cs[0].half_extents, Vec2::new(2, 3));
    assert_eq!(neon_sim::geometry::halve(-3), -1);
    assert_eq!(neon_sim::geometry::halve(3), 1);
}

#[test]
fn other_outlines_collide_without_size() {
    let obj = CollisionObject { x: 1000, y: 2000, shape: ObjectShape::Other };
    let (at, cs) = placed(tile(1), vec![obj, obj]);
    assert_eq!(at, vec![(17000, 18000), (17000, 18000)]);
    assert_eq!(cs[1], Collider { body: BodyHandle(1), half_extents: Vec2::new(0, 0), rotation: 0, material: None });
}

#[test]
fn physics_world_walks_layers_in_order() {
    let obj = CollisionObject { x: 0, y: 0, shape: ObjectShape::Rect { width: 2000, height: 2000 } };
    let catalog = catalog_with(vec![obj]);
    let lyrs = vec![layer(&[&[0, 1]]), layer(&[&[1, 2], &[1, 0]])];
    assert!(can_create_physics_world(&lyrs, &catalog));
    let mut colliders = ColliderSet::new();
    let mut bodies = BodySet::new();
    create_physics_world(&lyrs, &catalog, &mut colliders, &mut bodies);
    // gid 2 has no collision objects
    assert_eq!(centers(&bodies), vec![(17000, 1000), (1000, 1000), (1000, 17000)]);
}

#[test]
fn physics_world_wants_every_sprite_and_sane_objects() {
    let catalog = catalog_with(Vec::new());
    assert!(can_create_physics_world(&vec![layer(&[&[0, 6]])], &catalog));
    assert!(!can_create_physics_world(&vec![layer(&[&[0, 7]])], &catalog));
    let far = CollisionObject { x: 1 << 41, y: 0, shape: ObjectShape::Other };
    assert!(!can_create_physics_world(&vec![layer(&[&[1]])], &catalog_with(vec![far])));
    assert!(can_create_physics_world(&vec![layer(&[&[2]])], &catalog_with(vec![far])));
    let wide = CollisionObject { x: 0, y: 0, shape: ObjectShape::Rect { width: 0, height: -(1 << 41) } };
    assert!(!can_create_physics_world(&vec![layer(&[&[1]])], &catalog_with(vec![wide])));
}
