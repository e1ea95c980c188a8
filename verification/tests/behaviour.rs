use neon_sim::animation::{Anim, AnimationData, Direction};
use neon_sim::components::{
    Actor, Character, NPCState, Role, SpawnBounds, NPC, NPC_SPEED, PLAYER_SPEED,
};
use neon_sim::game::after_step;
use neon_sim::geometry::Vec2;
use neon_sim::input::{Graphics, Key, KeyBuffer, KeySet};
use neon_sim::npc::{
    between_from_roll, handle_contact, npc_update, random_between, random_skin, spawn_npcs, ContactEvent,
};
use neon_sim::physics::{BodyHandle, BodySet, BodyStatus, ColliderHandle, ColliderSet, Material, RigidBody};
use neon_sim::player::{movement_direction, movement_velocity, new_player, player_update};
use neon_sim::region::Region;
use neon_sim::store::Entities;

const FRAME: u64 = 200_000_000;

fn anims() -> AnimationData {
    let clip = |y: i64| Anim::new(&Region::row(0, y, 19000, 32000).take(3), FRAME);
    AnimationData { left: clip(32000), right: clip(64000), up: clip(96000), down: clip(0) }
}

struct Stage {
    world: Entities,
    bodies: BodySet,
    colliders: ColliderSet,
}

fn stage() -> Stage {
    Stage { world: Entities::new(), bodies: BodySet::new(), colliders: ColliderSet::new() }
}

fn with_player(skins: usize) -> (Stage, u64) {
    let mut s = stage();
    let id = new_player(&mut s.world, skins, &mut s.bodies, &mut s.colliders, anims(), &Vec2::new(9000, -7000));
    (s, id)
}

fn with_npcs(count: u32) -> (Stage, Vec<u64>) {
    let mut s = stage();
    let bounds = SpawnBounds { x: (1000, 5000), y: (-300, -100) };
    let ids = spawn_npcs(count, &mut s.colliders, &mut s.bodies, &mut s.world, 5, anims(), &bounds);
    (s, ids)
}

fn keys(held: &[Key], pressed: &[Key]) -> KeyBuffer {
    let mut buffer = KeyBuffer::new();
    for k in pressed {
        buffer.press(*k);
        buffer.release(*k);
    }
    for k in held {
        let was_pressed = buffer.pressed.contains(*k);
        buffer.press(*k);
        buffer.pressed.put(*k, was_pressed);
    }
    buffer
}

fn character(actor: &Actor) -> &neon_sim::components::CharacterDrawData {
    actor.draw.player.as_ref().unwrap()
}

fn npc_state(actor: &Actor) -> NPCState {
    match actor.role {
        Role::NPC(NPC { state }) => state,
        _ => panic!("not an NPC"),
    }
}

fn faces_its_way(actor: &Actor) -> bool {
    match npc_state(actor).direction() {
        Some(d) => character(actor).entity_animation.direction == d,
        None => true,
    }
}

#[test]
fn new_player_has_body_collider_and_camera() {
    let (s, id) = with_player(3);
    assert_eq!(s.bodies.len(), 1);
    assert_eq!(s.bodies.rigid_body(BodyHandle(0)), Some(RigidBody::dynamic(Vec2::new(9000, -7000), 1200)));
    let body = s.bodies.rigid_body(BodyHandle(0)).unwrap();
    assert_eq!(body.status, BodyStatus::Dynamic);
    assert!(!body.gravity_enabled);
    let collider = s.colliders.get(ColliderHandle(0)).unwrap();
    assert_eq!(collider.body, BodyHandle(0));
    assert_eq!(collider.half_extents, Vec2::new(5250, 5000));
    assert_eq!(collider.material, None);
    let actor = s.world.get(id).unwrap();
    match actor.role {
        Role::Player(p) => {
            assert_eq!(p.camera.position, Vec2::new(4500, 3500));
            assert_eq!((p.camera.width, p.camera.height), (1600, 900));
        }
        _ => panic!("not a player"),
    }
    assert_eq!(actor.draw.y, -7000);
    assert_eq!(actor.draw.draw_type, neon_sim::components::DrawType::Character);
    assert!(actor.draw.tile.is_none());
    let data = character(&actor);
    assert_eq!(data.entity_animation.direction, Direction::Down);
    assert_eq!(data.character, Character(0, 3));
    assert_eq!(data.handle, BodyHandle(0));
    assert!(!data.colliding);
    assert_eq!(data.animation_data.up.frames.len(), 3);
}

#[test]
fn movement_is_never_diagonal() {
    for bits in 0..16u32 {
        let held = KeySet {
            w: bits & 1 != 0,
            a: bits & 2 != 0,
            s: bits & 4 != 0,
            d: bits & 8 != 0,
            left_bracket: false,
            right_bracket: true,
        };
        match movement_velocity(&held) {
            None => assert_eq!(bits, 0),
            Some(v) => {
                assert!((v.x == 0) != (v.y == 0));
                assert!(v.x.abs() == PLAYER_SPEED || v.y.abs() == PLAYER_SPEED);
            }
        }
    }
}

#[test]
fn the_key_checked_last_wins() {
    let v = |held: &[Key]| movement_velocity(&keys(held, &[]).held);
    assert_eq!(v(&[Key::W]), Some(Vec2::new(0, -112500)));
    assert_eq!(v(&[Key::S]), Some(Vec2::new(0, 112500)));
    assert_eq!(v(&[Key::D]), Some(Vec2::new(112500, 0)));
    assert_eq!(v(&[Key::A]), Some(Vec2::new(-112500, 0)));
    assert_eq!(v(&[Key::W, Key::S]), Some(Vec2::new(0, 112500)));
    assert_eq!(v(&[Key::S, Key::D]), Some(Vec2::new(112500, 0)));
    assert_eq!(v(&[Key::W, Key::S, Key::D, Key::A]), Some(Vec2::new(-112500, 0)));
    assert_eq!(v(&[Key::LeftBracket]), None);
}

#[test]
fn held_key_moves_turns_and_animates_the_player() {
    let (mut s, id) = with_player(3);
    let g = Graphics::new(&keys(&[Key::W], &[]), FRAME + 1);
    player_update(&mut s.bodies, &mut s.world, &g);
    let body = s.bodies.rigid_body(BodyHandle(0)).unwrap();
    assert_eq!(body.velocity, Vec2::new(0, -PLAYER_SPEED));
    assert_eq!(body.position, Vec2::new(9000, -7000));
    let actor = s.world.get(id).unwrap();
    let data = character(&actor);
    assert_eq!(data.entity_animation.direction, Direction::Up);
    assert_eq!(data.animation_data.up.frame_index, 1);
    assert_eq!(data.animation_data.down.frame_index, 0);
    assert_eq!(data.character, Character(0, 3));
}

#[test]
fn holding_up_for_two_frame_durations_in_half_frame_ticks() {
    let (mut s, id) = with_player(3);
    let g = Graphics::new(&keys(&[Key::W], &[]), FRAME / 2);
    for _ in 0..4 {
        player_update(&mut s.bodies, &mut s.world, &g);
    }
    let actor = s.world.get(id).unwrap();
    let up = &character(&actor).animation_data.up;
    // a frame ends when its time exceeds the duration: on the third tick
    assert_eq!((up.frame_index, up.time_elapsed), (1, FRAME / 2));
    for _ in 0..2 {
        player_update(&mut s.bodies, &mut s.world, &g);
    }
    assert_eq!(character(&s.world.get(id).unwrap()).animation_data.up.frame_index, 2);
}

#[test]
fn only_the_clip_of_the_winning_key_advances() {
    let (mut s, id) = with_player(3);
    let g = Graphics::new(&keys(&[Key::W, Key::D], &[]), 7);
    player_update(&mut s.bodies, &mut s.world, &g);
    let actor = s.world.get(id).unwrap();
    let data = character(&actor);
    assert_eq!(data.entity_animation.direction, Direction::Right);
    assert_eq!(data.animation_data.right.time_elapsed, 7);
    assert_eq!(data.animation_data.up.time_elapsed, 0);
    assert_eq!(data.animation_data.left.time_elapsed, 0);
    assert_eq!(data.animation_data.down.time_elapsed, 0);
    assert_eq!(s.bodies.rigid_body(BodyHandle(0)).unwrap().velocity, Vec2::new(PLAYER_SPEED, 0));
    let g = Graphics::new(&keys(&[Key::W, Key::S, Key::D, Key::A], &[]), 5);
    player_update(&mut s.bodies, &mut s.world, &g);
    let actor = s.world.get(id).unwrap();
    let data = character(&actor);
    assert_eq!(data.entity_animation.direction, Direction::Left);
    assert_eq!(data.animation_data.left.time_elapsed, 5);
    assert_eq!(data.animation_data.right.time_elapsed, 7);
    assert_eq!(data.animation_data.up.time_elapsed, 0);
    assert_eq!(data.animation_data.down.time_elapsed, 0);
}

#[test]
fn held_keys_resolve_to_one_direction() {
    let d = |held: &[Key]| movement_direction(&keys(held, &[]).held);
    assert_eq!(d(&[]), None);
    assert_eq!(d(&[Key::W]), Some(Direction::Up));
    assert_eq!(d(&[Key::S]), Some(Direction::Down));
    assert_eq!(d(&[Key::D]), Some(Direction::Right));
    assert_eq!(d(&[Key::A]), Some(Direction::Left));
    assert_eq!(d(&[Key::W, Key::S]), Some(Direction::Down));
    assert_eq!(d(&[Key::W, Key::S, Key::D]), Some(Direction::Right));
    assert_eq!(d(&[Key::W, Key::S, Key::D, Key::A]), Some(Direction::Left));
    assert_eq!(d(&[Key::RightBracket]), None);
}

#[test]
fn no_key_leaves_the_velocity_alone() {
    let (mut s, id) = with_player(3);
    s.bodies.set_linear_velocity(BodyHandle(0), Vec2::new(17, -4));
    let g = Graphics::new(&keys(&[], &[]), FRAME + 1);
    player_update(&mut s.bodies, &mut s.world, &g);
    assert_eq!(s.bodies.rigid_body(BodyHandle(0)).unwrap().velocity, Vec2::new(17, -4));
    let actor = s.world.get(id).unwrap();
    assert_eq!(character(&actor).entity_animation.direction, Direction::Down);
    assert_eq!(character(&actor).animation_data.down.time_elapsed, 0);
}

#[test]
fn skin_wraps_backward_from_the_first_to_the_last() {
    let (mut s, id) = with_player(3);
    let g = Graphics::new(&keys(&[], &[Key::LeftBracket]), 1);
    player_update(&mut s.bodies, &mut s.world, &g);
    assert_eq!(character(&s.world.get(id).unwrap()).character, Character(3, 3));
    player_update(&mut s.bodies, &mut s.world, &g);
    assert_eq!(character(&s.world.get(id).unwrap()).character, Character(2, 3));
}

#[test]
fn skin_wraps_forward_from_the_last_to_the_first() {
    let (mut s, id) = with_player(2);
    let g = Graphics::new(&keys(&[], &[Key::RightBracket]), 1);
    for expected in [1, 2, 0, 1] {
        player_update(&mut s.bodies, &mut s.world, &g);
        assert_eq!(character(&s.world.get(id).unwrap()).character, Character(expected, 2));
    }
    let mut c = Character(0, 0);
    c.cycle_back();
    assert_eq!(c, Character(0, 0));
    c.cycle_forward();
    assert_eq!(c, Character(0, 0));
}

#[test]
fn skin_follows_presses_not_holds() {
    let (mut s, id) = with_player(3);
    let g = Graphics::new(&keys(&[Key::LeftBracket, Key::RightBracket], &[]), 1);
    player_update(&mut s.bodies, &mut s.world, &g);
    assert_eq!(character(&s.world.get(id).unwrap()).character, Character(0, 3));
    // both pressed: back one, then on one
    let g = Graphics::new(&keys(&[], &[Key::LeftBracket, Key::RightBracket]), 1);
    player_update(&mut s.bodies, &mut s.world, &g);
    assert_eq!(character(&s.world.get(id).unwrap()).character, Character(0, 3));
}

#[test]
fn player_update_leaves_npcs_alone() {
    let (mut s, ids) = with_npcs(2);
    let pid = new_player(&mut s.world, 1, &mut s.bodies, &mut s.colliders, anims(), &Vec2::new(0, 0));
    let g = Graphics::new(&keys(&[Key::A], &[Key::LeftBracket]), 9);
    player_update(&mut s.bodies, &mut s.world, &g);
    for (k, id) in ids.iter().enumerate() {
        let actor = s.world.get(*id).unwrap();
        assert_eq!(npc_state(&actor), NPCState::Idle);
        assert_eq!(character(&actor).animation_data.left.time_elapsed, 0);
        assert_eq!(character(&actor).character.1, 5);
        assert_eq!(s.bodies.rigid_body(BodyHandle(k)).unwrap().velocity, Vec2::new(0, 0));
    }
    assert_eq!(s.bodies.rigid_body(BodyHandle(2)).unwrap().velocity, Vec2::new(-PLAYER_SPEED, 0));
    assert_eq!(character(&s.world.get(pid).unwrap()).character, Character(1, 1));
}

#[test]
fn states_come_from_rolls() {
    assert_eq!(NPCState::from_roll(0), NPCState::Up);
    assert_eq!(NPCState::from_roll(1), NPCState::Down);
    assert_eq!(NPCState::from_roll(2), NPCState::Left);
    assert_eq!(NPCState::from_roll(3), NPCState::Right);
    assert_eq!(NPCState::from_roll(4), NPCState::Idle);
    assert_eq!(NPCState::from_roll(29), NPCState::Idle);
    assert_eq!(NPCState::move_from_roll(0), NPCState::Up);
    assert_eq!(NPCState::move_from_roll(1), NPCState::Down);
    assert_eq!(NPCState::move_from_roll(2), NPCState::Left);
    assert_eq!(NPCState::move_from_roll(3), NPCState::Right);
    assert_eq!(NPCState::move_from_roll(4), NPCState::Right);
}

#[test]
fn decisions_follow_the_rolls() {
    // a touch always makes it walk, whatever the wander roll says
    assert_eq!(NPCState::Idle.decide(true, 0, 2), NPCState::Left);
    assert_eq!(NPCState::Idle.decide(true, 1, 3), NPCState::Right);
    assert_eq!(NPCState::Up.decide(true, 7, 9), NPCState::Right);
    // left alone it changes on the one roll only
    assert_eq!(NPCState::Up.decide(false, 1, 4), NPCState::Idle);
    assert_eq!(NPCState::Up.decide(false, 1, 1), NPCState::Down);
    assert_eq!(NPCState::Up.decide(false, 0, 1), NPCState::Up);
    assert_eq!(NPCState::Idle.decide(false, 49, 0), NPCState::Idle);
}

#[test]
fn velocities_run_along_one_axis() {
    assert_eq!(NPC_SPEED * 4, PLAYER_SPEED * 3);
    assert_eq!(NPCState::Up.velocity(), Vec2::new(0, -84375));
    assert_eq!(NPCState::Down.velocity(), Vec2::new(0, 84375));
    assert_eq!(NPCState::Left.velocity(), Vec2::new(-84375, 0));
    assert_eq!(NPCState::Right.velocity(), Vec2::new(84375, 0));
    assert_eq!(NPCState::Idle.velocity(), Vec2::new(0, 0));
    assert_eq!(NPCState::Left.direction(), Some(Direction::Left));
    assert_eq!(NPCState::Idle.direction(), None);
}

#[test]
fn random_states_are_states() {
    let mut seen_idle = false;
    let mut seen_walk = false;
    for _ in 0..400 {
        assert_ne!(NPCState::random_move(), NPCState::Idle);
        match NPCState::random() {
            NPCState::Idle => seen_idle = true,
            _ => seen_walk = true,
        }
    }
    assert!(seen_idle && seen_walk);
}

#[test]
fn random_draws_stay_in_range() {
    let mut low = false;
    let mut high = false;
    for _ in 0..500 {
        let v = random_between(-3, 2);
        assert!((-3..2).contains(&v));
        low |= v == -3;
        high |= v == 1;
        assert_eq!(random_between(7, 7), 7);
        assert_eq!(random_between(7, -7), 7);
        let wide = random_between(i64::MIN, i64::MAX);
        assert!(wide < i64::MAX);
        assert!(random_skin(4) <= 4);
        assert_eq!(random_skin(0), 0);
    }
    assert!(low && high);
    let all: Vec<usize> = (0..300).map(|_| random_skin(2)).collect();
    assert!(all.contains(&0) && all.contains(&1) && all.contains(&2));
}

#[test]
fn rolls_count_places_from_the_low_end() {
    assert_eq!(between_from_roll(-3, 2, 0), -3);
    assert_eq!(between_from_roll(-3, 2, 4), 1);
    assert_eq!(between_from_roll(1000, 5000, 3999), 4999);
    // no such place, or no range at all: the low end
    assert_eq!(between_from_roll(-3, 2, 5), -3);
    assert_eq!(between_from_roll(7, 7, 0), 7);
    assert_eq!(between_from_roll(7, -7, 3), 7);
    assert_eq!(between_from_roll(i64::MIN, i64::MAX, u64::MAX - 1), i64::MAX - 1);
    assert_eq!(between_from_roll(i64::MIN, i64::MAX, u64::MAX), i64::MIN);
    assert_eq!(between_from_roll(i64::MAX - 1, i64::MAX, 0), i64::MAX - 1);
}

#[test]
fn spawned_npcs_stand_within_bounds() {
    let (s, ids) = with_npcs(40);
    assert_eq!(ids.len(), 40);
    assert_eq!(s.bodies.len(), 40);
    assert_eq!(s.colliders.len(), 40);
    assert_eq!(s.world.ids().len(), 40);
    for (k, id) in ids.iter().enumerate() {
        let body = s.bodies.rigid_body(BodyHandle(k)).unwrap();
        assert!((1000..5000).contains(&body.position.x));
        assert!((-300..-100).contains(&body.position.y));
        assert_eq!(body, RigidBody::dynamic(body.position, 1200));
        let collider = s.colliders.get(ColliderHandle(k)).unwrap();
        assert_eq!(collider.body, BodyHandle(k));
        assert_eq!(collider.half_extents, Vec2::new(5250, 5000));
        assert_eq!(collider.material, Some(Material { restitution: 0, friction: 1000 }));
        let actor = s.world.get(*id).unwrap();
        assert_eq!(npc_state(&actor), NPCState::Idle);
        assert_eq!(actor.draw.y, body.position.y);
        assert_eq!(actor.draw.draw_type, neon_sim::components::DrawType::NPC);
        let data = character(&actor);
        assert_eq!(data.handle, BodyHandle(k));
        assert_eq!(data.entity_animation.direction, Direction::Down);
        assert!(data.character.0 <= 5);
        assert_eq!(data.character.1, 5);
        assert!(!data.colliding);
        assert_eq!(data.animation_data.right.frames.len(), 3);
    }
}

#[test]
fn npcs_in_an_empty_rectangle_stand_on_its_corner() {
    let mut s = stage();
    let bounds = SpawnBounds { x: (40, 40), y: (9, 3) };
    spawn_npcs(3, &mut s.colliders, &mut s.bodies, &mut s.world, 0, anims(), &bounds);
    for k in 0..3 {
        assert_eq!(s.bodies.rigid_body(BodyHandle(k)).unwrap().position, Vec2::new(40, 9));
    }
    assert_eq!(spawn_npcs(0, &mut s.colliders, &mut s.bodies, &mut s.world, 0, anims(), &bounds), Vec::new());
    assert_eq!(s.bodies.len(), 3);
}

#[test]
fn a_touched_npc_walks_off() {
    for _ in 0..50 {
        let (mut s, ids) = with_npcs(2);
        handle_contact(&ContactEvent::Started(BodyHandle(7), BodyHandle(1)), &mut s.world);
        assert!(!character(&s.world.get(ids[0]).unwrap()).colliding);
        assert!(character(&s.world.get(ids[1]).unwrap()).colliding);
        assert_eq!(npc_state(&s.world.get(ids[1]).unwrap()), NPCState::Idle);
        npc_update(&mut s.bodies, &mut s.world, 5);
        let actor = s.world.get(ids[1]).unwrap();
        let state = npc_state(&actor);
        assert_ne!(state, NPCState::Idle);
        let data = character(&actor);
        assert!(!data.colliding);
        assert_eq!(Some(data.entity_animation.direction), state.direction());
        assert_eq!(data.animation_data.clip(data.entity_animation.direction).time_elapsed, 5);
        assert_eq!(s.bodies.rigid_body(BodyHandle(1)).unwrap().velocity, state.velocity());
    }
}

#[test]
fn a_contact_that_stops_marks_nobody() {
    let (mut s, ids) = with_npcs(2);
    handle_contact(&ContactEvent::Stopped(BodyHandle(0), BodyHandle(1)), &mut s.world);
    for id in ids {
        assert!(!character(&s.world.get(id).unwrap()).colliding);
    }
    let (mut s, id) = with_player(1);
    handle_contact(&ContactEvent::Started(BodyHandle(0), BodyHandle(0)), &mut s.world);
    assert!(!character(&s.world.get(id).unwrap()).colliding);
}

#[test]
fn npcs_always_face_the_way_they_walk() {
    let (mut s, ids) = with_npcs(12);
    let mut walked = false;
    for tick in 0..400u32 {
        if tick % 7 == 0 {
            let h = (tick as usize / 7) % 12;
            handle_contact(&ContactEvent::Started(BodyHandle(h), BodyHandle(99)), &mut s.world);
        }
        npc_update(&mut s.bodies, &mut s.world, 16_000_000);
        for (k, id) in ids.iter().enumerate() {
            let actor = s.world.get(*id).unwrap();
            assert!(faces_its_way(&actor));
            let state = npc_state(&actor);
            walked |= state != NPCState::Idle;
            let v = s.bodies.rigid_body(BodyHandle(k)).unwrap().velocity;
            assert_eq!(v, state.velocity());
            assert!(v.x == 0 || v.y == 0);
        }
    }
    assert!(walked);
}

#[test]
fn npc_update_leaves_the_player_alone() {
    let (mut s, id) = with_player(3);
    s.bodies.set_linear_velocity(BodyHandle(0), Vec2::new(3, 4));
    npc_update(&mut s.bodies, &mut s.world, FRAME + 1);
    let actor = s.world.get(id).unwrap();
    assert_eq!(character(&actor).animation_data.down.frame_index, 0);
    assert_eq!(s.bodies.rigid_body(BodyHandle(0)).unwrap().velocity, Vec2::new(3, 4));
}

#[test]
fn standing_npcs_do_not_animate() {
    let (mut s, ids) = with_npcs(1);
    let mut last = None;
    for _ in 0..200 {
        npc_update(&mut s.bodies, &mut s.world, 3);
        let actor = s.world.get(ids[0]).unwrap();
        let data = character(&actor);
        let total: u64 = [Direction::Up, Direction::Down, Direction::Left, Direction::Right]
            .iter()
            .map(|d| data.animation_data.clip(*d).time_elapsed)
            .sum();
        if npc_state(&actor) == NPCState::Idle {
            if let Some(before) = last {
                assert_eq!(total, before);
            }
            assert_eq!(s.bodies.rigid_body(BodyHandle(0)).unwrap().velocity, Vec2::new(0, 0));
        }
        last = Some(total);
    }
}

#[test]
fn after_a_step_the_player_rests_and_the_camera_follows() {
    let (mut s, ids) = with_npcs(1);
    let pid = new_player(&mut s.world, 3, &mut s.bodies, &mut s.colliders, anims(), &Vec2::new(10, 20));
    s.bodies.set_linear_velocity(BodyHandle(0), Vec2::new(0, NPC_SPEED));
    s.bodies.set_linear_velocity(BodyHandle(1), Vec2::new(PLAYER_SPEED, 0));
    // what the integrator did
    s.bodies.set_position(BodyHandle(0), Vec2::new(-50, 777));
    s.bodies.set_position(BodyHandle(1), Vec2::new(1885, 20));
    after_step(&mut s.bodies, &mut s.world);
    let player = s.world.get(pid).unwrap();
    match player.role {
        Role::Player(p) => {
            assert_eq!(p.camera.position, Vec2::new(1885, 20));
            assert_eq!((p.camera.width, p.camera.height), (1600, 900));
        }
        _ => panic!("not a player"),
    }
    assert_eq!(player.draw.y, 20);
    assert_eq!(s.bodies.rigid_body(BodyHandle(1)).unwrap().velocity, Vec2::new(0, 0));
    assert_eq!(s.bodies.rigid_body(BodyHandle(1)).unwrap().position, Vec2::new(1885, 20));
    let npc = s.world.get(ids[0]).unwrap();
    assert_eq!(npc.draw.y, 777);
    assert_eq!(s.bodies.rigid_body(BodyHandle(0)).unwrap().velocity, Vec2::new(0, NPC_SPEED));
}
