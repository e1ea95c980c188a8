//! The player: how it is made and how the keyboard moves it.

use vstd::prelude::*;
use crate::animation::{AnimationData, AnimationDataView, Direction, EntityAnimation};
use crate::camera::Camera;
use crate::components::{
    each_has_own_body, lemma_keeps_own_bodies, lemma_newcomer_has_own_body, Actor, ActorView,
    Character, CharacterDrawData, CharacterDrawDataView, Draw, DrawType, DrawView, Player, Role, CHARACTER_HALF_HEIGHT, CHARACTER_HALF_WIDTH, CHARACTER_MASS,
    PLAYER_SPEED,
};
use crate::geometry::{half, halve, Vec2};
use crate::input::{Graphics, KeyBuffer, KeySet};
use crate::physics::{BodyHandle, BodySet, Collider, ColliderSet, Material, RigidBody};
use crate::store::{is_swept, lemma_sweep_done, lemma_sweep_step, Entities};

verus! {

/// Width of the view of a new player's camera, in pixels.
pub const VIEW_WIDTH: u32 = 1600;

/// Height of the view of a new player's camera, in pixels.
pub const VIEW_HEIGHT: u32 = 900;

/// The collider of a character carried by `body`.
pub open spec fn character_collider(body: BodyHandle, material: Option<Material>) -> Collider {
    Collider {
        body,
        half_extents: Vec2 { x: CHARACTER_HALF_WIDTH, y: CHARACTER_HALF_HEIGHT },
        rotation: 0,
        material,
    }
}

/// The player as it is spawned at `pos` with body `handle`: facing down, in
/// its first skin of `char_count + 1`, its camera at half of `pos` with `y`
/// turned over.
pub open spec fn player_actor(
    char_count: usize,
    anims: AnimationDataView,
    pos: Vec2,
    handle: BodyHandle,
) -> ActorView {
    ActorView {
        role: Role::Player(
            Player {
                camera: Camera {
                    position: Vec2 { x: half(pos.x as int) as i64, y: (-half(pos.y as int)) as i64 },
                    width: VIEW_WIDTH,
                    height: VIEW_HEIGHT,
                },
            },
        ),
        draw: DrawView {
            y: pos.y,
            draw_type: DrawType::Character,
            player: Some(
                CharacterDrawDataView {
                    entity_animation: EntityAnimation { direction: Direction::Down },
                    handle,
                    animation_data: anims,
                    character: Character(0, char_count),
                    colliding: false,
                },
            ),
            tile: None,
        },
    }
}

/// Adds the collider of a character to `colliders` for a body that is
/// already in its set.
pub(crate) fn add_character_collider(
    colliders: &mut ColliderSet,
    body: BodyHandle,
    material: Option<Material>,
)
    ensures
        final(colliders)@ == old(colliders)@.push(character_collider(body, material)),
{
    colliders.insert(
        Collider {
            body,
            half_extents: Vec2 { x: CHARACTER_HALF_WIDTH, y: CHARACTER_HALF_HEIGHT },
            rotation: 0,
            material,
        },
    );
}

/// Makes the player at `pos`: a dynamic body without gravity, its collider,
/// and the entity, as [`player_actor`] describes it. Returns the id of the
/// entity, which is the last in spawn order. What the sets and the world
/// held before stays as it was, and each character keeps a body of its own.
pub fn new_player(
    world: &mut Entities,
    char_count: usize,
    bodies: &mut BodySet,
    colliders: &mut ColliderSet,
    anims: AnimationData,
    pos: &Vec2,
) -> (id: u64)
    requires
        old(world).wf(),
    ensures
        final(world).wf(),
        final(world).order() == old(world).order().push(id),
        each_has_own_body(old(world)@, old(bodies)@.len()) ==> each_has_own_body(
            final(world)@,
            final(bodies)@.len(),
        ),
        final(bodies)@ == old(bodies)@.push(RigidBody::spec_dynamic(*pos, CHARACTER_MASS)),
        final(colliders)@ == old(colliders)@.push(
            character_collider(BodyHandle(old(bodies)@.len() as usize), None),
        ),
        !old(world)@.dom().contains(id),
        final(world)@ == old(world)@.insert(
            id,
            player_actor(char_count, anims@, *pos, BodyHandle(old(bodies)@.len() as usize)),
        ),
{
    let mut camera = Camera::new(VIEW_WIDTH, VIEW_HEIGHT);
    camera.set_position(Vec2 { x: halve(pos.x), y: -halve(pos.y) });
    let handle = bodies.insert(RigidBody::dynamic(*pos, CHARACTER_MASS));
    add_character_collider(colliders, handle, None);
    let draw = Draw {
        draw_type: DrawType::Character,
        y: pos.y,
        tile: None,
        player: Some(
            CharacterDrawData {
                animation_data: anims,
                entity_animation: EntityAnimation { direction: Direction::Down },
                character: Character(0, char_count),
                handle,
                colliding: false,
            },
        ),
    };
    let ghost before = world@;
    let ghost count = old(bodies)@.len();
    let id = world.spawn(Actor { role: Role::Player(Player { camera }), draw });
    proof {
        if each_has_own_body(before, count) {
            lemma_newcomer_has_own_body(before, id, world@[id], count);
        }
    }
    id
}

/// The one direction that the held keys resolve to: that of the key that
/// is checked last among those held, in the order up, down, right, left.
/// `None` where no movement key is held.
pub open spec fn spec_movement_direction(held: KeySet) -> Option<Direction> {
    if held.a {
        Some(Direction::Left)
    } else if held.d {
        Some(Direction::Right)
    } else if held.s {
        Some(Direction::Down)
    } else if held.w {
        Some(Direction::Up)
    } else {
        None
    }
}

/// The one direction that the held keys resolve to, as
/// [`spec_movement_direction`] says.
pub fn movement_direction(held: &KeySet) -> (direction: Option<Direction>)
    ensures
        direction == spec_movement_direction(*held),
{
    if held.a {
        Some(Direction::Left)
    } else if held.d {
        Some(Direction::Right)
    } else if held.s {
        Some(Direction::Down)
    } else if held.w {
        Some(Direction::Up)
    } else {
        None
    }
}

/// The velocity that the held keys give the player: [`PLAYER_SPEED`] along
/// the axis of the direction they resolve to, up being toward smaller `y`.
/// `None` where no movement key is held.
pub open spec fn spec_movement_velocity(held: KeySet) -> Option<Vec2> {
    if held.a {
        Some(Vec2 { x: (-PLAYER_SPEED) as i64, y: 0 })
    } else if held.d {
        Some(Vec2 { x: PLAYER_SPEED, y: 0 })
    } else if held.s {
        Some(Vec2 { x: 0, y: PLAYER_SPEED })
    } else if held.w {
        Some(Vec2 { x: 0, y: (-PLAYER_SPEED) as i64 })
    } else {
        None
    }
}

/// The velocity that the held keys give the player is never diagonal:
/// exactly one of its components is not zero.
pub proof fn lemma_movement_is_never_diagonal(held: KeySet)
    ensures
        spec_movement_velocity(held) matches Some(v) ==> (v.x == 0) != (v.y == 0),
{
}

/// A tick of input gives no body a diagonal velocity: each body either
/// keeps the velocity it had or gets one that runs along one axis.
pub proof fn lemma_player_update_sets_no_diagonal(
    bodies: Seq<RigidBody>,
    world: Map<u64, ActorView>,
    held: KeySet,
    h: int,
)
    requires
        0 <= h < bodies.len(),
    ensures
        ({
            let after = with_player_velocity(bodies, world, spec_movement_velocity(held))[h];
            after == bodies[h] || (after == bodies[h].with_velocity(after.velocity) && (
            after.velocity.x == 0) != (after.velocity.y == 0))
        }),
{
}

/// The velocity that the held keys give the player. It is never diagonal:
/// exactly one of its components is not zero.
pub fn movement_velocity(held: &KeySet) -> (velocity: Option<Vec2>)
    ensures
        velocity == spec_movement_velocity(*held),
        velocity matches Some(v) ==> (v.x == 0) != (v.y == 0),
        velocity is None <==> !(held.w || held.a || held.s || held.d),
{
    if held.a {
        Some(Vec2 { x: -PLAYER_SPEED, y: 0 })
    } else if held.d {
        Some(Vec2 { x: PLAYER_SPEED, y: 0 })
    } else if held.s {
        Some(Vec2 { x: 0, y: PLAYER_SPEED })
    } else if held.w {
        Some(Vec2 { x: 0, y: -PLAYER_SPEED })
    } else {
        None
    }
}

impl CharacterDrawDataView {
    /// The character after it has walked for `dt` facing `direction`: it
    /// faces that way and the clip for that facing has advanced.
    pub open spec fn walked(self, direction: Direction, dt: nat) -> CharacterDrawDataView {
        CharacterDrawDataView {
            entity_animation: EntityAnimation { direction },
            animation_data: self.animation_data.advanced(direction, dt),
            ..self
        }
    }

    /// The character after its skin has followed the bracket keys: back one
    /// where the left one was pressed, then on one where the right one was.
    pub open spec fn reskinned(self, pressed: KeySet) -> CharacterDrawDataView {
        let back = if pressed.left_bracket {
            self.character.previous()
        } else {
            self.character
        };
        let forth = if pressed.right_bracket {
            back.next()
        } else {
            back
        };
        CharacterDrawDataView { character: forth, ..self }
    }

    /// The player's character after one tick of input: its skin follows the
    /// bracket keys that were newly pressed; then, where a movement key is
    /// held, the character turns the one way that the held keys resolve to
    /// and the clip for that facing advances. No other clip moves.
    pub open spec fn after_input(self, keys: KeyBuffer, dt: nat) -> CharacterDrawDataView {
        match spec_movement_direction(keys.held) {
            Some(direction) => self.reskinned(keys.pressed).walked(direction, dt),
            None => self.reskinned(keys.pressed),
        }
    }
}

impl CharacterDrawData {
    /// Lets the character walk for `delta_time` facing `direction`.
    pub fn walk(&mut self, direction: Direction, delta_time: u64)
        ensures
            final(self)@ == old(self)@.walked(direction, delta_time as nat),
    {
        self.entity_animation.direction = direction;
        self.animation_data.advance(direction, delta_time);
    }

    /// Applies one tick of input to the player's character, as
    /// [`CharacterDrawDataView::after_input`] says.
    pub fn apply_input(&mut self, g_ctx: &Graphics)
        ensures
            final(self)@ == old(self)@.after_input(
                g_ctx.spec_keybuffer(),
                g_ctx.spec_delta_time() as nat,
            ),
    {
        let delta_time = g_ctx.get_delta_time();
        let keys = g_ctx.get_keybuffer();
        if keys.pressed.left_bracket {
            self.character.cycle_back();
        }
        if keys.pressed.right_bracket {
            self.character.cycle_forward();
        }
        match movement_direction(&keys.held) {
            Some(direction) => {
                self.walk(direction, delta_time);
            },
            None => {},
        }
    }
}

impl ActorView {
    /// Whether the actor is a player with a character.
    pub open spec fn is_player(self) -> bool {
        self.role is Player && self.draw.player is Some
    }

    /// The actor after one tick of input: a player's character changes as
    /// [`CharacterDrawDataView::after_input`] says; any other actor stays as
    /// it is.
    pub open spec fn after_input(self, keys: KeyBuffer, dt: nat) -> ActorView {
        if self.is_player() {
            ActorView {
                draw: DrawView { player: Some(self.draw.player->0.after_input(keys, dt)), ..self.draw },
                ..self
            }
        } else {
            self
        }
    }
}

/// Whether a player of `world` has body number `h`.
pub open spec fn is_player_body(world: Map<u64, ActorView>, h: int) -> bool {
    exists|id: u64| #[trigger]
        world.dom().contains(id) && world[id].is_player() && world[id].draw.player->0.handle.0
            == h
}

/// Whether one of the first `n` of `ids` is a player of `world` with body
/// number `h`.
spec fn is_player_body_among(world: Map<u64, ActorView>, ids: Seq<u64>, n: int, h: int) -> bool {
    exists|k: int|
        0 <= k < n && world[#[trigger] ids[k]].is_player() && world[ids[k]].draw.player->0.handle.0
            == h
}

/// The bodies after the players of `world` got `velocity`: each body of a
/// player has it, every other body is as it was. Without a velocity no body
/// changes.
pub open spec fn with_player_velocity(
    bodies: Seq<RigidBody>,
    world: Map<u64, ActorView>,
    velocity: Option<Vec2>,
) -> Seq<RigidBody> {
    Seq::new(
        bodies.len(),
        |h: int|
            if velocity is Some && is_player_body(world, h) {
                bodies[h].with_velocity(velocity->0)
            } else {
                bodies[h]
            },
    )
}

/// Gives the body of every player of `world` the velocity `velocity`. Every
/// other body stays as it was, and no body is moved.
pub fn give_players_velocity(body_set: &mut BodySet, world: &Entities, velocity: Vec2)
    requires
        world.wf(),
    ensures
        final(body_set)@ == with_player_velocity(old(body_set)@, world@, Some(velocity)),
{
    let ghost bodies0 = body_set@;
    let ids = world.ids();
    let mut i: usize = 0;
    while i < ids.len()
        invariant
            i <= ids.len(),
            world.wf(),
            forall|id: u64| ids@.contains(id) <==> world@.dom().contains(id),
            body_set@.len() == bodies0.len(),
            forall|h: int|
                0 <= h < bodies0.len() ==> #[trigger] body_set@[h] == (if is_player_body_among(
                    world@,
                    ids@,
                    i as int,
                    h,
                ) {
                    bodies0[h].with_velocity(velocity)
                } else {
                    bodies0[h]
                }),
        decreases ids.len() - i,
    {
        let id = ids[i];
        assert(ids@.contains(ids@[i as int]));
        let ghost mut moved: Option<int> = None;
        match world.get(id) {
            Some(actor) => match (actor.role, &actor.draw.player) {
                (Role::Player(_), Some(data)) => {
                    body_set.set_linear_velocity(data.handle, velocity);
                    proof {
                        moved = Some(data.handle.0 as int);
                    }
                },
                _ => {},
            },
            None => {},
        }
        proof {
            assert(moved is Some <==> world@[ids@[i as int]].is_player());
            assert(moved is Some ==> world@[ids@[i as int]].draw.player->0.handle.0 == moved->0);
            assert forall|h: int| 0 <= h < bodies0.len() implies #[trigger] body_set@[h] == (
            if is_player_body_among(world@, ids@, i + 1, h) {
                bodies0[h].with_velocity(velocity)
            } else {
                bodies0[h]
            }) by {
                let was = is_player_body_among(world@, ids@, i as int, h);
                let now = is_player_body_among(world@, ids@, i + 1, h);
                if was {
                    let k = choose|k: int|
                        0 <= k < i && world@[#[trigger] ids@[k]].is_player()
                            && world@[ids@[k]].draw.player->0.handle.0 == h;
                    assert(0 <= k < i + 1 && world@[ids@[k]].is_player());
                    assert(now);
                }
                if moved == Some(h) {
                    assert(world@[ids@[i as int]].is_player());
                    assert(now);
                }
                if now && !was {
                    let k = choose|k: int|
                        0 <= k < i + 1 && world@[#[trigger] ids@[k]].is_player()
                            && world@[ids@[k]].draw.player->0.handle.0 == h;
                    assert(k == i);
                    assert(moved == Some(h));
                }
            }
        }
        i += 1;
    }
    proof {
        assert forall|h: int| 0 <= h < bodies0.len() implies is_player_body(world@, h)
            == is_player_body_among(world@, ids@, ids@.len() as int, h) by {
            if is_player_body(world@, h) {
                let id = choose|id: u64| #[trigger]
                    world@.dom().contains(id) && world@[id].is_player()
                        && world@[id].draw.player->0.handle.0 == h;
                assert(ids@.contains(id));
                let k = choose|k: int| 0 <= k < ids@.len() && ids@[k] == id;
                assert(world@[ids@[k]].is_player());
            }
            if is_player_body_among(world@, ids@, ids@.len() as int, h) {
                let k = choose|k: int|
                    0 <= k < ids@.len() && world@[#[trigger] ids@[k]].is_player()
                        && world@[ids@[k]].draw.player->0.handle.0 == h;
                assert(ids@.contains(ids@[k]));
                assert(world@.dom().contains(ids@[k]));
            }
        }
        assert(body_set@ =~= with_player_velocity(bodies0, world@, Some(velocity)));
    }
}

/// Two worlds with the same entities, of which the same are players with
/// the same bodies, have the same player bodies.
pub proof fn lemma_same_player_bodies(before: Map<u64, ActorView>, after: Map<u64, ActorView>)
    requires
        after.dom() == before.dom(),
        forall|id: u64| #[trigger]
            before.dom().contains(id) ==> after[id].is_player() == before[id].is_player() && (
            before[id].is_player() ==> after[id].draw.player->0.handle
                == before[id].draw.player->0.handle),
    ensures
        forall|h: int| is_player_body(after, h) == is_player_body(before, h),
        forall|bodies: Seq<RigidBody>, velocity: Option<Vec2>|
            #[trigger] with_player_velocity(bodies, after, velocity) == with_player_velocity(
                bodies,
                before,
                velocity,
            ),
{
    assert forall|h: int| is_player_body(after, h) == is_player_body(before, h) by {
        if is_player_body(before, h) {
            let id = choose|id: u64| #[trigger]
                before.dom().contains(id) && before[id].is_player()
                    && before[id].draw.player->0.handle.0 == h;
            assert(after.dom().contains(id) && after[id].is_player());
        }
        if is_player_body(after, h) {
            let id = choose|id: u64| #[trigger]
                after.dom().contains(id) && after[id].is_player()
                    && after[id].draw.player->0.handle.0 == h;
            assert(before.dom().contains(id) && before[id].is_player());
        }
    }
    assert forall|bodies: Seq<RigidBody>, velocity: Option<Vec2>|
        #[trigger] with_player_velocity(bodies, after, velocity) == with_player_velocity(
            bodies,
            before,
            velocity,
        ) by {
        assert(with_player_velocity(bodies, after, velocity) =~= with_player_velocity(
            bodies,
            before,
            velocity,
        ));
    }
}

/// Applies one tick of input to every player.
///
/// Each player's skin, facing and clips change as
/// [`CharacterDrawDataView::after_input`] says: only the clip of the one
/// direction that the held keys resolve to advances. Where a movement key is
/// held, each player's body gets the velocity of
/// [`spec_movement_velocity`], which runs along that direction's axis;
/// where none is held no velocity is touched. Other entities and other
/// bodies stay as they were, no body is moved, and the spawn order and each
/// character's own body stay.
pub fn player_update(body_set: &mut BodySet, world: &mut Entities, g_ctx: &Graphics)
    requires
        old(world).wf(),
    ensures
        final(world).wf(),
        final(world).order() == old(world).order(),
        final(world)@.dom() == old(world)@.dom(),
        forall|id: u64| #[trigger]
            final(world)@.dom().contains(id) ==> final(world)@[id] == old(world)@[id].after_input(
                g_ctx.spec_keybuffer(),
                g_ctx.spec_delta_time() as nat,
            ),
        final(body_set)@ == with_player_velocity(
            old(body_set)@,
            old(world)@,
            spec_movement_velocity(g_ctx.spec_keybuffer().held),
        ),
        forall|n: nat| #[trigger]
            each_has_own_body(old(world)@, n) ==> each_has_own_body(final(world)@, n),
{
    let ghost world0 = world@;
    let ghost bodies0 = body_set@;
    let ghost keys = g_ctx.spec_keybuffer();
    let ghost dt = g_ctx.spec_delta_time() as nat;
    let ghost change = |actor: ActorView| actor.after_input(keys, dt);
    let ids = world.ids();
    let mut i: usize = 0;
    while i < ids.len()
        invariant
            i <= ids.len(),
            world.wf(),
            world.order() == ids@,
            ids@.no_duplicates(),
            forall|id: u64| ids@.contains(id) <==> world0.dom().contains(id),
            keys == g_ctx.spec_keybuffer(),
            dt == g_ctx.spec_delta_time() as nat,
            change == |actor: ActorView| actor.after_input(keys, dt),
            is_swept(world0, world@, ids@, i as int, change),
        decreases ids.len() - i,
    {
        let id = ids[i];
        let ghost last = world@;
        assert(ids@.contains(ids@[i as int]));
        match world.get(id) {
            Some(actor) => {
                let Actor { role, draw } = actor;
                let Draw { y, draw_type, player, tile } = draw;
                match (role, player) {
                    (Role::Player(p), Some(data)) => {
                        let mut data = data;
                        data.apply_input(g_ctx);
                        world.set(
                            id,
                            Actor {
                                role: Role::Player(p),
                                draw: Draw { y, draw_type, player: Some(data), tile },
                            },
                        );
                    },
                    _ => {},
                }
            },
            None => {},
        }
        proof {
            lemma_sweep_step(world0, last, world@, ids@, i as int, change);
        }
        i += 1;
    }
    proof {
        lemma_sweep_done(world0, world@, ids@, change);
        assert forall|n: nat| #[trigger] each_has_own_body(world0, n) implies each_has_own_body(
            world@,
            n,
        ) by {
            lemma_keeps_own_bodies(world0, world@, n);
        }
    }
    match movement_velocity(&g_ctx.get_keybuffer().held) {
        Some(velocity) => {
            give_players_velocity(body_set, world, velocity);
            proof {
                lemma_same_player_bodies(world0, world@);
            }
        },
        None => {},
    }
}

} // verus!
