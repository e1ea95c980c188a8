//! NPCs: how they are made, how they decide and how they move.

use vstd::prelude::*;
use crate::animation::{AnimationData, AnimationDataView, Direction, EntityAnimation};
use crate::components::{
    each_has_own_body, in_range, lemma_keeps_own_bodies, lemma_newcomer_has_own_body, Actor, ActorView, Character, CharacterDrawData, CharacterDrawDataView, Draw,
    DrawType, DrawView, NPCState, Role, SpawnBounds, CHARACTER_MASS, NPC, NPC_MOVES, NPC_STATES,
    WANDER_HIT, WANDER_ODDS,
};
use crate::geometry::Vec2;
use crate::physics::{BodyHandle, BodySet, Collider, ColliderSet, Material, RigidBody};
use crate::player::{add_character_collider, character_collider};
use crate::random::random_range;
use crate::store::{is_swept, lemma_spawned, lemma_sweep_done, lemma_sweep_step, Entities};

verus! {

/// Bounce of an NPC's collider, in thousandths: none.
pub const NPC_RESTITUTION: u32 = 0;

/// Friction of an NPC's collider, in thousandths: full.
pub const NPC_FRICTION: u32 = 1000;

/// Surface of an NPC's collider.
pub open spec fn npc_material() -> Material {
    Material { restitution: NPC_RESTITUTION, friction: NPC_FRICTION }
}

/// Two bodies that began or ceased to touch.
#[derive(Clone, Copy, PartialEq, Eq, Structural, Debug)]
pub enum ContactEvent {
    Started(BodyHandle, BodyHandle),
    Stopped(BodyHandle, BodyHandle),
}

impl NPCState {
    /// What an NPC in this state does next. One that has touched another
    /// body walks off as [`NPCState::spec_move_from_roll`] of `pick_roll`
    /// says. One that has not changes to [`NPCState::spec_from_roll`] of
    /// `pick_roll` where `wander_roll` is [`WANDER_HIT`], and goes on as it
    /// is on any other roll.
    pub open spec fn spec_decide(self, colliding: bool, wander_roll: u64, pick_roll: u64) -> NPCState {
        if colliding {
            Self::spec_move_from_roll(pick_roll)
        } else if wander_roll == WANDER_HIT {
            Self::spec_from_roll(pick_roll)
        } else {
            self
        }
    }

    /// What an NPC in this state does next, as [`NPCState::spec_decide`]
    /// says. One that has touched another body never stands.
    pub fn decide(self, colliding: bool, wander_roll: u64, pick_roll: u64) -> (next: NPCState)
        ensures
            next == self.spec_decide(colliding, wander_roll, pick_roll),
            colliding ==> next.is_directional(),
    {
        if colliding {
            NPCState::move_from_roll(pick_roll)
        } else if wander_roll == WANDER_HIT {
            NPCState::from_roll(pick_roll)
        } else {
            self
        }
    }
}

impl CharacterDrawDataView {
    /// An NPC's character after a tick in state `next`: the touch is
    /// forgotten; one that walks faces its way and the clip for that facing
    /// has advanced by `dt`; one that stands keeps its facing and its clips.
    pub open spec fn npc_moved(self, next: NPCState, dt: nat) -> CharacterDrawDataView {
        let calm = CharacterDrawDataView { colliding: false, ..self };
        match next.spec_direction() {
            Some(direction) => calm.walked(direction, dt),
            None => calm,
        }
    }
}

impl CharacterDrawData {
    /// Lets an NPC's character live through a tick in state `next`, as
    /// [`CharacterDrawDataView::npc_moved`] says.
    pub fn npc_move(&mut self, next: NPCState, delta_time: u64)
        ensures
            final(self)@ == old(self)@.npc_moved(next, delta_time as nat),
    {
        self.colliding = false;
        match next.direction() {
            Some(direction) => {
                self.walk(direction, delta_time);
            },
            None => {},
        }
    }
}

/// What happens to an NPC.
pub enum NpcEvent {
    /// A tick of `dt` in which it decided on `next`.
    Decided { next: NPCState, dt: nat },
    /// Its body touched another.
    Touched,
}

impl ActorView {
    /// Whether the actor is an NPC with a character.
    pub open spec fn is_npc(self) -> bool {
        self.role is NPC && self.draw.player is Some
    }

    /// The state of an NPC.
    pub open spec fn npc_state(self) -> NPCState {
        self.role->NPC_0.state
    }

    /// The number of the body of an actor with a character.
    pub open spec fn body(self) -> int {
        self.draw.player->0.handle.0 as int
    }

    /// An NPC after a tick in state `next`: it is in that state and its
    /// character has moved. Any other actor stays as it is.
    pub open spec fn npc_stepped(self, next: NPCState, dt: nat) -> ActorView {
        if self.is_npc() {
            ActorView {
                role: Role::NPC(NPC { state: next }),
                draw: DrawView { player: Some(self.draw.player->0.npc_moved(next, dt)), ..self.draw },
            }
        } else {
            self
        }
    }

    /// Whether `after` is what a tick of `dt` can make of this actor: an
    /// NPC is in some state, a walking one if it had touched another body,
    /// and has lived through the tick in that state; any other actor is
    /// unchanged.
    pub open spec fn npc_tick_gives(self, after: ActorView, dt: nat) -> bool {
        if self.is_npc() {
            &&& after.is_npc()
            &&& self.draw.player->0.colliding ==> after.npc_state().is_directional()
            &&& after == self.npc_stepped(after.npc_state(), dt)
        } else {
            after == self
        }
    }

    /// An NPC after one of its two bodies `first` and `second` began to
    /// touch the other: it is marked as having touched. Any other actor, and
    /// an NPC with another body, stays as it is.
    pub open spec fn touched(self, first: BodyHandle, second: BodyHandle) -> ActorView {
        if self.is_npc() && (self.draw.player->0.handle == first || self.draw.player->0.handle
            == second) {
            ActorView {
                draw: DrawView {
                    player: Some(CharacterDrawDataView { colliding: true, ..self.draw.player->0 }),
                    ..self.draw
                },
                ..self
            }
        } else {
            self
        }
    }

    /// What a contact event makes of the actor: a contact that starts
    /// marks the NPCs it concerns, one that stops changes nothing.
    pub open spec fn after_contact(self, event: ContactEvent) -> ActorView {
        match event {
            ContactEvent::Started(first, second) => self.touched(first, second),
            ContactEvent::Stopped(_, _) => self,
        }
    }

    /// Whether an NPC that walks faces the way it walks. It holds of every
    /// actor that is no NPC and of every NPC that stands.
    pub open spec fn faces_its_way(self) -> bool {
        self.is_npc() ==> match self.npc_state().spec_direction() {
            Some(direction) => self.draw.player->0.entity_animation.direction == direction,
            None => true,
        }
    }

    /// The actor after one event.
    pub open spec fn npc_after(self, event: NpcEvent) -> ActorView {
        match event {
            NpcEvent::Decided { next, dt } => self.npc_stepped(next, dt),
            NpcEvent::Touched => self.touched(self.draw.player->0.handle, self.draw.player->0.handle),
        }
    }

    /// The actor after a run of events.
    pub open spec fn npc_after_all(self, events: Seq<NpcEvent>) -> ActorView
        decreases events.len(),
    {
        if events.len() == 0 {
            self
        } else {
            self.npc_after_all(events.drop_last()).npc_after(events.last())
        }
    }
}

/// An NPC as it is spawned at `pos` with body `handle` and skin `skin` of
/// `char_count + 1`: standing, facing down.
pub open spec fn npc_actor(
    char_count: usize,
    skin: usize,
    anims: AnimationDataView,
    pos: Vec2,
    handle: BodyHandle,
) -> ActorView {
    ActorView {
        role: Role::NPC(NPC { state: NPCState::Idle }),
        draw: DrawView {
            y: pos.y,
            draw_type: DrawType::NPC,
            player: Some(
                CharacterDrawDataView {
                    entity_animation: EntityAnimation { direction: Direction::Down },
                    handle,
                    animation_data: anims,
                    character: Character(skin, char_count),
                    colliding: false,
                },
            ),
            tile: None,
        },
    }
}

/// An NPC faces the way it walks after every tick, whatever it was before
/// and whatever it decided.
pub proof fn lemma_step_faces_its_way(actor: ActorView, next: NPCState, dt: nat)
    ensures
        actor.npc_stepped(next, dt).faces_its_way() || !actor.is_npc(),
        actor.faces_its_way() ==> actor.npc_stepped(next, dt).faces_its_way(),
{
}

/// State and facing agree in every state an NPC can reach: an NPC that
/// faces the way it walks, as a newly spawned one does, still does so after
/// any run of decisions and contacts.
pub proof fn lemma_npc_always_faces_its_way(actor: ActorView, events: Seq<NpcEvent>)
    requires
        actor.faces_its_way(),
    ensures
        actor.npc_after_all(events).faces_its_way(),
    decreases events.len(),
{
    if events.len() > 0 {
        lemma_npc_always_faces_its_way(actor, events.drop_last());
        let before = actor.npc_after_all(events.drop_last());
        match events.last() {
            NpcEvent::Decided { next, dt } => {
                lemma_step_faces_its_way(before, next, dt);
            },
            NpcEvent::Touched => {},
        }
    }
}

/// A newly spawned NPC faces the way it walks: it stands.
pub proof fn lemma_spawned_npc_faces_its_way(
    char_count: usize,
    skin: usize,
    anims: AnimationDataView,
    pos: Vec2,
    handle: BodyHandle,
)
    ensures
        npc_actor(char_count, skin, anims, pos, handle).faces_its_way(),
{
}

/// A number drawn from `[low, high)`; `low` where that range is empty.
pub fn random_between(low: i64, high: i64) -> (v: i64)
    ensures
        in_range(low, high, v),
{
    let roll: u64 = if low < high {
        let width: u64 = (high as i128 - low as i128) as u64;
        random_range(0, width)
    } else {
        0
    };
    between_from_roll(low, high, roll)
}

/// A skin drawn from the `char_count + 1` there are.
pub fn random_skin(char_count: usize) -> (skin: usize)
    ensures
        skin <= char_count,
{
    let top: u64 = char_count as u64;
    let high: u64 = if top < u64::MAX {
        top + 1
    } else {
        top
    };
    random_range(0, high) as usize
}

/// The number at place `roll` of `[low, high)`, counted from `low`; `low`
/// itself where the range is empty or has no such place.
pub open spec fn spec_between_from_roll(low: i64, high: i64, roll: u64) -> i64 {
    if low < high && roll < high - low {
        (low + roll) as i64
    } else {
        low
    }
}

/// The number at place `roll` of `[low, high)`, as
/// [`spec_between_from_roll`] says. It lies in the range, or is `low` where
/// the range is empty.
pub fn between_from_roll(low: i64, high: i64, roll: u64) -> (v: i64)
    ensures
        v == spec_between_from_roll(low, high, roll),
        in_range(low, high, v),
{
    if low < high && (roll as i128) < high as i128 - low as i128 {
        (low as i128 + roll as i128) as i64
    } else {
        low
    }
}

/// Whether `actor` with `body` behind `handle` is an NPC as [`spawn_npcs`]
/// makes it: a dynamic body at rest at a place the bounds allow, and the
/// NPC of [`npc_actor`] there with one of the skins.
pub open spec fn is_spawned_npc(
    actor: ActorView,
    body: RigidBody,
    handle: BodyHandle,
    char_count: usize,
    anims: AnimationDataView,
    bounds: SpawnBounds,
) -> bool {
    &&& bounds.allows(body.position)
    &&& body == RigidBody::spec_dynamic(body.position, CHARACTER_MASS)
    &&& actor.is_npc()
    &&& actor.draw.player->0.character.0 <= char_count
    &&& actor == npc_actor(
        char_count,
        actor.draw.player->0.character.0,
        anims,
        body.position,
        handle,
    )
}

/// The colliders of `n` NPCs whose bodies are `first`, `first + 1` and so
/// on.
pub open spec fn npc_colliders(first: int, n: nat) -> Seq<Collider> {
    Seq::new(
        n,
        |k: int| character_collider(BodyHandle((first + k) as usize), Some(npc_material())),
    )
}

/// Spawns `count` NPCs at random places within `bounds`, and returns their
/// ids in the order they were made, which is their spawn order.
///
/// Each NPC gets a dynamic body without gravity at its place, a collider
/// with the material of [`npc_material`], a copy of `anims`, one of the
/// `char_count + 1` skins at random, and stands facing down. The new bodies
/// and colliders are appended to their sets; what the sets and the world
/// held before stays as it was, and each character keeps a body of its own.
pub fn spawn_npcs(
    count: u32,
    colliders: &mut ColliderSet,
    bodies: &mut BodySet,
    world: &mut Entities,
    char_count: usize,
    anims: AnimationData,
    bounds: &SpawnBounds,
) -> (ids: Vec<u64>)
    requires
        old(world).wf(),
    ensures
        final(world).wf(),
        final(world).order() == old(world).order() + ids@,
        ids@.len() == count,
        ids@.no_duplicates(),
        forall|id: u64|
            final(world)@.dom().contains(id) <==> old(world)@.dom().contains(id) || ids@.contains(id),
        forall|id: u64| #[trigger]
            old(world)@.dom().contains(id) ==> !ids@.contains(id) && final(world)@[id] == old(
                world,
            )@[id],
        final(bodies)@.len() == old(bodies)@.len() + count,
        forall|h: int| 0 <= h < old(bodies)@.len() ==> final(bodies)@[h] == old(bodies)@[h],
        final(colliders)@ == old(colliders)@ + npc_colliders(
            old(bodies)@.len() as int,
            count as nat,
        ),
        forall|k: int|
            0 <= k < count ==> is_spawned_npc(
                final(world)@[#[trigger] ids@[k]],
                final(bodies)@[old(bodies)@.len() + k],
                BodyHandle((old(bodies)@.len() + k) as usize),
                char_count,
                anims@,
                *bounds,
            ),
        each_has_own_body(old(world)@, old(bodies)@.len()) ==> each_has_own_body(
            final(world)@,
            final(bodies)@.len(),
        ),
{
    let ghost start = *world;
    let ghost bodies0 = bodies@;
    let ghost colliders0 = colliders@;
    let mut ids: Vec<u64> = Vec::new();
    let mut n: u32 = 0;
    assert(world.order() =~= start.order() + ids@);
    while n < count
        invariant
            n <= count,
            ids@.len() == n,
            start.wf(),
            world.wf(),
            world.order() == start.order() + ids@,
            forall|id: u64| #[trigger] start@.dom().contains(id) ==> world@[id] == start@[id],
            bodies@.len() == bodies0.len() + n,
            forall|h: int| 0 <= h < bodies0.len() ==> bodies@[h] == bodies0[h],
            colliders@ == colliders0 + npc_colliders(bodies0.len() as int, n as nat),
            forall|k: int|
                0 <= k < n ==> is_spawned_npc(
                    world@[#[trigger] ids@[k]],
                    bodies@[bodies0.len() + k],
                    BodyHandle((bodies0.len() + k) as usize),
                    char_count,
                    anims@,
                    *bounds,
                ),
            each_has_own_body(start@, bodies0.len()) ==> each_has_own_body(world@, bodies@.len()),
        decreases count - n,
    {
        let pos = Vec2 {
            x: random_between(bounds.x.0, bounds.x.1),
            y: random_between(bounds.y.0, bounds.y.1),
        };
        let ghost last = *world;
        let ghost made = ids@;
        let ghost bodies_before = bodies@.len();
        let handle = bodies.insert(RigidBody::dynamic(pos, CHARACTER_MASS));
        add_character_collider(
            colliders,
            handle,
            Some(Material { restitution: NPC_RESTITUTION, friction: NPC_FRICTION }),
        );
        let skin = random_skin(char_count);
        let draw = Draw {
            draw_type: DrawType::NPC,
            y: pos.y,
            tile: None,
            player: Some(
                CharacterDrawData {
                    animation_data: anims.clone(),
                    entity_animation: EntityAnimation { direction: Direction::Down },
                    character: Character(skin, char_count),
                    handle,
                    colliding: false,
                },
            ),
        };
        let id = world.spawn(Actor { role: Role::NPC(NPC { state: NPCState::Idle }), draw });
        ids.push(id);
        proof {
            lemma_spawned(start, last, made);
            assert(world.order() =~= start.order() + ids@);
            assert(colliders@ =~= colliders0 + npc_colliders(bodies0.len() as int, (n + 1) as nat));
            assert forall|k: int| 0 <= k < n implies world@[#[trigger] ids@[k]] == last@[made[k]] by {
                assert(made.contains(made[k]));
            }
            if each_has_own_body(start@, bodies0.len()) {
                lemma_newcomer_has_own_body(last@, id, world@[id], bodies_before);
            }
        }
        n += 1;
    }
    proof {
        lemma_spawned(start, *world, ids@);
    }
    ids
}

/// Whether one of the first `n` of `ids` is an NPC of `world` with body
/// number `h` whose velocity `body` has, as `base` otherwise was.
spec fn npc_set_body(
    world: Map<u64, ActorView>,
    ids: Seq<u64>,
    n: int,
    h: int,
    base: RigidBody,
    body: RigidBody,
) -> bool {
    exists|k: int|
        0 <= k < n && world[#[trigger] ids[k]].is_npc() && world[ids[k]].body() == h && body
            == base.with_velocity(world[ids[k]].npc_state().spec_velocity())
}

/// Whether one of the first `n` of `ids` is an NPC of `world` with body
/// number `h`.
spec fn is_npc_body_among(world: Map<u64, ActorView>, ids: Seq<u64>, n: int, h: int) -> bool {
    exists|k: int| 0 <= k < n && world[#[trigger] ids[k]].is_npc() && world[ids[k]].body() == h
}

/// Whether an NPC of `world` has body number `h`.
pub open spec fn is_npc_body(world: Map<u64, ActorView>, h: int) -> bool {
    exists|id: u64| #[trigger] world.dom().contains(id) && world[id].is_npc() && world[id].body() == h
}

/// Whether `body` is `base` with the velocity that the state of an NPC of
/// `world` with body number `h` asks for.
pub open spec fn has_npc_velocity(
    world: Map<u64, ActorView>,
    h: int,
    base: RigidBody,
    body: RigidBody,
) -> bool {
    exists|id: u64| #[trigger]
        world.dom().contains(id) && world[id].is_npc() && world[id].body() == h && body
            == base.with_velocity(world[id].npc_state().spec_velocity())
}

/// Lets every NPC live through one tick of `delta_time`.
///
/// An NPC that has touched another body since its last tick walks off in
/// one of the four directions, drawn at random. Any other NPC changes its
/// state on one tick in [`WANDER_ODDS`] to one of the five states, drawn at
/// random, and else goes on as it is. In its state the NPC lives through the
/// tick as [`ActorView::npc_stepped`] says, and its body gets the velocity
/// of the state, which is zero where it stands. Where several NPCs share a
/// body, the body has the velocity of one of them. Actors that are no NPCs,
/// and bodies that are not an NPC's, stay as they were; no body is moved.
pub fn npc_update(body_set: &mut BodySet, world: &mut Entities, delta_time: u64)
    requires
        old(world).wf(),
    ensures
        final(world).wf(),
        final(world).order() == old(world).order(),
        final(world)@.dom() == old(world)@.dom(),
        forall|id: u64| #[trigger]
            final(world)@.dom().contains(id) ==> old(world)@[id].npc_tick_gives(
                final(world)@[id],
                delta_time as nat,
            ),
        final(body_set)@.len() == old(body_set)@.len(),
        forall|h: int|
            0 <= h < old(body_set)@.len() ==> if is_npc_body(final(world)@, h) {
                has_npc_velocity(final(world)@, h, old(body_set)@[h], #[trigger] final(body_set)@[h])
            } else {
                final(body_set)@[h] == old(body_set)@[h]
            },
        forall|n: nat| #[trigger]
            each_has_own_body(old(world)@, n) ==> each_has_own_body(final(world)@, n),
        each_has_own_body(old(world)@, old(body_set)@.len()) ==> forall|id: u64| #[trigger]
            final(world)@.dom().contains(id) && final(world)@[id].is_npc() ==> has_own_velocity(
                final(world)@[id],
                old(body_set)@,
                final(body_set)@,
            ),
{
    let ghost world0 = world@;
    let ghost bodies0 = body_set@;
    let ghost dt = delta_time as nat;
    let ids = world.ids();
    let mut i: usize = 0;
    while i < ids.len()
        invariant
            i <= ids.len(),
            world.wf(),
            world.order() == ids@,
            ids@.no_duplicates(),
            forall|id: u64| ids@.contains(id) <==> world0.dom().contains(id),
            dt == delta_time as nat,
            world@.dom() == world0.dom(),
            forall|k: int|
                0 <= k < i ==> world0[#[trigger] ids@[k]].npc_tick_gives(world@[ids@[k]], dt),
            forall|k: int| i <= k < ids@.len() ==> world@[#[trigger] ids@[k]] == world0[ids@[k]],
            body_set@.len() == bodies0.len(),
            forall|h: int|
                0 <= h < bodies0.len() ==> if is_npc_body_among(world@, ids@, i as int, h) {
                    npc_set_body(world@, ids@, i as int, h, bodies0[h], #[trigger] body_set@[h])
                } else {
                    body_set@[h] == bodies0[h]
                },
        decreases ids.len() - i,
    {
        let id = ids[i];
        assert(ids@.contains(ids@[i as int]));
        let ghost before = world@;
        let ghost bodies_before = body_set@;
        let ghost mut moved: Option<int> = None;
        match world.get(id) {
            Some(actor) => {
                let Actor { role, draw } = actor;
                let Draw { y, draw_type, player, tile } = draw;
                match (role, player) {
                    (Role::NPC(npc), Some(data)) => {
                        let mut data = data;
                        let handle = data.handle;
                        let (wander, pick) = if data.colliding {
                            (0, random_range(0, NPC_MOVES))
                        } else {
                            let wander: u64 = random_range(0, WANDER_ODDS);
                            if wander == WANDER_HIT {
                                (wander, random_range(0, NPC_STATES))
                            } else {
                                (wander, 0)
                            }
                        };
                        let next = npc.state.decide(data.colliding, wander, pick);
                        data.npc_move(next, delta_time);
                        let updated = Actor {
                            role: Role::NPC(NPC { state: next }),
                            draw: Draw { y, draw_type, player: Some(data), tile },
                        };
                        assert(updated@ == world0[id].npc_stepped(next, dt));
                        world.set(id, updated);
                        body_set.set_linear_velocity(handle, next.velocity());
                        proof {
                            moved = Some(handle.0 as int);
                        }
                    },
                    _ => {
                        assert(!world0[id].is_npc());
                    },
                }
            },
            None => {},
        }
        proof {
            assert(world@.dom() =~= world0.dom());
            assert forall|k: int| 0 <= k < ids@.len() && k != i implies world@[#[trigger] ids@[k]]
                == before[ids@[k]] by {
                assert(ids@[k] != ids@[i as int]);
            }
            assert(moved is Some <==> world@[ids@[i as int]].is_npc());
            assert(moved is Some ==> world@[ids@[i as int]].body() == moved->0);
            assert forall|h: int| 0 <= h < bodies0.len() implies if is_npc_body_among(
                world@,
                ids@,
                i + 1,
                h,
            ) {
                npc_set_body(world@, ids@, i + 1, h, bodies0[h], #[trigger] body_set@[h])
            } else {
                body_set@[h] == bodies0[h]
            } by {
                let was = is_npc_body_among(before, ids@, i as int, h);
                let now = is_npc_body_among(world@, ids@, i + 1, h);
                if moved == Some(h) {
                    assert(world@[ids@[i as int]].is_npc());
                    assert(now);
                    assert(npc_set_body(world@, ids@, i + 1, h, bodies0[h], body_set@[h]));
                } else {
                    assert(body_set@[h] == bodies_before[h]);
                    if was {
                        let k = choose|k: int|
                            0 <= k < i && before[#[trigger] ids@[k]].is_npc() && before[ids@[k]].body()
                                == h && bodies_before[h] == bodies0[h].with_velocity(
                                before[ids@[k]].npc_state().spec_velocity(),
                            );
                        assert(world@[ids@[k]] == before[ids@[k]]);
                        assert(now);
                        assert(npc_set_body(world@, ids@, i + 1, h, bodies0[h], body_set@[h]));
                    } else {
                        if now {
                            let k = choose|k: int|
                                0 <= k < i + 1 && world@[#[trigger] ids@[k]].is_npc()
                                    && world@[ids@[k]].body() == h;
                            if k < i {
                                assert(world@[ids@[k]] == before[ids@[k]]);
                                assert(was);
                            }
                        }
                    }
                }
            }
        }
        i += 1;
    }
    proof {
        assert forall|id: u64| #[trigger] world@.dom().contains(id) implies world0[id].npc_tick_gives(
            world@[id],
            dt,
        ) by {
            assert(ids@.contains(id));
            let k = choose|k: int| 0 <= k < ids@.len() && ids@[k] == id;
            assert(world0[ids@[k]].npc_tick_gives(world@[ids@[k]], dt));
        }
        assert forall|h: int| 0 <= h < bodies0.len() implies if is_npc_body(world@, h) {
            has_npc_velocity(world@, h, bodies0[h], #[trigger] body_set@[h])
        } else {
            body_set@[h] == bodies0[h]
        } by {
            let n = ids@.len() as int;
            if is_npc_body_among(world@, ids@, n, h) {
                let k = choose|k: int|
                    0 <= k < n && world@[#[trigger] ids@[k]].is_npc() && world@[ids@[k]].body() == h
                        && body_set@[h] == bodies0[h].with_velocity(
                        world@[ids@[k]].npc_state().spec_velocity(),
                    );
                assert(ids@.contains(ids@[k]));
                assert(world@.dom().contains(ids@[k]));
            } else if is_npc_body(world@, h) {
                let id = choose|id: u64| #[trigger]
                    world@.dom().contains(id) && world@[id].is_npc() && world@[id].body() == h;
                assert(ids@.contains(id));
                let k = choose|k: int| 0 <= k < ids@.len() && ids@[k] == id;
                assert(world@[ids@[k]].is_npc());
            }
        }
        assert forall|n: nat| #[trigger] each_has_own_body(world0, n) implies each_has_own_body(
            world@,
            n,
        ) by {
            lemma_keeps_own_bodies(world0, world@, n);
        }
        if each_has_own_body(world0, bodies0.len()) {
            assert forall|id: u64| #[trigger]
                world@.dom().contains(id) && world@[id].is_npc() implies has_own_velocity(
                world@[id],
                bodies0,
                body_set@,
            ) by {
                lemma_own_velocity(world@, bodies0, body_set@, id);
            }
        }
    }
}

/// Whether the body of the NPC `actor` is in the set and is what it was in
/// `before` but for its velocity, which is that of the NPC's state.
pub open spec fn has_own_velocity(actor: ActorView, before: Seq<RigidBody>, after: Seq<RigidBody>) -> bool {
    &&& 0 <= actor.body() < before.len()
    &&& after[actor.body()] == before[actor.body()].with_velocity(
        actor.npc_state().spec_velocity(),
    )
}

/// Where each character has a body of its own, the body of an NPC has
/// the velocity of that NPC's state once every body of an NPC has the
/// velocity of some NPC that holds it.
proof fn lemma_own_velocity(
    world: Map<u64, ActorView>,
    before: Seq<RigidBody>,
    after: Seq<RigidBody>,
    id: u64,
)
    requires
        each_has_own_body(world, before.len()),
        world.dom().contains(id),
        world[id].is_npc(),
        0 <= world[id].body() < before.len() ==> has_npc_velocity(
            world,
            world[id].body(),
            before[world[id].body()],
            after[world[id].body()],
        ),
    ensures
        has_own_velocity(world[id], before, after),
{
    let h = world[id].body();
    assert(world[id].has_character());
    let other = choose|other: u64| #[trigger]
        world.dom().contains(other) && world[other].is_npc() && world[other].body() == h
            && after[h] == before[h].with_velocity(world[other].npc_state().spec_velocity());
    if other != id {
        assert(world[other].has_character());
        assert(world[other].handle() == world[id].handle());
    }
}

/// A touched NPC walks off: after its next tick it is in a walking state,
/// the touch is forgotten, and the velocity of its state runs along one
/// axis and is not zero.
pub proof fn lemma_touched_npc_walks_off(before: ActorView, after: ActorView, dt: nat)
    requires
        before.is_npc(),
        before.draw.player->0.colliding,
        before.npc_tick_gives(after, dt),
    ensures
        after.npc_state().is_directional(),
        !after.draw.player->0.colliding,
        (after.npc_state().spec_velocity().x == 0) != (after.npc_state().spec_velocity().y == 0),
{
}

/// Tells the NPCs of a contact between two bodies.
///
/// Where the contact starts, every NPC whose body is one of the two is
/// marked as having touched, as [`ActorView::touched`] says. Where it
/// stops, and for every other entity, nothing changes. The spawn order and
/// each character's own body stay.
pub fn handle_contact(event: &ContactEvent, ecs_world: &mut Entities)
    requires
        old(ecs_world).wf(),
    ensures
        final(ecs_world).wf(),
        final(ecs_world).order() == old(ecs_world).order(),
        final(ecs_world)@.dom() == old(ecs_world)@.dom(),
        forall|id: u64| #[trigger]
            final(ecs_world)@.dom().contains(id) ==> final(ecs_world)@[id] == old(
                ecs_world,
            )@[id].after_contact(*event),
        forall|n: nat| #[trigger]
            each_has_own_body(old(ecs_world)@, n) ==> each_has_own_body(final(ecs_world)@, n),
{
    let ghost world0 = ecs_world@;
    match *event {
        ContactEvent::Stopped(_, _) => {},
        ContactEvent::Started(first, second) => {
            let ghost change = |actor: ActorView| actor.touched(first, second);
            let ids = ecs_world.ids();
            let mut i: usize = 0;
            while i < ids.len()
                invariant
                    i <= ids.len(),
                    ecs_world.wf(),
                    ecs_world.order() == ids@,
                    ids@.no_duplicates(),
                    forall|id: u64| ids@.contains(id) <==> world0.dom().contains(id),
                    change == |actor: ActorView| actor.touched(first, second),
                    is_swept(world0, ecs_world@, ids@, i as int, change),
                decreases ids.len() - i,
            {
                let id = ids[i];
                let ghost last = ecs_world@;
                assert(ids@.contains(ids@[i as int]));
                match ecs_world.get(id) {
                    Some(actor) => {
                        let Actor { role, draw } = actor;
                        let Draw { y, draw_type, player, tile } = draw;
                        match (role, player) {
                            (Role::NPC(npc), Some(data)) => {
                                if data.handle.0 == first.0 || data.handle.0 == second.0 {
                                    let mut data = data;
                                    data.colliding = true;
                                    ecs_world.set(
                                        id,
                                        Actor {
                                            role: Role::NPC(npc),
                                            draw: Draw { y, draw_type, player: Some(data), tile },
                                        },
                                    );
                                }
                            },
                            _ => {},
                        }
                    },
                    None => {},
                }
                proof {
                    lemma_sweep_step(world0, last, ecs_world@, ids@, i as int, change);
                }
                i += 1;
            }
            proof {
                lemma_sweep_done(world0, ecs_world@, ids@, change);
            }
        },
    }
    proof {
        assert forall|n: nat| #[trigger] each_has_own_body(world0, n) implies each_has_own_body(
            ecs_world@,
            n,
        ) by {
            lemma_keeps_own_bodies(world0, ecs_world@, n);
        }
    }
}

} // verus!
