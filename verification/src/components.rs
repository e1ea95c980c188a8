//! What entities are made of.

use vstd::prelude::*;
use crate::animation::{AnimationData, AnimationDataView, Direction, EntityAnimation};
use crate::camera::Camera;
use crate::geometry::Vec2;
use crate::physics::{BodyHandle, BodySet, RigidBody};
use crate::random::random_range;
use crate::region::Region;

verus! {

/// Speed of the player along an axis while a movement key is held, in world
/// units per second: 112.5 pixels per second.
pub const PLAYER_SPEED: i64 = 112500;

/// Speed of a walking NPC: three quarters of the player's.
pub const NPC_SPEED: i64 = 84375;

/// Half extents of the collider of a character, in world units.
pub const CHARACTER_HALF_WIDTH: i64 = 5250;

/// Half extents of the collider of a character, in world units.
pub const CHARACTER_HALF_HEIGHT: i64 = 5000;

/// Mass of a character, in thousandths.
pub const CHARACTER_MASS: u64 = 1200;

/// Number of states an NPC can be in.
pub const NPC_STATES: u64 = 5;

/// Number of states in which an NPC walks.
pub const NPC_MOVES: u64 = 4;

/// An NPC that is left alone changes its state on one tick in this many.
pub const WANDER_ODDS: u64 = 50;

/// The draw of the wander roll on which an NPC changes its state.
pub const WANDER_HIT: u64 = 1;

/// The rectangle in which NPCs are placed, as a range on each axis.
#[derive(Clone, Copy, PartialEq, Eq, Debug)]
pub struct SpawnBounds {
    pub x: (i64, i64),
    pub y: (i64, i64),
}

impl SpawnBounds {
    /// Whether `p` is a place the bounds allow: on each axis within the
    /// range, its upper end left out, or at its lower end where the range is
    /// empty.
    pub open spec fn allows(self, p: Vec2) -> bool {
        &&& in_range(self.x.0, self.x.1, p.x)
        &&& in_range(self.y.0, self.y.1, p.y)
    }
}

/// Whether `v` lies in `[low, high)`, or is `low` where that range is empty.
pub open spec fn in_range(low: i64, high: i64, v: i64) -> bool {
    if low < high {
        low <= v < high
    } else {
        v == low
    }
}

/// The skin of a character: the index of its sprite sheet, and the highest
/// index there is.
#[derive(Clone, Copy, PartialEq, Eq, Structural, Debug)]
pub struct Character(pub usize, pub usize);

impl Character {
    /// The skin before this one, the last one before the first.
    pub open spec fn previous(self) -> Character {
        if self.0 > 0 {
            Character((self.0 - 1) as usize, self.1)
        } else {
            Character(self.1, self.1)
        }
    }

    /// The skin after this one, the first one after the last.
    pub open spec fn next(self) -> Character {
        if self.0 < self.1 {
            Character((self.0 + 1) as usize, self.1)
        } else {
            Character(0, self.1)
        }
    }

    /// Steps back one skin, from the first to the last.
    pub fn cycle_back(&mut self)
        ensures
            *final(self) == old(self).previous(),
    {
        if self.0 > 0 {
            self.0 = self.0 - 1;
        } else {
            self.0 = self.1;
        }
    }

    /// Steps on one skin, from the last to the first.
    pub fn cycle_forward(&mut self)
        ensures
            *final(self) == old(self).next(),
    {
        if self.0 < self.1 {
            self.0 = self.0 + 1;
        } else {
            self.0 = 0;
        }
    }
}

/// What an NPC is doing.
#[derive(Clone, Copy, PartialEq, Eq, Structural, Debug)]
pub enum NPCState {
    Up,
    Down,
    Left,
    Right,
    Idle,
}

impl NPCState {
    /// The facing of a walking NPC; `None` for one that stands.
    pub open spec fn spec_direction(self) -> Option<Direction> {
        match self {
            NPCState::Up => Some(Direction::Up),
            NPCState::Down => Some(Direction::Down),
            NPCState::Left => Some(Direction::Left),
            NPCState::Right => Some(Direction::Right),
            NPCState::Idle => None,
        }
    }

    /// Whether the NPC walks.
    pub open spec fn is_directional(self) -> bool {
        self != NPCState::Idle
    }

    /// The state for a roll: 0 to 3 are up, down, left and right, anything
    /// else stands.
    pub open spec fn spec_from_roll(roll: u64) -> NPCState {
        if roll == 0 {
            NPCState::Up
        } else if roll == 1 {
            NPCState::Down
        } else if roll == 2 {
            NPCState::Left
        } else if roll == 3 {
            NPCState::Right
        } else {
            NPCState::Idle
        }
    }

    /// The walking state for a roll: 0 to 2 are up, down and left, anything
    /// else is right.
    pub open spec fn spec_move_from_roll(roll: u64) -> NPCState {
        if roll == 0 {
            NPCState::Up
        } else if roll == 1 {
            NPCState::Down
        } else if roll == 2 {
            NPCState::Left
        } else {
            NPCState::Right
        }
    }

    /// The velocity of an NPC in this state: [`NPC_SPEED`] along its facing,
    /// none where it stands. Up is toward smaller `y`.
    pub open spec fn spec_velocity(self) -> Vec2 {
        match self {
            NPCState::Up => Vec2 { x: 0, y: (-NPC_SPEED) as i64 },
            NPCState::Down => Vec2 { x: 0, y: NPC_SPEED },
            NPCState::Left => Vec2 { x: (-NPC_SPEED) as i64, y: 0 },
            NPCState::Right => Vec2 { x: NPC_SPEED, y: 0 },
            NPCState::Idle => Vec2 { x: 0, y: 0 },
        }
    }

    /// The facing of a walking NPC; `None` for one that stands.
    pub fn direction(self) -> (d: Option<Direction>)
        ensures
            d == self.spec_direction(),
    {
        match self {
            NPCState::Up => Some(Direction::Up),
            NPCState::Down => Some(Direction::Down),
            NPCState::Left => Some(Direction::Left),
            NPCState::Right => Some(Direction::Right),
            NPCState::Idle => None,
        }
    }

    /// The velocity of an NPC in this state.
    pub fn velocity(self) -> (v: Vec2)
        ensures
            v == self.spec_velocity(),
            v.is_axis_aligned(),
    {
        match self {
            NPCState::Up => Vec2 { x: 0, y: -NPC_SPEED },
            NPCState::Down => Vec2 { x: 0, y: NPC_SPEED },
            NPCState::Left => Vec2 { x: -NPC_SPEED, y: 0 },
            NPCState::Right => Vec2 { x: NPC_SPEED, y: 0 },
            NPCState::Idle => Vec2 { x: 0, y: 0 },
        }
    }

    /// The state for a roll: 0 to 3 are up, down, left and right, anything
    /// else stands.
    pub fn from_roll(roll: u64) -> (state: NPCState)
        ensures
            state == Self::spec_from_roll(roll),
    {
        if roll == 0 {
            NPCState::Up
        } else if roll == 1 {
            NPCState::Down
        } else if roll == 2 {
            NPCState::Left
        } else if roll == 3 {
            NPCState::Right
        } else {
            NPCState::Idle
        }
    }

    /// The walking state for a roll: 0 to 2 are up, down and left, anything
    /// else is right. It never stands.
    pub fn move_from_roll(roll: u64) -> (state: NPCState)
        ensures
            state == Self::spec_move_from_roll(roll),
            state.is_directional(),
    {
        if roll == 0 {
            NPCState::Up
        } else if roll == 1 {
            NPCState::Down
        } else if roll == 2 {
            NPCState::Left
        } else {
            NPCState::Right
        }
    }

    /// One of the five states, each as likely as the others: the state for a
    /// roll drawn from `[0, NPC_STATES)`.
    pub fn random() -> (state: NPCState)
        ensures
            exists|roll: u64| roll < NPC_STATES && state == #[trigger] Self::spec_from_roll(roll),
    {
        let roll: u64 = random_range(0, NPC_STATES);
        NPCState::from_roll(roll)
    }

    /// One of the four walking states, each as likely as the others: the
    /// walking state for a roll drawn from `[0, NPC_MOVES)`. It never
    /// stands.
    pub fn random_move() -> (state: NPCState)
        ensures
            state.is_directional(),
            exists|roll: u64|
                roll < NPC_MOVES && state == #[trigger] Self::spec_move_from_roll(roll),
    {
        let roll: u64 = random_range(0, NPC_MOVES);
        NPCState::move_from_roll(roll)
    }
}

/// What kind of thing a [`Draw`] shows.
#[derive(Clone, Copy, PartialEq, Eq, Structural, Debug)]
pub enum DrawType {
    Character,
    Tile,
    NPC,
}

/// What is known of a character that is drawn: the player or an NPC.
#[derive(Debug)]
pub struct CharacterDrawData {
    pub entity_animation: EntityAnimation,
    /// The body of the character.
    pub handle: BodyHandle,
    pub animation_data: AnimationData,
    pub character: Character,
    /// Whether the body has touched another since the NPC last decided.
    pub colliding: bool,
}

/// A [`CharacterDrawData`] as a mathematical value.
pub struct CharacterDrawDataView {
    pub entity_animation: EntityAnimation,
    pub handle: BodyHandle,
    pub animation_data: AnimationDataView,
    pub character: Character,
    pub colliding: bool,
}

impl View for CharacterDrawData {
    type V = CharacterDrawDataView;

    open spec fn view(&self) -> CharacterDrawDataView {
        CharacterDrawDataView {
            entity_animation: self.entity_animation,
            handle: self.handle,
            animation_data: self.animation_data@,
            character: self.character,
            colliding: self.colliding,
        }
    }
}

impl Clone for CharacterDrawData {
    fn clone(&self) -> (copy: Self)
        ensures
            copy@ == self@,
    {
        CharacterDrawData {
            entity_animation: self.entity_animation,
            handle: self.handle,
            animation_data: self.animation_data.clone(),
            character: self.character,
            colliding: self.colliding,
        }
    }
}

impl CharacterDrawDataView {
    /// The region of the current frame of the clip for the current facing,
    /// if that clip points at a frame.
    pub open spec fn frame(self) -> Option<Region> {
        let clip = self.animation_data.clip(self.entity_animation.direction);
        if clip.has_frame() {
            Some(clip.frames[clip.frame_index as int])
        } else {
            None
        }
    }
}

/// What is known of a tile that is drawn.
#[derive(Clone, Copy, PartialEq, Eq, Structural, Debug)]
pub struct TileDrawData {
    pub pos: Vec2,
    /// The tile id, under which the sprite catalog has the tile's sprite.
    pub gid: u32,
    /// Rotation in degrees.
    pub rotation: i32,
}

/// One drawable thing and the depth at which it is drawn.
#[derive(Debug)]
pub struct Draw {
    /// World `y` of the thing: what is lower on the screen is drawn later.
    pub y: i64,
    pub draw_type: DrawType,
    /// The character, where the thing is the player or an NPC.
    pub player: Option<CharacterDrawData>,
    /// The tile, where the thing is a tile.
    pub tile: Option<TileDrawData>,
}

/// A [`Draw`] as a mathematical value.
pub struct DrawView {
    pub y: i64,
    pub draw_type: DrawType,
    pub player: Option<CharacterDrawDataView>,
    pub tile: Option<TileDrawData>,
}

impl View for Draw {
    type V = DrawView;

    open spec fn view(&self) -> DrawView {
        DrawView {
            y: self.y,
            draw_type: self.draw_type,
            player: match self.player {
                Some(data) => Some(data@),
                None => None,
            },
            tile: self.tile,
        }
    }
}

impl Clone for Draw {
    fn clone(&self) -> (copy: Self)
        ensures
            copy@ == self@,
    {
        Draw {
            y: self.y,
            draw_type: self.draw_type,
            player: match &self.player {
                Some(data) => Some(data.clone()),
                None => None,
            },
            tile: self.tile,
        }
    }
}

/// One sprite to draw: where, at what depth, which picture and how turned.
#[derive(Clone, Copy, PartialEq, Eq, Structural, Debug)]
pub struct DrawCommand {
    /// World position of the sprite.
    pub position: Vec2,
    /// Depth of the sprite as the renderer wants it.
    pub z: i64,
    /// Whether the sprite sheet is one of the player's or one of the NPCs'.
    pub draw_type: DrawType,
    /// Index of the sprite sheet.
    pub skin: usize,
    /// Source rectangle in the sprite sheet.
    pub region: Region,
    /// Rotation in degrees.
    pub rotation: i32,
}

impl DrawView {
    /// Whether this thing is a character whose body is in `bodies`.
    pub open spec fn has_body(self, bodies: Seq<RigidBody>) -> bool {
        self.draw_type != DrawType::Tile && self.player is Some && self.player->0.handle.0
            < bodies.len()
    }

    /// The sprite that shows this thing at depth `z_val`: for a character
    /// whose body is in `bodies` and whose clip points at a frame, that
    /// frame of its sheet at the body's position; nothing for a character
    /// whose clip has no frame to show.
    pub open spec fn command(self, bodies: Seq<RigidBody>, z_val: i64) -> Option<DrawCommand> {
        match self.player {
            Some(data) if self.has_body(bodies) && data.frame().is_some() => Some(
                DrawCommand {
                    position: bodies[data.handle.0 as int].position,
                    z: z_val,
                    draw_type: self.draw_type,
                    skin: data.character.0,
                    region: data.frame()->0,
                    rotation: 0,
                },
            ),
            _ => None,
        }
    }
}

impl Draw {
    /// Whether this thing is a character whose body is in `body_set`.
    pub fn has_body(&self, body_set: &BodySet) -> (b: bool)
        ensures
            b == self@.has_body(body_set@),
    {
        match (self.draw_type, &self.player) {
            (DrawType::Tile, _) => false,
            (_, None) => false,
            (_, Some(data)) => body_set.contains(data.handle),
        }
    }

    /// The sprite that shows a character at depth `z_val`, as
    /// [`DrawView::command`] says. The character's body has to be in
    /// `body_set`. The result is `None` exactly where the clip for the
    /// character's facing has no frame to show.
    pub fn draw(&self, body_set: &BodySet, z_val: i64) -> (command: Option<DrawCommand>)
        requires
            self@.has_body(body_set@),
        ensures
            command == self@.command(body_set@, z_val),
            command is None <==> self@.player->0.frame() is None,
    {
        match &self.player {
            None => None,
            Some(data) => {
                let anim = data.animation_data.clip(data.entity_animation.direction);
                match (body_set.rigid_body(data.handle), anim.current_frame()) {
                    (Some(body), Some(region)) => Some(
                        DrawCommand {
                            position: body.position,
                            z: z_val,
                            draw_type: self.draw_type,
                            skin: data.character.0,
                            region,
                            rotation: 0,
                        },
                    ),
                    _ => None,
                }
            },
        }
    }
}

/// What the player entity has beside its [`Draw`].
#[derive(Clone, Copy, PartialEq, Eq, Structural, Debug)]
pub struct Player {
    pub camera: Camera,
}

/// What an NPC entity has beside its [`Draw`].
#[derive(Clone, Copy, PartialEq, Eq, Structural, Debug)]
pub struct NPC {
    pub state: NPCState,
}

/// What kind of entity an [`Actor`] is.
#[derive(Clone, Copy, PartialEq, Eq, Structural, Debug)]
pub enum Role {
    Player(Player),
    NPC(NPC),
    Tile,
}

/// One entity of the world.
#[derive(Debug)]
pub struct Actor {
    pub role: Role,
    pub draw: Draw,
}

/// An [`Actor`] as a mathematical value.
pub struct ActorView {
    pub role: Role,
    pub draw: DrawView,
}

impl View for Actor {
    type V = ActorView;

    open spec fn view(&self) -> ActorView {
        ActorView { role: self.role, draw: self.draw@ }
    }
}

impl Clone for Actor {
    fn clone(&self) -> (copy: Self)
        ensures
            copy@ == self@,
    {
        Actor { role: self.role, draw: self.draw.clone() }
    }
}

impl ActorView {
    /// Whether the actor has a character, which the player and the NPCs do.
    pub open spec fn has_character(self) -> bool {
        self.draw.player is Some
    }

    /// The body of an actor with a character.
    pub open spec fn handle(self) -> BodyHandle {
        self.draw.player->0.handle
    }
}

/// Whether each character of `world` has a body of its own among the first
/// `bodies` bodies: its handle names one of them, and no two characters
/// have the same handle.
pub open spec fn each_has_own_body(world: Map<u64, ActorView>, bodies: nat) -> bool {
    &&& forall|id: u64| #[trigger]
        world.dom().contains(id) && world[id].has_character() ==> world[id].handle().0 < bodies
    &&& forall|a: u64, b: u64|
        #![trigger world.dom().contains(a), world.dom().contains(b)]
        world.dom().contains(a) && world.dom().contains(b) && a != b && world[a].has_character()
            && world[b].has_character() ==> world[a].handle() != world[b].handle()
}

/// Whether every entity of `world` that is drawn as a character has its
/// body among `bodies`.
pub open spec fn all_have_bodies(world: Map<u64, ActorView>, bodies: Seq<RigidBody>) -> bool {
    forall|id: u64| #[trigger]
        world.dom().contains(id) && world[id].draw.draw_type != DrawType::Tile
            ==> world[id].draw.has_body(bodies)
}

/// A change that keeps the entities, which of them have a character and
/// the handles of those keeps each character's own body.
pub proof fn lemma_keeps_own_bodies(
    before: Map<u64, ActorView>,
    after: Map<u64, ActorView>,
    bodies: nat,
)
    requires
        after.dom() == before.dom(),
        forall|id: u64| #[trigger]
            before.dom().contains(id) ==> after[id].has_character() == before[id].has_character()
                && (before[id].has_character() ==> after[id].handle() == before[id].handle()),
        each_has_own_body(before, bodies),
    ensures
        each_has_own_body(after, bodies),
{
    assert forall|a: u64, b: u64|
        #![trigger after.dom().contains(a), after.dom().contains(b)]
        after.dom().contains(a) && after.dom().contains(b) && a != b && after[a].has_character()
            && after[b].has_character() implies after[a].handle() != after[b].handle() by {
        assert(before.dom().contains(a) && before.dom().contains(b));
    }
}

/// A new entity keeps each character's own body where it has no character,
/// or where its body is the one after the first `bodies`.
pub proof fn lemma_newcomer_has_own_body(
    before: Map<u64, ActorView>,
    id: u64,
    actor: ActorView,
    bodies: nat,
)
    requires
        !before.dom().contains(id),
        each_has_own_body(before, bodies),
        actor.has_character() ==> actor.handle().0 == bodies,
    ensures
        each_has_own_body(
            before.insert(id, actor),
            if actor.has_character() {
                bodies + 1
            } else {
                bodies
            },
        ),
{
    let after = before.insert(id, actor);
    assert forall|a: u64, b: u64|
        #![trigger after.dom().contains(a), after.dom().contains(b)]
        after.dom().contains(a) && after.dom().contains(b) && a != b && after[a].has_character()
            && after[b].has_character() implies after[a].handle() != after[b].handle() by {
        if a != id {
            assert(before.dom().contains(a));
        }
        if b != id {
            assert(before.dom().contains(b));
        }
    }
    assert forall|other: u64| #[trigger]
        after.dom().contains(other) && after[other].has_character() implies after[other].handle().0
        < (if actor.has_character() {
        bodies + 1
    } else {
        bodies
    }) by {
        if other != id {
            assert(before.dom().contains(other));
        }
    }
}

} // verus!
