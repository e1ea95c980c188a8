//! The frame loop seen from the simulation: when a tick is due, and what
//! follows a step of the integrator.

use vstd::prelude::*;
use crate::camera::Camera;
use crate::components::{
    each_has_own_body, lemma_keeps_own_bodies, Actor, ActorView, Draw, DrawView, Player, Role,
};
use crate::geometry::Vec2;
use crate::physics::{BodySet, RigidBody};
use crate::player::{give_players_velocity, lemma_same_player_bodies, with_player_velocity};
use crate::store::{is_swept, lemma_sweep_done, lemma_sweep_step, Entities};
use crate::tiles::Layer;

verus! {

/// Length of one tick of the simulation in nanoseconds: 16 milliseconds.
pub const TICK: u64 = 16000000;

/// What the window tells the game.
#[derive(Clone, Copy, PartialEq, Eq, Structural, Debug)]
pub enum GameEvent {
    /// The frame buffer has a new size, in pixels.
    FramebufferSize(i32, i32),
}

/// Collects frame time until a tick of the simulation is due.
#[derive(Clone, Copy, PartialEq, Eq, Structural, Debug)]
pub struct FrameClock {
    /// Time that has passed and that no tick has used up yet.
    pub time_buffer: u64,
}

impl FrameClock {
    /// A clock on which no time has passed.
    pub fn new() -> (clock: FrameClock)
        ensures
            clock.time_buffer == 0,
    {
        FrameClock { time_buffer: 0 }
    }

    /// The time on the clock once `delta_time` more has passed, as far as
    /// the clock can count.
    pub open spec fn filled(self, delta_time: u64) -> int {
        if self.time_buffer + delta_time <= u64::MAX {
            self.time_buffer + delta_time
        } else {
            u64::MAX as int
        }
    }

    /// Whether a tick is due once `delta_time` more has passed: the time on
    /// the clock then exceeds [`TICK`].
    pub open spec fn is_due(self, delta_time: u64) -> bool {
        self.filled(delta_time) > TICK
    }

    /// Lets `delta_time` pass and says whether a tick is due. A tick that
    /// is due uses up [`TICK`] of the time on the clock; what is left over
    /// is carried to the next frame.
    pub fn accumulate(&mut self, delta_time: u64) -> (due: bool)
        ensures
            due == old(self).is_due(delta_time),
            final(self).time_buffer == (if due {
                old(self).filled(delta_time) - TICK
            } else {
                old(self).filled(delta_time)
            }),
    {
        self.time_buffer = self.time_buffer.saturating_add(delta_time);
        if self.time_buffer > TICK {
            self.time_buffer = self.time_buffer - TICK;
            true
        } else {
            false
        }
    }
}

/// Number of tiles in the first `n` cells of a row that are not empty.
pub open spec fn filled_in_row(row: Seq<crate::tiles::LayerTile>, n: int) -> int
    decreases n,
{
    if n <= 0 {
        0
    } else {
        filled_in_row(row, n - 1) + (if row[n - 1].gid != 0 {
            1int
        } else {
            0int
        })
    }
}

/// Number of tiles in the first `n` rows of a grid that are not empty.
pub open spec fn filled_in_grid(grid: Seq<Seq<crate::tiles::LayerTile>>, n: int) -> int
    decreases n,
{
    if n <= 0 {
        0
    } else {
        filled_in_grid(grid, n - 1) + filled_in_row(grid[n - 1], grid[n - 1].len() as int)
    }
}

/// The size of a layer: how many of its tiles are not empty, and how many
/// rows it has.
pub fn get_layer_size(lyr: &Layer) -> (size: (u64, u64))
    requires
        lyr.in_bounds(),
    ensures
        size.0 == filled_in_grid(lyr.grid(), lyr.grid().len() as int),
        size.1 == lyr.grid().len(),
{
    let mut size_x: u64 = 0;
    let mut y: usize = 0;
    while y < lyr.tiles.len()
        invariant
            y <= lyr.tiles.len(),
            lyr.in_bounds(),
            size_x == filled_in_grid(lyr.grid(), y as int),
            size_x <= y * 0xFFFF_FFFF,
        decreases lyr.tiles.len() - y,
    {
        let row = &lyr.tiles[y];
        assert(lyr.grid()[y as int] == row@);
        let mut in_row: u64 = 0;
        let mut x: usize = 0;
        while x < row.len()
            invariant
                x <= row.len(),
                row@.len() <= 0xFFFF_FFFF,
                in_row == filled_in_row(row@, x as int),
                in_row <= x,
            decreases row.len() - x,
        {
            if row[x].gid != 0 {
                in_row += 1;
            }
            x += 1;
        }
        assert(size_x + in_row <= (y + 1) * 0xFFFF_FFFF) by (nonlinear_arith)
            requires
                size_x <= y * 0xFFFF_FFFF,
                in_row <= 0xFFFF_FFFF,
        ;
        assert((y + 1) * 0xFFFF_FFFF <= 0xFFFF_FFFF * 0xFFFF_FFFF) by (nonlinear_arith)
            requires
                y + 1 <= 0xFFFF_FFFF,
        ;
        size_x += in_row;
        y += 1;
    }
    (size_x, lyr.tiles.len() as u64)
}

impl ActorView {
    /// The actor once the integrator has stepped: one with a character
    /// whose body is in `bodies` is drawn at the depth of the body's `y`,
    /// and if it is a player its camera is centred on the body. Any other
    /// actor stays as it is.
    pub open spec fn settled(self, bodies: Seq<RigidBody>) -> ActorView {
        match self.draw.player {
            Some(data) if data.handle.0 < bodies.len() => {
                let body = bodies[data.handle.0 as int];
                ActorView {
                    role: match self.role {
                        Role::Player(p) => Role::Player(
                            Player { camera: p.camera.following(bodies, data.handle) },
                        ),
                        other => other,
                    },
                    draw: DrawView { y: body.position.y, ..self.draw },
                }
            },
            _ => self,
        }
    }
}

/// Takes up what a step of the integrator has done.
///
/// Every entity with a character is drawn at the depth of its body's `y`.
/// The camera of every player is centred on the player's body, and that
/// body is brought to rest, so that the player stands still on the next
/// tick unless a key moves it again. Nothing else changes, no body is
/// moved, and the spawn order and each character's own body stay.
pub fn after_step(body_set: &mut BodySet, world: &mut Entities)
    requires
        old(world).wf(),
    ensures
        final(world).wf(),
        final(world).order() == old(world).order(),
        final(world)@.dom() == old(world)@.dom(),
        forall|id: u64| #[trigger]
            final(world)@.dom().contains(id) ==> final(world)@[id] == old(world)@[id].settled(
                old(body_set)@,
            ),
        final(body_set)@ == with_player_velocity(
            old(body_set)@,
            old(world)@,
            Some(Vec2 { x: 0, y: 0 }),
        ),
        forall|n: nat| #[trigger]
            each_has_own_body(old(world)@, n) ==> each_has_own_body(final(world)@, n),
{
    let ghost world0 = world@;
    let ghost bodies0 = body_set@;
    let ghost change = |actor: ActorView| actor.settled(bodies0);
    let ids = world.ids();
    let mut i: usize = 0;
    while i < ids.len()
        invariant
            i <= ids.len(),
            world.wf(),
            world.order() == ids@,
            ids@.no_duplicates(),
            forall|id: u64| ids@.contains(id) <==> world0.dom().contains(id),
            body_set@ == bodies0,
            change == |actor: ActorView| actor.settled(bodies0),
            is_swept(world0, world@, ids@, i as int, change),
        decreases ids.len() - i,
    {
        let id = ids[i];
        let ghost last = world@;
        assert(ids@.contains(ids@[i as int]));
        match world.get(id) {
            Some(actor) => {
                let Actor { role, draw } = actor;
                let Draw { y, draw_type, player, tile } = draw;
                match player {
                    Some(data) => match body_set.rigid_body(data.handle) {
                        Some(body) => {
                            let role = match role {
                                Role::Player(p) => {
                                    let mut camera = p.camera;
                                    camera.follow(body_set, data.handle);
                                    Role::Player(Player { camera })
                                },
                                other => other,
                            };
                            world.set(
                                id,
                                Actor {
                                    role,
                                    draw: Draw {
                                        y: body.position.y,
                                        draw_type,
                                        player: Some(data),
                                        tile,
                                    },
                                },
                            );
                        },
                        None => {},
                    },
                    None => {},
                }
            },
            None => {},
        }
        proof {
            lemma_sweep_step(world0, last, world@, ids@, i as int, change);
        }
        i += 1;
    }
    proof {
        lemma_sweep_done(world0, world@, ids@, change);
        assert forall|n: nat| #[trigger] each_has_own_body(world0, n) implies each_has_own_body(
            world@,
            n,
        ) by {
            lemma_keeps_own_bodies(world0, world@, n);
        }
        lemma_same_player_bodies(world0, world@);
    }
    give_players_velocity(body_set, world, Vec2 { x: 0, y: 0 });
}

} // verus!
