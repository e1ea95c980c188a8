//! The render queue: what to draw each frame, in painter's order.

use std::collections::HashMap;
use vstd::prelude::*;
use crate::components::{all_have_bodies, Actor, ActorView, DrawCommand, DrawType};
use crate::geometry::TILE_SIZE;
use crate::layers::{all_cells, can_draw_layer, draw_layer_new, is_drawable, tile_commands, TileCommand};
use crate::physics::{BodySet, RigidBody};
use crate::sprites::Sprite;
use crate::store::Entities;
use crate::tiles::Layer;

verus! {

/// Depth of the first layer of a map.
pub const TOP_DEPTH: i64 = 50000;

/// How much nearer each layer of a map lies than the one before it.
pub const DEPTH_STEP: i64 = 1000;

/// Number of layers that lie behind the entities.
pub const BACKGROUND_LAYERS: usize = 2;

/// Whether the depths never fall from one command to the next.
pub open spec fn is_sorted_by_depth(commands: Seq<DrawCommand>) -> bool {
    forall|i: int, j: int| 0 <= i <= j < commands.len() ==> commands[i].z <= commands[j].z
}

/// Whether `perm` lists each of the numbers below `n` once.
pub open spec fn is_permutation(perm: Seq<int>, n: nat) -> bool {
    &&& perm.len() == n
    &&& forall|i: int| 0 <= i < n ==> 0 <= #[trigger] perm[i] < n
    &&& forall|i: int, j: int| 0 <= i < j < n ==> perm[i] != perm[j]
}

/// Whether `sorted` is `input` in the order `perm`, by rising depth, and
/// among equal depths in the order of `input`.
pub open spec fn is_stable_order(sorted: Seq<DrawCommand>, input: Seq<DrawCommand>, perm: Seq<int>) -> bool {
    &&& sorted.len() == input.len()
    &&& is_permutation(perm, input.len())
    &&& forall|i: int| 0 <= i < sorted.len() ==> #[trigger] sorted[i] == input[perm[i]]
    &&& forall|i: int, j: int|
        0 <= i < j < sorted.len() ==> comes_before(sorted[i].z, perm[i], sorted[j].z, perm[j])
}

/// Whether a command of depth `depth` that was at place `place` is drawn
/// before one of depth `next_depth` that was at place `next_place`.
pub open spec fn comes_before(depth: i64, place: int, next_depth: i64, next_place: int) -> bool {
    depth < next_depth || (depth == next_depth && place < next_place)
}

/// Whether `sorted` holds the commands of `input` by rising depth, those of
/// equal depth in the order they have in `input`. There is one such
/// sequence for each `input`.
pub open spec fn is_depth_sorted_of(sorted: Seq<DrawCommand>, input: Seq<DrawCommand>) -> bool {
    exists|perm: Seq<int>| is_stable_order(sorted, input, perm)
}

/// Sorts the commands by rising depth. Commands of equal depth keep the
/// order they came in.
pub fn depth_sort(commands: &mut Vec<DrawCommand>)
    ensures
        is_depth_sorted_of(final(commands)@, old(commands)@),
        is_sorted_by_depth(final(commands)@),
{
    let ghost input = commands@;
    let ghost mut perm: Seq<int> = Seq::new(input.len(), |k: int| k);
    let n: usize = commands.len();
    let mut i: usize = 0;
    while i < n
        invariant
            i <= n,
            n == input.len(),
            commands@.len() == n,
            is_permutation(perm, input.len()),
            forall|k: int| 0 <= k < n ==> #[trigger] commands@[k] == input[perm[k]],
            forall|k: int| i <= k < n ==> #[trigger] perm[k] == k,
            forall|k: int| 0 <= k < i ==> #[trigger] perm[k] < i,
            forall|a: int, b: int|
                0 <= a < b < i ==> comes_before(commands@[a].z, perm[a], commands@[b].z, perm[b]),
        decreases n - i,
    {
        let mut j: usize = i;
        while j > 0 && commands[j - 1].z > commands[j].z
            invariant
                j <= i < n,
                n == input.len(),
                commands@.len() == n,
                is_permutation(perm, input.len()),
                forall|k: int| 0 <= k < n ==> #[trigger] commands@[k] == input[perm[k]],
                forall|k: int| i < k < n ==> #[trigger] perm[k] == k,
                perm[j as int] == i,
                forall|k: int| 0 <= k <= i && k != j ==> #[trigger] perm[k] < i,
                forall|a: int, b: int|
                    0 <= a < b <= i && a != j && b != j ==> comes_before(
                        commands@[a].z,
                        perm[a],
                        commands@[b].z,
                        perm[b],
                    ),
                forall|b: int| j < b <= i ==> commands@[j as int].z < (#[trigger] commands@[b]).z,
            decreases j,
        {
            let left = commands[j - 1];
            let right = commands[j];
            commands.set(j - 1, right);
            commands.set(j, left);
            proof {
                let moved = perm[j as int];
                let passed = perm[j - 1];
                perm = perm.update(j - 1, moved).update(j as int, passed);
            }
            j -= 1;
        }
        proof {
            assert forall|a: int, b: int| 0 <= a < b < i + 1 implies comes_before(
                commands@[a].z,
                perm[a],
                commands@[b].z,
                perm[b],
            ) by {
                if b == j && j > 0 {
                    if a < j - 1 {
                        assert(comes_before(
                            commands@[a].z,
                            perm[a],
                            commands@[j - 1].z,
                            perm[j - 1],
                        ));
                    }
                }
            }
        }
        i += 1;
    }
    proof {
        assert(is_stable_order(commands@, input, perm));
        assert forall|a: int, b: int| 0 <= a <= b < commands@.len() implies commands@[a].z
            <= commands@[b].z by {
            if a < b {
                assert(comes_before(commands@[a].z, perm[a], commands@[b].z, perm[b]));
            }
        }
    }
}

/// What the queue shows of an actor: the sprite of its character at the
/// place of its body, its depth the body's `y`. A tile is not in the queue,
/// nor is a character whose clip has no frame to show.
pub open spec fn queue_entry(actor: ActorView, bodies: Seq<RigidBody>) -> Option<DrawCommand> {
    match actor.draw.command(bodies, 0) {
        Some(command) => Some(DrawCommand { z: command.position.y, ..command }),
        None => None,
    }
}

/// The queue entries of the first `n` of the entities `ids`, in that order.
pub open spec fn gathered(
    world: Map<u64, ActorView>,
    bodies: Seq<RigidBody>,
    ids: Seq<u64>,
    n: int,
) -> Seq<DrawCommand>
    decreases n,
{
    if n <= 0 {
        Seq::<DrawCommand>::empty()
    } else {
        let rest = gathered(world, bodies, ids, n - 1);
        match queue_entry(world[ids[n - 1]], bodies) {
            Some(command) => rest.push(command),
            None => rest,
        }
    }
}

/// The queue entries of all entities of a world, in spawn order.
pub open spec fn entries_in_spawn_order(world: &Entities, bodies: Seq<RigidBody>) -> Seq<
    DrawCommand,
> {
    gathered(world@, bodies, world.order(), world.order().len() as int)
}

/// The sprite that the queue shows of an actor, as [`queue_entry`] says.
/// An actor that is drawn as a character has to have its body in
/// `body_set`.
pub fn entry_of(actor: &Actor, body_set: &BodySet) -> (command: Option<DrawCommand>)
    requires
        actor@.draw.draw_type != DrawType::Tile ==> actor@.draw.has_body(body_set@),
    ensures
        command == queue_entry(actor@, body_set@),
{
    match actor.draw.draw_type {
        DrawType::Tile => None,
        _ => match actor.draw.draw(body_set, 0) {
            Some(command) => Some(
                DrawCommand {
                    position: command.position,
                    z: command.position.y,
                    draw_type: command.draw_type,
                    skin: command.skin,
                    region: command.region,
                    rotation: command.rotation,
                },
            ),
            None => None,
        },
    }
}

/// Whether every entity of `world` that is drawn as a character has its
/// body in `body_set`, so that [`render_queue`] can draw the world.
pub fn can_render(world: &Entities, body_set: &BodySet) -> (b: bool)
    requires
        world.wf(),
    ensures
        b == all_have_bodies(world@, body_set@),
{
    let ids = world.ids();
    let mut i: usize = 0;
    while i < ids.len()
        invariant
            i <= ids.len(),
            forall|id: u64| ids@.contains(id) <==> world@.dom().contains(id),
            forall|k: int|
                0 <= k < i && world@[#[trigger] ids@[k]].draw.draw_type != DrawType::Tile
                    ==> world@[ids@[k]].draw.has_body(body_set@),
        decreases ids.len() - i,
    {
        assert(ids@.contains(ids@[i as int]));
        match world.get(ids[i]) {
            Some(actor) => match actor.draw.draw_type {
                DrawType::Tile => {},
                _ => {
                    if !actor.draw.has_body(body_set) {
                        return false;
                    }
                },
            },
            None => {},
        }
        i += 1;
    }
    proof {
        assert forall|id: u64| #[trigger]
            world@.dom().contains(id) && world@[id].draw.draw_type
                != DrawType::Tile implies world@[id].draw.has_body(body_set@) by {
            assert(ids@.contains(id));
            let k = choose|k: int| 0 <= k < ids@.len() && ids@[k] == id;
            assert(world@[ids@[k]].draw.has_body(body_set@));
        }
    }
    true
}

/// Builds the render queue of a frame.
///
/// Every entity that is drawn as a character gives one command, at the
/// place where its body is now, unless its clip has no frame to show; the
/// body of each of them has to be in `body_set`. The commands come by
/// rising world `y`, so that what is lower on the screen is drawn later;
/// those of equal `y` come in the order in which their entities were
/// spawned.
pub fn render_queue(world: &Entities, body_set: &BodySet) -> (queue: Vec<DrawCommand>)
    requires
        world.wf(),
        all_have_bodies(world@, body_set@),
    ensures
        is_sorted_by_depth(queue@),
        is_depth_sorted_of(queue@, entries_in_spawn_order(world, body_set@)),
{
    let ids = world.ids();
    let mut queue: Vec<DrawCommand> = Vec::new();
    let mut i: usize = 0;
    while i < ids.len()
        invariant
            i <= ids.len(),
            all_have_bodies(world@, body_set@),
            forall|id: u64| ids@.contains(id) <==> world@.dom().contains(id),
            queue@ == gathered(world@, body_set@, ids@, i as int),
        decreases ids.len() - i,
    {
        assert(ids@.contains(ids@[i as int]));
        match world.get(ids[i]) {
            Some(actor) => match entry_of(&actor, body_set) {
                Some(command) => {
                    queue.push(command);
                },
                None => {},
            },
            None => {},
        }
        i += 1;
    }
    depth_sort(&mut queue);
    queue
}

/// Depth of layer number `index` of a map: [`TOP_DEPTH`] for the first,
/// [`DEPTH_STEP`] less for each one after it, as far as depths go.
pub open spec fn spec_layer_depth(index: int) -> i64 {
    if TOP_DEPTH - index * DEPTH_STEP >= i64::MIN {
        (TOP_DEPTH - index * DEPTH_STEP) as i64
    } else {
        i64::MIN
    }
}

/// Depth of layer number `index` of a map, as [`spec_layer_depth`] says.
pub fn layer_depth(index: usize) -> (z: i64)
    ensures
        z == spec_layer_depth(index as int),
{
    let z: i128 = TOP_DEPTH as i128 - (index as i128) * (DEPTH_STEP as i128);
    if z >= i64::MIN as i128 {
        z as i64
    } else {
        i64::MIN
    }
}

/// Whether every layer is within bounds and the catalog has the sprite of
/// every tile.
pub open spec fn are_drawable(layers: Seq<Layer>, catalog: Map<u32, Sprite>) -> bool {
    forall|l: int|
        0 <= l < layers.len() ==> (#[trigger] layers[l]).in_bounds() && is_drawable(
            layers[l].grid(),
            catalog,
        )
}

/// The commands that draw the layers from number `from` up to, not
/// including, number `to`, each at its depth, one layer after the other.
pub open spec fn layers_commands(
    layers: Seq<Layer>,
    catalog: Map<u32, Sprite>,
    from: int,
    to: int,
) -> Seq<TileCommand>
    decreases to - from,
{
    if to <= from {
        Seq::<TileCommand>::empty()
    } else {
        layers_commands(layers, catalog, from, to - 1) + tile_commands(
            all_cells(layers[to - 1].grid()),
            catalog,
            spec_layer_depth(to - 1),
            TILE_SIZE as int,
            0,
        )
    }
}

/// Whether [`draw_layers`] and [`build_frame`] can draw the layers from the
/// catalog.
pub fn can_draw_layers(lyrs: &Vec<Layer>, sprite_map: &HashMap<u32, Sprite>) -> (b: bool)
    ensures
        b == are_drawable(lyrs@, sprite_map@),
{
    let mut l: usize = 0;
    while l < lyrs.len()
        invariant
            l <= lyrs.len(),
            forall|k: int|
                0 <= k < l ==> (#[trigger] lyrs@[k]).in_bounds() && is_drawable(
                    lyrs@[k].grid(),
                    sprite_map@,
                ),
        decreases lyrs.len() - l,
    {
        if !lyrs[l].is_in_bounds() || !can_draw_layer(&lyrs[l], sprite_map) {
            return false;
        }
        l += 1;
    }
    true
}

/// The commands that draw the layers from number `from` up to, not
/// including, number `to`; none where `to` is not past `from`. A `to` past
/// the last layer counts as the number of layers.
pub fn draw_layers(lyrs: &Vec<Layer>, sprite_map: &HashMap<u32, Sprite>, from: usize, to: usize) -> (commands:
    Vec<TileCommand>)
    requires
        are_drawable(lyrs@, sprite_map@),
    ensures
        commands@ == layers_commands(
            lyrs@,
            sprite_map@,
            from as int,
            if to <= lyrs@.len() {
                to as int
            } else {
                lyrs@.len() as int
            },
        ),
{
    let end: usize = if to <= lyrs.len() {
        to
    } else {
        lyrs.len()
    };
    let mut commands: Vec<TileCommand> = Vec::new();
    let mut l: usize = from;
    while l < end
        invariant
            end <= lyrs.len(),
            from <= l <= end || end <= from == l,
            are_drawable(lyrs@, sprite_map@),
            commands@ == layers_commands(lyrs@, sprite_map@, from as int, l as int),
        decreases end - l,
    {
        let layer = draw_layer_new(&lyrs[l], sprite_map, layer_depth(l));
        let ghost before = commands@;
        let mut k: usize = 0;
        while k < layer.len()
            invariant
                k <= layer.len(),
                commands@ == before + layer@.take(k as int),
            decreases layer.len() - k,
        {
            commands.push(layer[k]);
            k += 1;
        }
        l += 1;
    }
    commands
}

/// What is drawn in one frame, in the order it is drawn.
pub struct Frame {
    /// The tiles of the layers behind the entities.
    pub background: Vec<TileCommand>,
    /// The entities, by rising depth.
    pub entities: Vec<DrawCommand>,
    /// The tiles of the layers in front of the entities.
    pub foreground: Vec<TileCommand>,
}

/// Plans a frame: the first [`BACKGROUND_LAYERS`] layers of the map, then
/// the entities as [`render_queue`] orders them, then the other layers. The
/// body of every entity that is drawn as a character has to be in
/// `body_set`.
pub fn build_frame(
    lyrs: &Vec<Layer>,
    sprite_map: &HashMap<u32, Sprite>,
    world: &Entities,
    body_set: &BodySet,
) -> (frame: Frame)
    requires
        are_drawable(lyrs@, sprite_map@),
        world.wf(),
        all_have_bodies(world@, body_set@),
    ensures
        frame.background@ == layers_commands(
            lyrs@,
            sprite_map@,
            0,
            if BACKGROUND_LAYERS <= lyrs@.len() {
                BACKGROUND_LAYERS as int
            } else {
                lyrs@.len() as int
            },
        ),
        frame.foreground@ == layers_commands(
            lyrs@,
            sprite_map@,
            BACKGROUND_LAYERS as int,
            lyrs@.len() as int,
        ),
        is_sorted_by_depth(frame.entities@),
        is_depth_sorted_of(frame.entities@, entries_in_spawn_order(world, body_set@)),
{
    Frame {
        background: draw_layers(lyrs, sprite_map, 0, BACKGROUND_LAYERS),
        entities: render_queue(world, body_set),
        foreground: draw_layers(lyrs, sprite_map, BACKGROUND_LAYERS, lyrs.len()),
    }
}

} // verus!
