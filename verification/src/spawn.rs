//! Spawning entities from the markers of a map.

use vstd::prelude::*;
use crate::animation::{AnimationData, AnimationDataView};
use crate::components::{each_has_own_body, ActorView, SpawnBounds, CHARACTER_MASS};
use crate::geometry::{clamped_add, clamped_sum, Vec2, HALF_TILE};
use crate::npc::{is_spawned_npc, npc_colliders, npc_material, spawn_npcs};
use crate::physics::{BodyHandle, BodySet, Collider, ColliderSet, RigidBody};
use crate::player::{character_collider, new_player, player_actor};
use crate::store::{lemma_spawned, Entities};

verus! {

/// The value of a property of a marker.
#[derive(Debug)]
pub enum PropertyValue {
    BoolValue(bool),
    /// A number with a fraction; its value is not kept.
    FloatValue,
    IntValue(i32),
    ColorValue(u32),
    StringValue(String),
}

/// A named property of a marker.
#[derive(Debug)]
pub struct Property {
    pub name: String,
    pub value: PropertyValue,
}

/// A point or area of a map that is tagged with a type and carries
/// properties. Of two properties of one name the later counts.
#[derive(Debug)]
pub struct SpawnMarker {
    pub obj_type: String,
    pub x: i64,
    pub y: i64,
    pub width: i64,
    pub height: i64,
    pub properties: Vec<Property>,
}

/// The property that says how many NPCs a marker spawns.
pub open spec fn count_name() -> Seq<char> {
    "count"@
}

/// The type tag of a marker that spawns NPCs.
pub open spec fn npc_tag() -> Seq<char> {
    "NPCSpawn"@
}

/// The type tag of a marker that spawns the player.
pub open spec fn player_tag() -> Seq<char> {
    "PlayerSpawn"@
}

/// The value of the last property named `name`, if there is one.
pub open spec fn property_of(properties: Seq<Property>, name: Seq<char>) -> Option<PropertyValue>
    decreases properties.len(),
{
    if properties.len() == 0 {
        None
    } else if properties.last().name@ == name {
        Some(properties.last().value)
    } else {
        property_of(properties.drop_last(), name)
    }
}

/// How many NPCs a marker asks for: the value of its `count` property where
/// that is a whole number and not negative. A marker without such a
/// property asks for none.
pub open spec fn wanted_npcs(marker: SpawnMarker) -> nat {
    match property_of(marker.properties@, count_name()) {
        Some(PropertyValue::IntValue(count)) if count >= 0 => count as nat,
        _ => 0,
    }
}

/// How many entities a marker spawns: an NPC marker as many as it asks
/// for, a player marker one, any other marker none.
pub open spec fn spawn_count(marker: SpawnMarker) -> nat {
    if marker.obj_type@ == npc_tag() {
        wanted_npcs(marker)
    } else if marker.obj_type@ == player_tag() {
        1
    } else {
        0
    }
}

/// How many entities the first `n` markers spawn.
pub open spec fn spawned_before(markers: Seq<SpawnMarker>, n: int) -> nat
    decreases n,
{
    if n <= 0 {
        0
    } else {
        spawned_before(markers, n - 1) + spawn_count(markers[n - 1])
    }
}

/// The rectangle of a marker, as bounds for the NPCs it spawns.
pub open spec fn marker_bounds(marker: SpawnMarker) -> SpawnBounds {
    SpawnBounds {
        x: (marker.x, clamped_sum(marker.x as int, marker.width as int) as i64),
        y: (marker.y, clamped_sum(marker.y as int, marker.height as int) as i64),
    }
}

/// Where a player marker puts the player: half a tile right of and below
/// the marker's corner.
pub open spec fn marker_origin(marker: SpawnMarker) -> Vec2 {
    Vec2 {
        x: clamped_sum(marker.x as int, HALF_TILE as int) as i64,
        y: clamped_sum(marker.y as int, HALF_TILE as int) as i64,
    }
}

/// Whether entity number `k` of those spawned is one of marker `j`.
pub open spec fn is_slot_of(markers: Seq<SpawnMarker>, j: int, k: int) -> bool {
    0 <= j < markers.len() && spawned_before(markers, j) <= k < spawned_before(markers, j + 1)
}

/// Whether an actor with its body and collider is what `marker` spawns: the
/// player of [`player_actor`] at the marker's origin for a player marker,
/// with one of the `sheet_lens.1 + 1` player skins, and else an NPC as
/// [`is_spawned_npc`] describes it within the marker's rectangle, with one
/// of the `sheet_lens.0 + 1` NPC skins.
pub open spec fn is_spawn_of(
    marker: SpawnMarker,
    actor: ActorView,
    body: RigidBody,
    collider: Collider,
    handle: BodyHandle,
    sheet_lens: (usize, usize),
    anims: AnimationDataView,
) -> bool {
    if marker.obj_type@ == npc_tag() {
        &&& is_spawned_npc(actor, body, handle, sheet_lens.0, anims, marker_bounds(marker))
        &&& collider == character_collider(handle, Some(npc_material()))
    } else {
        &&& actor == player_actor(sheet_lens.1, anims, marker_origin(marker), handle)
        &&& body == RigidBody::spec_dynamic(marker_origin(marker), CHARACTER_MASS)
        &&& collider == character_collider(handle, None)
    }
}

/// The value of the last property named `name`, if there is one.
fn find_count(properties: &Vec<Property>) -> (count: Option<i32>)
    ensures
        count == (match property_of(properties@, count_name()) {
            Some(PropertyValue::IntValue(c)) => Some(c),
            _ => None,
        }),
{
    let name = "count".to_owned();
    let mut i: usize = properties.len();
    assert(properties@.take(i as int) =~= properties@);
    while i > 0
        invariant
            i <= properties.len(),
            name@ == count_name(),
            property_of(properties@, count_name()) == property_of(
                properties@.take(i as int),
                count_name(),
            ),
        decreases i,
    {
        let property = &properties[i - 1];
        assert(properties@.take(i as int).last() == properties@[i - 1]);
        assert(properties@.take(i as int).drop_last() =~= properties@.take(i - 1));
        if property.name == name {
            return match &property.value {
                PropertyValue::IntValue(c) => Some(*c),
                _ => None,
            };
        }
        i -= 1;
    }
    None
}

/// How many NPCs a marker asks for.
fn count_wanted(marker: &SpawnMarker) -> (count: u32)
    ensures
        count == wanted_npcs(*marker),
{
    match find_count(&marker.properties) {
        Some(c) => if c >= 0 {
            c as u32
        } else {
            0
        },
        None => 0,
    }
}

/// Spawns what the markers of a map ask for, and returns the ids of the new
/// entities in the order they were made, which is their spawn order.
///
/// A marker tagged `NPCSpawn` whose `count` property is a whole number
/// spawns that many NPCs at random places in its rectangle, each with one of
/// the `sheet_lens.0 + 1` NPC skins. A marker tagged `PlayerSpawn` spawns
/// the player half a tile right of and below its corner, in the first of the
/// `sheet_lens.1 + 1` player skins. A marker with another tag, and an NPC
/// marker whose `count` is missing, negative or no whole number, spawns
/// nothing. Every new entity gets a copy of `anim_data`, a dynamic body and
/// a collider, appended to the sets in step with the ids. What the sets
/// and the world held before stays as it was, and each character keeps a
/// body of its own.
pub fn spawn(
    colliders: &mut ColliderSet,
    bodies: &mut BodySet,
    world: &mut Entities,
    sheet_lens: (usize, usize),
    anim_data: &AnimationData,
    markers: &Vec<SpawnMarker>,
) -> (ids: Vec<u64>)
    requires
        old(world).wf(),
    ensures
        final(world).wf(),
        final(world).order() == old(world).order() + ids@,
        ids@.len() == spawned_before(markers@, markers@.len() as int),
        ids@.no_duplicates(),
        forall|id: u64|
            final(world)@.dom().contains(id) <==> old(world)@.dom().contains(id) || ids@.contains(id),
        forall|id: u64| #[trigger]
            old(world)@.dom().contains(id) ==> !ids@.contains(id) && final(world)@[id] == old(
                world,
            )@[id],
        final(bodies)@.len() == old(bodies)@.len() + ids@.len(),
        forall|h: int| 0 <= h < old(bodies)@.len() ==> final(bodies)@[h] == old(bodies)@[h],
        final(colliders)@.len() == old(colliders)@.len() + ids@.len(),
        forall|c: int| 0 <= c < old(colliders)@.len() ==> final(colliders)@[c] == old(colliders)@[c],
        forall|j: int, k: int| #[trigger]
            is_slot_of(markers@, j, k) ==> is_spawn_of(
                markers@[j],
                final(world)@[ids@[k]],
                final(bodies)@[old(bodies)@.len() + k],
                final(colliders)@[old(colliders)@.len() + k],
                BodyHandle((old(bodies)@.len() + k) as usize),
                sheet_lens,
                anim_data@,
            ),
        each_has_own_body(old(world)@, old(bodies)@.len()) ==> each_has_own_body(
            final(world)@,
            final(bodies)@.len(),
        ),
{
    let ghost start = *world;
    let ghost bodies0 = bodies@;
    let ghost colliders0 = colliders@;
    let npc_name = "NPCSpawn".to_owned();
    let player_name = "PlayerSpawn".to_owned();
    let mut ids: Vec<u64> = Vec::new();
    let mut j: usize = 0;
    assert(world.order() =~= start.order() + ids@);
    while j < markers.len()
        invariant
            j <= markers.len(),
            npc_name@ == npc_tag(),
            player_name@ == player_tag(),
            ids@.len() == spawned_before(markers@, j as int),
            start.wf(),
            world.wf(),
            world.order() == start.order() + ids@,
            forall|id: u64| #[trigger] start@.dom().contains(id) ==> world@[id] == start@[id],
            bodies@.len() == bodies0.len() + ids@.len(),
            forall|h: int| 0 <= h < bodies0.len() ==> bodies@[h] == bodies0[h],
            colliders@.len() == colliders0.len() + ids@.len(),
            forall|c: int| 0 <= c < colliders0.len() ==> colliders@[c] == colliders0[c],
            forall|jj: int, k: int| #[trigger]
                is_slot_of(markers@, jj, k) && jj < j ==> is_spawn_of(
                    markers@[jj],
                    world@[ids@[k]],
                    bodies@[bodies0.len() + k],
                    colliders@[colliders0.len() + k],
                    BodyHandle((bodies0.len() + k) as usize),
                    sheet_lens,
                    anim_data@,
                ),
            each_has_own_body(start@, bodies0.len()) ==> each_has_own_body(world@, bodies@.len()),
        decreases markers.len() - j,
    {
        let marker = &markers[j];
        let ghost last = *world;
        let ghost bodies_before = bodies@;
        let ghost colliders_before = colliders@;
        let ghost ids_before = ids@;
        let ghost base = ids@.len() as int;
        let mut made: Vec<u64> = Vec::new();
        if marker.obj_type == npc_name {
            let bounds = SpawnBounds {
                x: (marker.x, clamped_add(marker.x, marker.width)),
                y: (marker.y, clamped_add(marker.y, marker.height)),
            };
            let count = count_wanted(marker);
            made = spawn_npcs(count, colliders, bodies, world, sheet_lens.0, anim_data.clone(), &bounds);
            proof {
                assert forall|k: int| 0 <= k < made@.len() implies is_spawn_of(
                    *marker,
                    world@[#[trigger] made@[k]],
                    bodies@[bodies0.len() + base + k],
                    colliders@[colliders0.len() + base + k],
                    BodyHandle((bodies0.len() + base + k) as usize),
                    sheet_lens,
                    anim_data@,
                ) by {
                    assert(colliders@[colliders_before.len() + k] == npc_colliders(
                        bodies_before.len() as int,
                        count as nat,
                    )[k]);
                }
            }
        } else if marker.obj_type == player_name {
            let pos = Vec2 {
                x: clamped_add(marker.x, HALF_TILE),
                y: clamped_add(marker.y, HALF_TILE),
            };
            let id = new_player(world, sheet_lens.1, bodies, colliders, anim_data.clone(), &pos);
            made.push(id);
            assert(world.order() =~= last.order() + made@);
        } else {
            assert(world.order() =~= last.order() + made@);
        }
        proof {
            lemma_spawned(start, last, ids_before);
            lemma_spawned(last, *world, made@);
        }
        let mut m: usize = 0;
        while m < made.len()
            invariant
                m <= made.len(),
                ids@ == ids_before + made@.take(m as int),
            decreases made.len() - m,
        {
            ids.push(made[m]);
            m += 1;
        }
        proof {
            assert(made@.take(made@.len() as int) =~= made@);
            assert(world.order() =~= start.order() + ids@);
            assert forall|jj: int, k: int| #[trigger]
                is_slot_of(markers@, jj, k) && jj < j + 1 implies is_spawn_of(
                markers@[jj],
                world@[ids@[k]],
                bodies@[bodies0.len() + k],
                colliders@[colliders0.len() + k],
                BodyHandle((bodies0.len() + k) as usize),
                sheet_lens,
                anim_data@,
            ) by {
                if jj < j {
                    lemma_spawned_before_grows(markers@, jj + 1, j as int);
                    assert(ids@[k] == ids_before[k]);
                    assert(ids_before.contains(ids_before[k]));
                    assert(is_spawn_of(
                        markers@[jj],
                        last@[ids_before[k]],
                        bodies_before[bodies0.len() + k],
                        colliders_before[colliders0.len() + k],
                        BodyHandle((bodies0.len() + k) as usize),
                        sheet_lens,
                        anim_data@,
                    ));
                } else {
                    assert(ids@[k] == made@[k - base]);
                }
            }
        }
        j += 1;
    }
    proof {
        lemma_spawned(start, *world, ids@);
    }
    ids
}

/// The first `n` markers spawn at least as many entities as the first `m`
/// of them.
pub proof fn lemma_spawned_before_grows(markers: Seq<SpawnMarker>, m: int, n: int)
    requires
        m <= n,
    ensures
        spawned_before(markers, m) <= spawned_before(markers, n),
    decreases n - m,
{
    if m < n {
        lemma_spawned_before_grows(markers, m, n - 1);
    }
}

} // verus!
