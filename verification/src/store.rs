//! The entity store.
//!
//! Entities live in a `hecs::World`, one [`Actor`] each. The world is held
//! privately, so that nothing else can keep one of its components borrowed
//! while the library reads or writes it. The world hands out its entities in
//! no particular order, so the store keeps the order of spawning itself.

use hecs::World;
use vstd::prelude::*;
use crate::components::{Actor, ActorView};

verus! {

#[verifier::external_type_specification]
#[verifier::external_body]
pub struct ExWorld(hecs::World);

/// The actors that a `hecs::World` holds, each under the bits of its
/// entity.
pub uninterp spec fn world_actors(world: World) -> Map<u64, ActorView>;

/// An empty `hecs::World`.
///
/// Calls `hecs::World::new`. Taken on trust: the new world holds no entity.
#[verifier::external_body]
fn store_new() -> (world: World)
    ensures
        world_actors(world).dom() == Set::<u64>::empty(),
{
    World::new()
}

/// Adds an entity that has `actor` as its one component, and returns the
/// bits of the entity.
///
/// Calls `hecs::World::spawn` and `hecs::Entity::to_bits`. Taken on trust:
/// the entity is new, so its bits name no entity that the world held, and
/// every other entity keeps its actor. The world numbers its entities in 32
/// bits; that memory runs out before the numbers do is taken on trust too.
#[verifier::external_body]
fn store_spawn(store: &mut World, actor: Actor) -> (id: u64)
    ensures
        !world_actors(*old(store)).dom().contains(id),
        world_actors(*final(store)) == world_actors(*old(store)).insert(id, actor@),
{
    store.spawn((actor,)).to_bits()
}

/// A copy of the actor of the entity with bits `id`; `None` where the world
/// holds no such entity.
///
/// Calls `hecs::Entity::from_bits` and `hecs::World::get`, which fails for
/// bits that name no live entity with an actor. Taken on trust: the
/// component it lends is the actor last stored for the entity.
#[verifier::external_body]
fn store_get(store: &World, id: u64) -> (actor: Option<Actor>)
    ensures
        match actor {
            Some(a) => world_actors(*store).dom().contains(id) && a@ == world_actors(*store)[id],
            None => !world_actors(*store).dom().contains(id),
        },
{
    match store.get::<Actor>(hecs::Entity::from_bits(id)) {
        Ok(found) => Some((*found).clone()),
        Err(_) => None,
    }
}

/// Replaces the actor of the entity with bits `id` and says whether the
/// world holds such an entity; a world that does not stays as it was.
///
/// Calls `hecs::Entity::from_bits` and `hecs::World::get_mut`, which fails
/// for bits that name no live entity with an actor. Taken on trust: writing
/// through the component it lends changes the actor of that entity and of no
/// other.
#[verifier::external_body]
fn store_set(store: &mut World, id: u64, actor: Actor) -> (found: bool)
    ensures
        found == world_actors(*old(store)).dom().contains(id),
        world_actors(*final(store)) == (if found {
            world_actors(*old(store)).insert(id, actor@)
        } else {
            world_actors(*old(store))
        }),
{
    match store.get_mut::<Actor>(hecs::Entity::from_bits(id)) {
        Ok(mut slot) => {
            *slot = actor;
            true
        },
        Err(_) => false,
    }
}

/// The entities of the world: the player, the NPCs and the drawn tiles.
///
/// Beside the world itself the store keeps the ids of its entities in the
/// order in which they were spawned.
pub struct Entities {
    store: World,
    order: Vec<u64>,
}

impl View for Entities {
    type V = Map<u64, ActorView>;

    /// The actor of each entity, under the entity's id.
    closed spec fn view(&self) -> Map<u64, ActorView> {
        world_actors(self.store)
    }
}

impl Entities {
    /// Whether the store is in order: its spawn order lists each entity of
    /// the world once. A store made by [`Entities::new`] is, and every
    /// function of the library keeps it so.
    pub closed spec fn wf(&self) -> bool {
        &&& self.order@.no_duplicates()
        &&& forall|id: u64| self.order@.contains(id) <==> world_actors(self.store).dom().contains(id)
    }

    /// The ids of the entities in the order in which they were spawned.
    pub closed spec fn order(&self) -> Seq<u64> {
        self.order@
    }

    /// A world without entities.
    pub fn new() -> (world: Entities)
        ensures
            world.wf(),
            world@ == Map::<u64, ActorView>::empty(),
            world.order() == Seq::<u64>::empty(),
    {
        let world = Entities { store: store_new(), order: Vec::new() };
        assert(world@ =~= Map::<u64, ActorView>::empty());
        world
    }

    /// Adds `actor` as a new entity and returns the entity's id, which no
    /// entity had before. The new entity is the last in spawn order; the
    /// other entities stay as they were.
    pub fn spawn(&mut self, actor: Actor) -> (id: u64)
        requires
            old(self).wf(),
        ensures
            final(self).wf(),
            !old(self)@.dom().contains(id),
            final(self)@ == old(self)@.insert(id, actor@),
            final(self).order() == old(self).order().push(id),
    {
        let ghost before = self.order@;
        let id = store_spawn(&mut self.store, actor);
        self.order.push(id);
        proof {
            assert(!before.contains(id));
            assert forall|other: u64| self.order@.contains(other) <==> world_actors(
                self.store,
            ).dom().contains(other) by {
                if before.contains(other) {
                    let k = choose|k: int| 0 <= k < before.len() && before[k] == other;
                    assert(self.order@[k] == other);
                }
                if self.order@.contains(other) {
                    let k = choose|k: int| 0 <= k < self.order@.len() && self.order@[k] == other;
                    if k < before.len() {
                        assert(before[k] == other);
                    }
                }
                assert(self.order@[before.len() as int] == id);
            }
            assert forall|a: int, b: int| 0 <= a < b < self.order@.len() implies self.order@[a]
                != self.order@[b] by {
                if b == before.len() {
                    assert(before[a] == self.order@[a]);
                }
            }
        }
        id
    }

    /// The ids of all entities, each once, in the order in which they were
    /// spawned.
    pub fn ids(&self) -> (ids: Vec<u64>)
        requires
            self.wf(),
        ensures
            ids@ == self.order(),
            ids@.no_duplicates(),
            forall|id: u64| ids@.contains(id) <==> self@.dom().contains(id),
    {
        let mut ids: Vec<u64> = Vec::new();
        let mut i: usize = 0;
        while i < self.order.len()
            invariant
                i <= self.order.len(),
                ids@ == self.order@.take(i as int),
            decreases self.order.len() - i,
        {
            ids.push(self.order[i]);
            i += 1;
        }
        assert(self.order@.take(self.order@.len() as int) =~= self.order@);
        ids
    }

    /// A copy of the actor of entity `id`, if there is such an entity.
    pub fn get(&self, id: u64) -> (actor: Option<Actor>)
        ensures
            match actor {
                Some(a) => self@.dom().contains(id) && a@ == self@[id],
                None => !self@.dom().contains(id),
            },
    {
        store_get(&self.store, id)
    }

    /// Replaces the actor of entity `id` and says whether there is such an
    /// entity. Nothing else changes, and the spawn order stays.
    pub fn set(&mut self, id: u64, actor: Actor) -> (found: bool)
        requires
            old(self).wf(),
        ensures
            final(self).wf(),
            found == old(self)@.dom().contains(id),
            final(self)@ == (if found {
                old(self)@.insert(id, actor@)
            } else {
                old(self)@
            }),
            final(self).order() == old(self).order(),
    {
        store_set(&mut self.store, id, actor)
    }
}

/// Whether `now` is what `before` becomes when `change` has been applied
/// to the actors of the first `n` of the entities `ids`, and to no other.
pub open spec fn is_swept(
    before: Map<u64, ActorView>,
    now: Map<u64, ActorView>,
    ids: Seq<u64>,
    n: int,
    change: spec_fn(ActorView) -> ActorView,
) -> bool {
    &&& now.dom() == before.dom()
    &&& forall|k: int|
        0 <= k < ids.len() ==> now[#[trigger] ids[k]] == (if k < n {
            change(before[ids[k]])
        } else {
            before[ids[k]]
        })
}

/// A sweep goes one entity further when the actor of the next entity is
/// replaced by what `change` makes of it, or is left alone where `change`
/// makes nothing new of it.
pub proof fn lemma_sweep_step(
    before: Map<u64, ActorView>,
    last: Map<u64, ActorView>,
    now: Map<u64, ActorView>,
    ids: Seq<u64>,
    n: int,
    change: spec_fn(ActorView) -> ActorView,
)
    requires
        ids.no_duplicates(),
        0 <= n < ids.len(),
        is_swept(before, last, ids, n, change),
        last.dom().contains(ids[n]),
        now == last.insert(ids[n], change(before[ids[n]])) || (now == last && change(before[ids[n]])
            == before[ids[n]]),
    ensures
        is_swept(before, now, ids, n + 1, change),
{
    assert(now.dom() =~= before.dom());
    assert forall|k: int| 0 <= k < ids.len() implies now[#[trigger] ids[k]] == (if k < n + 1 {
        change(before[ids[k]])
    } else {
        before[ids[k]]
    }) by {
        if k != n {
            assert(ids[k] != ids[n]);
        }
    }
}

/// A sweep over all entities of a world has applied `change` to every
/// actor.
pub proof fn lemma_sweep_done(
    before: Map<u64, ActorView>,
    now: Map<u64, ActorView>,
    ids: Seq<u64>,
    change: spec_fn(ActorView) -> ActorView,
)
    requires
        is_swept(before, now, ids, ids.len() as int, change),
        forall|id: u64| ids.contains(id) <==> before.dom().contains(id),
    ensures
        forall|id: u64| #[trigger] now.dom().contains(id) ==> now[id] == change(before[id]),
{
    assert forall|id: u64| #[trigger] now.dom().contains(id) implies now[id] == change(
        before[id],
    ) by {
        assert(ids.contains(id));
        let k = choose|k: int| 0 <= k < ids.len() && ids[k] == id;
        assert(now[ids[k]] == change(before[ids[k]]));
    }
}

/// What a run of spawns adds to a store: where `after` has the spawn order
/// of `before` followed by `ids`, the ids are new, each occurs once, and the
/// entities of `after` are those of `before` and those of `ids`.
pub proof fn lemma_spawned(before: Entities, after: Entities, ids: Seq<u64>)
    requires
        before.wf(),
        after.wf(),
        after.order() == before.order() + ids,
    ensures
        ids.no_duplicates(),
        forall|id: u64| after@.dom().contains(id) <==> before@.dom().contains(id) || ids.contains(id),
        forall|id: u64| #[trigger] before@.dom().contains(id) ==> !ids.contains(id),
{
    let old_order = before.order();
    let new_order = after.order();
    assert forall|a: int, b: int| 0 <= a < b < ids.len() implies ids[a] != ids[b] by {
        assert(new_order[old_order.len() + a] == ids[a]);
        assert(new_order[old_order.len() + b] == ids[b]);
    }
    assert forall|id: u64| after@.dom().contains(id) <==> before@.dom().contains(id)
        || ids.contains(id) by {
        if new_order.contains(id) {
            let k = choose|k: int| 0 <= k < new_order.len() && new_order[k] == id;
            if k < old_order.len() {
                assert(old_order[k] == id);
            } else {
                assert(ids[k - old_order.len()] == id);
            }
        }
        if old_order.contains(id) {
            let k = choose|k: int| 0 <= k < old_order.len() && old_order[k] == id;
            assert(new_order[k] == id);
        }
        if ids.contains(id) {
            let k = choose|k: int| 0 <= k < ids.len() && ids[k] == id;
            assert(new_order[old_order.len() + k] == id);
        }
    }
    assert forall|id: u64| #[trigger] before@.dom().contains(id) implies !ids.contains(id) by {
        assert(old_order.contains(id));
        if ids.contains(id) {
            let a = choose|a: int| 0 <= a < old_order.len() && old_order[a] == id;
            let b = choose|b: int| 0 <= b < ids.len() && ids[b] == id;
            assert(new_order[a] == id);
            assert(new_order[old_order.len() + b] == id);
        }
    }
}

} // verus!
