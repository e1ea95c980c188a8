//! The bodies and colliders of the simulation, held as plain values.
//!
//! A [`BodySet`] and a [`ColliderSet`] are insert-only arenas: a handle is the
//! position at which an item was inserted and stays valid for the life of the
//! set. The integrator that moves the bodies lives outside this library; it
//! reads velocities from here and writes the resulting positions back.

use vstd::prelude::*;
use crate::geometry::Vec2;

verus! {

/// Whether a body is moved by the integrator.
#[derive(Clone, Copy, PartialEq, Eq, Structural, Debug)]
pub enum BodyStatus {
    /// Never moves: map boundaries and solid tiles.
    Static,
    /// Moves with the velocity given to it each tick.
    Dynamic,
}

/// Handle of a body in a [`BodySet`].
#[derive(Clone, Copy, PartialEq, Eq, Structural, Debug)]
pub struct BodyHandle(pub usize);

/// Handle of a collider in a [`ColliderSet`].
#[derive(Clone, Copy, PartialEq, Eq, Structural, Debug)]
pub struct ColliderHandle(pub usize);

/// One rigid body.
#[derive(Clone, Copy, PartialEq, Eq, Structural, Debug)]
pub struct RigidBody {
    /// Centre of the body.
    pub position: Vec2,
    /// Linear velocity, in world units per second.
    pub velocity: Vec2,
    pub status: BodyStatus,
    /// Mass in thousandths of a unit of mass; zero for static bodies.
    pub mass: u64,
    pub gravity_enabled: bool,
}

impl RigidBody {
    /// A static body at `position`, at rest and without gravity.
    pub fn fixed(position: Vec2) -> (body: RigidBody)
        ensures
            body == Self::spec_fixed(position),
    {
        RigidBody {
            position,
            velocity: Vec2 { x: 0, y: 0 },
            status: BodyStatus::Static,
            mass: 0,
            gravity_enabled: false,
        }
    }

    /// A dynamic body at `position`, at rest and without gravity.
    pub fn dynamic(position: Vec2, mass: u64) -> (body: RigidBody)
        ensures
            body == Self::spec_dynamic(position, mass),
    {
        RigidBody {
            position,
            velocity: Vec2 { x: 0, y: 0 },
            status: BodyStatus::Dynamic,
            mass,
            gravity_enabled: false,
        }
    }

    pub open spec fn spec_fixed(position: Vec2) -> RigidBody {
        RigidBody {
            position,
            velocity: Vec2 { x: 0, y: 0 },
            status: BodyStatus::Static,
            mass: 0,
            gravity_enabled: false,
        }
    }

    pub open spec fn spec_dynamic(position: Vec2, mass: u64) -> RigidBody {
        RigidBody {
            position,
            velocity: Vec2 { x: 0, y: 0 },
            status: BodyStatus::Dynamic,
            mass,
            gravity_enabled: false,
        }
    }

    /// This body with its velocity replaced.
    pub open spec fn with_velocity(self, velocity: Vec2) -> RigidBody {
        RigidBody { velocity, ..self }
    }

    /// This body with its position replaced.
    pub open spec fn with_position(self, position: Vec2) -> RigidBody {
        RigidBody { position, ..self }
    }
}

/// Surface properties of a collider, in thousandths.
#[derive(Clone, Copy, PartialEq, Eq, Structural, Debug)]
pub struct Material {
    pub restitution: u32,
    pub friction: u32,
}

/// A rectangular collider attached to one body.
#[derive(Clone, Copy, PartialEq, Eq, Structural, Debug)]
pub struct Collider {
    /// The body that carries the collider.
    pub body: BodyHandle,
    /// Half of the rectangle's width and height.
    pub half_extents: Vec2,
    /// Rotation of the rectangle about its centre, in degrees.
    pub rotation: i32,
    /// Surface properties; `None` for the integrator's default.
    pub material: Option<Material>,
}

/// The bodies of the world, in the order they were inserted.
pub struct BodySet {
    bodies: Vec<RigidBody>,
}

impl View for BodySet {
    type V = Seq<RigidBody>;

    closed spec fn view(&self) -> Seq<RigidBody> {
        self.bodies@
    }
}

impl BodySet {
    /// An empty set.
    pub fn new() -> (set: BodySet)
        ensures
            set@ == Seq::<RigidBody>::empty(),
    {
        BodySet { bodies: Vec::new() }
    }

    /// Whether `handle` names a body of this set.
    pub open spec fn has(&self, handle: BodyHandle) -> bool {
        handle.0 < self@.len()
    }

    /// The number of bodies fits a `usize`.
    pub proof fn lemma_len_fits(&self)
        ensures
            self@.len() <= usize::MAX,
    {
        assert(self.bodies@.len() == self.bodies.len());
    }

    /// Number of bodies.
    pub fn len(&self) -> (n: usize)
        ensures
            n == self@.len(),
    {
        self.bodies.len()
    }

    /// Whether `handle` names a body of this set.
    pub fn contains(&self, handle: BodyHandle) -> (b: bool)
        ensures
            b == self.has(handle),
    {
        handle.0 < self.bodies.len()
    }

    /// Adds `body` and returns its handle. Earlier handles stay valid.
    pub fn insert(&mut self, body: RigidBody) -> (handle: BodyHandle)
        ensures
            final(self)@ == old(self)@.push(body),
            handle.0 == old(self)@.len(),
    {
        let handle = BodyHandle(self.bodies.len());
        self.bodies.push(body);
        handle
    }

    /// The body behind `handle`, if there is one.
    pub fn rigid_body(&self, handle: BodyHandle) -> (body: Option<RigidBody>)
        ensures
            body == (if self.has(handle) {
                Some(self@[handle.0 as int])
            } else {
                None
            }),
    {
        if handle.0 < self.bodies.len() {
            Some(self.bodies[handle.0])
        } else {
            None
        }
    }

    /// What the set holds once the body behind `handle` has been given
    /// `velocity`; the set itself where `handle` names no body.
    pub open spec fn spec_set_linear_velocity(
        bodies: Seq<RigidBody>,
        handle: BodyHandle,
        velocity: Vec2,
    ) -> Seq<RigidBody> {
        if handle.0 < bodies.len() {
            bodies.update(handle.0 as int, bodies[handle.0 as int].with_velocity(velocity))
        } else {
            bodies
        }
    }

    /// What the set holds once the body behind `handle` has been moved to
    /// `position`; the set itself where `handle` names no body.
    pub open spec fn spec_set_position(
        bodies: Seq<RigidBody>,
        handle: BodyHandle,
        position: Vec2,
    ) -> Seq<RigidBody> {
        if handle.0 < bodies.len() {
            bodies.update(handle.0 as int, bodies[handle.0 as int].with_position(position))
        } else {
            bodies
        }
    }

    /// Gives the body behind `handle` the velocity `velocity` and says whether
    /// there was such a body. Nothing else changes.
    pub fn set_linear_velocity(&mut self, handle: BodyHandle, velocity: Vec2) -> (found: bool)
        ensures
            found == old(self).has(handle),
            final(self)@ == Self::spec_set_linear_velocity(old(self)@, handle, velocity),
    {
        if handle.0 < self.bodies.len() {
            let body = self.bodies[handle.0];
            self.bodies.set(handle.0, RigidBody { velocity, ..body });
            true
        } else {
            false
        }
    }

    /// Moves the body behind `handle` to `position` and says whether there was
    /// such a body. Nothing else changes.
    pub fn set_position(&mut self, handle: BodyHandle, position: Vec2) -> (found: bool)
        ensures
            found == old(self).has(handle),
            final(self)@ == Self::spec_set_position(old(self)@, handle, position),
    {
        if handle.0 < self.bodies.len() {
            let body = self.bodies[handle.0];
            self.bodies.set(handle.0, RigidBody { position, ..body });
            true
        } else {
            false
        }
    }
}

/// The colliders of the world, in the order they were inserted.
pub struct ColliderSet {
    colliders: Vec<Collider>,
}

impl View for ColliderSet {
    type V = Seq<Collider>;

    closed spec fn view(&self) -> Seq<Collider> {
        self.colliders@
    }
}

impl ColliderSet {
    /// An empty set.
    pub fn new() -> (set: ColliderSet)
        ensures
            set@ == Seq::<Collider>::empty(),
    {
        ColliderSet { colliders: Vec::new() }
    }

    /// Number of colliders.
    pub fn len(&self) -> (n: usize)
        ensures
            n == self@.len(),
    {
        self.colliders.len()
    }

    /// Adds `collider` and returns its handle. Earlier handles stay valid.
    pub fn insert(&mut self, collider: Collider) -> (handle: ColliderHandle)
        ensures
            final(self)@ == old(self)@.push(collider),
            handle.0 == old(self)@.len(),
    {
        let handle = ColliderHandle(self.colliders.len());
        self.colliders.push(collider);
        handle
    }

    /// The collider behind `handle`, if there is one.
    pub fn get(&self, handle: ColliderHandle) -> (collider: Option<Collider>)
        ensures
            collider == (if handle.0 < self@.len() {
                Some(self@[handle.0 as int])
            } else {
                None
            }),
    {
        if handle.0 < self.colliders.len() {
            Some(self.colliders[handle.0])
        } else {
            None
        }
    }
}

/// The body and collider sets of one world.
pub struct PhysicsWorld {
    pub bodies: BodySet,
    pub colliders: ColliderSet,
}

impl PhysicsWorld {
    /// A world without bodies.
    pub fn new() -> (world: PhysicsWorld)
        ensures
            world.bodies@ == Seq::<RigidBody>::empty(),
            world.colliders@ == Seq::<Collider>::empty(),
    {
        PhysicsWorld { bodies: BodySet::new(), colliders: ColliderSet::new() }
    }
}

} // verus!
