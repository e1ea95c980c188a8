//! The camera: where the view is centred and how large it is.

use vstd::prelude::*;
use crate::geometry::Vec2;
use crate::input::KeySet;
use crate::physics::{BodyHandle, BodySet};

verus! {

/// How far a key pushes a free camera in one tick: 20 pixels.
pub const PAN_STEP: i64 = 20000;

/// The camera of a player.
#[derive(Clone, Copy, PartialEq, Eq, Structural, Debug)]
pub struct Camera {
    pub position: Vec2,
    pub width: u32,
    pub height: u32,
}

impl Camera {
    /// A camera of the given size at the origin.
    pub fn new(width: u32, height: u32) -> (camera: Camera)
        ensures
            camera == (Camera { position: Vec2 { x: 0, y: 0 }, width, height }),
    {
        Camera { width, height, position: Vec2 { x: 0, y: 0 } }
    }

    /// Moves the camera to `pos`.
    pub fn set_position(&mut self, pos: Vec2)
        ensures
            *final(self) == (Camera { position: pos, ..*old(self) }),
    {
        self.position = pos;
    }

    /// Gives the view a new size; the position stays.
    pub fn set_size(&mut self, width: u32, height: u32)
        ensures
            *final(self) == (Camera { width, height, ..*old(self) }),
    {
        self.width = width;
        self.height = height;
    }

    /// Whether the camera can move by `(x, y)` without leaving the
    /// coordinate range.
    pub open spec fn can_translate(self, x: i64, y: i64) -> bool {
        &&& i64::MIN <= self.position.x + x <= i64::MAX
        &&& i64::MIN <= self.position.y + y <= i64::MAX
    }

    /// Moves the camera by `(x, y)`.
    pub fn translate(&mut self, x: i64, y: i64)
        requires
            old(self).can_translate(x, y),
        ensures
            *final(self) == (Camera {
                position: Vec2 {
                    x: (old(self).position.x + x) as i64,
                    y: (old(self).position.y + y) as i64,
                },
                ..*old(self)
            }),
    {
        self.position = Vec2 { x: self.position.x + x, y: self.position.y + y };
    }

    /// Moves the camera by `(x, y)` if it can, and says whether it did.
    pub fn try_translate(&mut self, x: i64, y: i64) -> (moved: bool)
        ensures
            moved == old(self).can_translate(x, y),
            moved ==> *final(self) == (Camera {
                position: Vec2 {
                    x: (old(self).position.x + x) as i64,
                    y: (old(self).position.y + y) as i64,
                },
                ..*old(self)
            }),
            !moved ==> *final(self) == *old(self),
    {
        match (self.position.x.checked_add(x), self.position.y.checked_add(y)) {
            (Some(nx), Some(ny)) => {
                self.position = Vec2 { x: nx, y: ny };
                true
            },
            _ => false,
        }
    }

    /// How far the held keys push a free camera in one tick: 20 pixels
    /// along each axis for each key, up and left toward larger coordinates,
    /// down and right toward smaller ones. Opposite keys cancel.
    pub open spec fn spec_pan(held: KeySet) -> Vec2 {
        Vec2 {
            x: ((if held.a {
                PAN_STEP
            } else {
                0i64
            }) - (if held.d {
                PAN_STEP
            } else {
                0i64
            })) as i64,
            y: ((if held.w {
                PAN_STEP
            } else {
                0i64
            }) - (if held.s {
                PAN_STEP
            } else {
                0i64
            })) as i64,
        }
    }

    /// How far the held keys push a free camera in one tick, as
    /// [`Camera::spec_pan`] says.
    pub fn pan(held: &KeySet) -> (by: Vec2)
        ensures
            by == Self::spec_pan(*held),
    {
        let mut by = Vec2 { x: 0, y: 0 };
        if held.w {
            by.y = by.y + PAN_STEP;
        }
        if held.a {
            by.x = by.x + PAN_STEP;
        }
        if held.d {
            by.x = by.x - PAN_STEP;
        }
        if held.s {
            by.y = by.y - PAN_STEP;
        }
        by
    }

    /// The camera centred on the body behind `target`; the camera itself
    /// where `target` names no body.
    pub open spec fn following(self, bodies: Seq<crate::physics::RigidBody>, target: BodyHandle) -> Camera {
        if target.0 < bodies.len() {
            Camera { position: bodies[target.0 as int].position, ..self }
        } else {
            self
        }
    }

    /// Centres the camera on the body behind `target`. The size stays, and
    /// so does the position where `target` names no body.
    pub fn follow(&mut self, bodies: &BodySet, target: BodyHandle)
        ensures
            *final(self) == old(self).following(bodies@, target),
    {
        match bodies.rigid_body(target) {
            Some(body) => {
                self.position = body.position;
            },
            None => {},
        }
    }
}

} // verus!
