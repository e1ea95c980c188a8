//! Simulation core of a top-down tile game.
//!
//! The library turns a tile map into a world of bodies and entities and
//! drives it tick by tick:
//!
//! - [`sprites`] builds the sprite catalog from tile sets, [`tiles`] holds
//!   the layers of a map;
//! - [`world_gen`] and [`tile_objects`] build the static colliders of a map,
//!   [`spawn`] makes the player and the NPCs that its markers ask for;
//! - [`physics`] holds the bodies and colliders, [`store`] the entities;
//! - [`player`] moves the player by the keyboard of [`input`], [`npc`] lets
//!   the NPCs wander and react to contacts, [`animation`] keeps their
//!   clips running;
//! - [`game`] says when a tick is due and takes up what the integrator did,
//!   [`render`] and [`layers`] order what is drawn, [`camera`] says from
//!   where.
//!
//! Lengths are whole world units, a thousandth of a pixel each, and times
//! are whole nanoseconds; see [`geometry`]. The integrator that moves the
//! bodies and the renderer that draws the frame are not part of the
//! library: they read its plain values and write their results back.

pub mod animation;
pub mod camera;
pub mod components;
pub mod game;
pub mod geometry;
pub mod input;
pub mod layers;
pub mod npc;
pub mod physics;
pub mod player;
pub mod random;
pub mod region;
pub mod render;
pub mod spawn;
pub mod sprites;
pub mod store;
pub mod tile_objects;
pub mod tiles;
pub mod world_gen;
