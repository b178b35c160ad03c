//! A small entity-component scene simulator: a registry of entities with
//! optional components, the systems that advance them on a fixed tick, and the
//! bookkeeping of pointer picking and drawing, each with a proved contract.
//!
//! The library decides; it does not calculate. Scalars, vectors and rotations
//! are stored as the caller gives them, and are combined only through the
//! [`arithmetic::Arithmetic`] that the caller brings. It owns no window and no
//! device either: sizes, events and read-back pixels are handed in, and the
//! list of draws and the pixel to copy are handed out.

pub mod arithmetic;
pub mod components;
pub mod flags;
pub mod linear;
pub mod picking;
pub mod registry;
pub mod render_system;
pub mod storage;
pub mod systems;
pub mod time;
pub mod world;
