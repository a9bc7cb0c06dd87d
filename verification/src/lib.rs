//! A small entity-component-system runtime with an immediate-mode UI layer.
//!
//! The heart of the crate is the [`world::World`]: it owns the entity
//! bookkeeping and one storage per registered component type, and it upholds
//! the invariant that an entity's membership mask has a bit set exactly when
//! the matching storage holds a value for that entity.

pub mod component;
pub mod entity;
pub mod gui;
pub mod input;
pub mod math;
pub mod schedule;
pub mod statemap;
pub mod storage;
pub mod world;
