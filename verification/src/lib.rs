//! A small entity-component-system runtime: entity slots are handed out by a
//! generational allocator, component values live in per-kind stores paired
//! with a presence bitset, and a query layer walks the slots that hold every
//! requested component kind.

pub mod bitset;
pub mod commands;
pub mod ecs;
pub mod engine;
pub mod model;
pub mod query;
pub mod store;
pub mod system;
pub mod window;
