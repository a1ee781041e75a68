//! Kinds of entities in a game world.
pub mod entity;
pub mod world;
