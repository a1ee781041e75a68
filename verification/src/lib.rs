//! Oxyde: building blocks for AI-driven game NPCs.
//!
//! The library holds the decisions an NPC makes: how a behavior is chosen
//! for a player's intent, how player input is classified, how prompts are
//! assembled from templates, and how synthesised speech is cached.
pub mod agent;
pub mod audio;
pub mod behavior;
pub mod bindings;
pub mod config;
pub mod deploy;
pub mod dialogue;
pub mod emotion;
pub mod game;
pub mod inference;
pub mod intent;
pub mod memory;
pub mod memory_store;
pub mod prompts;
pub mod str_map;
pub mod strategy;
pub mod study;
pub mod text;
pub mod utils;
