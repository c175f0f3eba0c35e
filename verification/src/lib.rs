//! Simulation core of a turn-based dungeon crawl.
//!
//! Three subsystems make up the library: a turn/initiative scheduler that
//! decides which entity acts next, a deferred effects pipeline that turns
//! requested actions into world mutations, and a procedural map builder
//! chain that assembles fully connected dungeon levels together with a
//! spawn manifest. Rendering, input handling and persistence are outside
//! collaborators: the library consumes plain component values and hands
//! plain results back.

pub mod ai;
pub mod components;
pub mod dungeon;
pub mod effects;
pub mod laws;
pub mod map;
pub mod map_builders;
pub mod spatial;
pub mod trigger_system;
pub mod spawner;
pub mod world;
pub mod gamesystem;
pub mod geometry;
pub mod hunger;
pub mod inventory;
pub mod melee;
pub mod raws;
pub mod rng;
