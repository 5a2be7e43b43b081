//! Core logic of a tile-based tower-defense game: a path model that turns a
//! tile grid into an ordered checkpoint route, movement and enemy lifecycle
//! along that route, a targeting-policy engine, tower combat with timed
//! firing and upgrades, projectile resolution, a wave scheduler, and a
//! tick-driven orchestrator tying them together.
//!
//! All world arithmetic is exact integer arithmetic: positions are bounded
//! integer coordinates and the distance measure is the floor of the
//! Euclidean distance (see `geometry`).

pub mod base;
pub mod bullet;
pub mod enemy;
pub mod game;
pub mod geometry;
pub mod movement;
pub mod player;
pub mod targeting_priority;
pub mod tilemap;
pub mod timer;
pub mod tower;
pub mod wave;
