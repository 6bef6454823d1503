//! Simulation core of a Breakout-style arcade game.
//!
//! A player-controlled paddle deflects a ball to destroy a grid of enemy
//! blocks while avoiding a lethal hazard zone.  The core keeps the whole
//! playfield — entity store, score counter, pause state and per-tick event
//! queues — as plain data, and advances it one fixed simulation tick at a
//! time.  Rendering, input devices, audio playback and the tick scheduler
//! live outside; they talk to the core through plain values only.
//!
//! All coordinates are integers measured in subunits: 60 subunits make one
//! world unit, and one tick is 1/60 of a second, so a velocity stored in
//! subunits per tick is numerically equal to world units per second.
pub mod collision;
pub mod entity;
pub mod game;
pub mod geom;
pub mod movement;
pub mod particles;
pub mod reset;
mod rng;
pub mod score;
pub mod state;
pub mod store;
pub mod tick;
