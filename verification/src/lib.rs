//! Core simulation of a top-down survival shooter.
//!
//! Every world quantity (position, velocity, health, stat value, time) is a
//! fixed-point number: an `i64` counting thousandths of a world unit. The
//! simulation itself is purely in-memory and single-threaded; rendering,
//! input devices and windowing are outside collaborators that read the state
//! this crate exposes and feed plain input values back in.

pub mod bullet;
pub mod enemy;
pub mod fixed;
pub mod game;
pub mod map;
pub mod physics_sprite;
pub mod pickup;
pub mod player;
pub mod random;
pub mod spatial;
pub mod stat;
pub mod vec2;
