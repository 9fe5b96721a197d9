//! Simulation core of a small arcade shooter: moving bodies on an integer
//! grid, axis-aligned collision, role-keyed reactions, spawn timers, and the
//! Start / InGame / Finish phase machine.
//!
//! Lengths are integer units and velocities are units per simulation tick, so
//! with sixty ticks a second and sixty units to a pixel a speed in pixels per
//! second reads the same in units per tick. Timers count milliseconds.

pub mod balls;
pub mod body;
pub mod breakout;
pub mod cannon;
pub mod enemies;
pub mod enemyship;
pub mod energy;
pub mod geom;
pub mod particle;
mod random;
pub mod stages;
pub mod timer;
pub mod walls;
pub mod world;

pub use balls::Balls;
pub use body::{step, Body, Collider, Direction};
pub use breakout::{setup_walls, Block, Breakout, Obstacle, Paddle};
pub use cannon::Keys;
pub use enemies::{Enemies, EnemyRoll};
pub use enemyship::EnemyShips;
pub use energy::Energy;
pub use geom::{collide, isqrt, overlap, reflect, scale_to_length, Collision, Vec2};
pub use timer::Countdown;
pub use stages::{button, ingame, scoreboard_reset, time_left_secs, timer_system, AppState, TickInput};
pub use walls::Walls;
pub use world::{bump, cleanup_boundaries, cleanup_colliders, Cannon, Params, Particle, Particles, Scoreboard, World};
