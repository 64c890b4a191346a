//! The rules by which ducks move about a lake: who follows whom, where each
//! wants to go, which forces steer it, and how it moves through one tick.
//!
//! All quantities are decimal fixed-point numbers: an `i64` counts
//! millionths of a unit, a radian or a second, and every product or
//! quotient rounds toward zero. The contracts state each result over the
//! mathematical integers, rounding included.
//!
//! The library keeps no world of its own. Its caller hands it a table of
//! agents, each with its position and the axes of its body, and takes the
//! table back. What needs trigonometry stays with the caller: it measures
//! the bearing of a steering force, supplies unit directions for wandering
//! targets, and turns each body by the yaw that the physics returns.
//!
//! Stored quantities must lie within limits for the arithmetic of a tick to
//! stay inside the machine integers; see `fixed::LIMIT` and
//! `agent::table_within_limits`.

pub mod fixed;
pub mod vec3;
pub mod duck;
pub mod boid;
pub mod chance;
pub mod target;
pub mod agent;
pub mod notice;
pub mod family;
pub mod steering;
pub mod physics;
pub mod tracker;
pub mod spawn;
pub mod tick;
