//! A breakout-style arcade simulation with exact fixed-point arithmetic.
//!
//! A ball bounces inside a fixed arena, removes the blocks it touches and is
//! deflected by a paddle that patrols the bottom of the arena. Every length,
//! position and velocity is an `i64` count of units, where [`units::UNIT`]
//! units make one whole arena unit.
//!
//! * [`units`]: the scale and the range of quantities.
//! * [`collision`]: the test of a circle against a rectangle, made on exact
//!   decimals.
//! * [`arena`]: the walls.
//! * [`paddle`]: the paddle, its patrol and its deflection of the ball.
//! * [`block`]: the blocks and the scan that hides those the ball hits.
//! * [`state`]: the whole simulation and its tick.

pub mod arena;
pub mod block;
pub mod collision;
mod decimal;
pub mod paddle;
pub mod state;
pub mod units;
