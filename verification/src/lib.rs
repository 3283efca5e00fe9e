//! A two-player Pong variant: rotatable paddles, a bouncing ball, boundary
//! walls and a score counter, simulated in fixed-point integer arithmetic.
//!
//! Lengths are measured in milli-units (one thousandth of a world unit),
//! directions as fixed-point vectors of scale 1000, and time in
//! milliseconds, so every step of the simulation is exact integer
//! arithmetic with a verified contract.

pub mod collision;
pub mod components;
pub mod input;
pub mod math;
pub mod world;
