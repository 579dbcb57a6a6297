//! A drivetrain model: an engine drives a tree of couplers that ends in wheels,
//! and the wheels' reaction torque flows back up the tree in the same tick.
//!
//! Quantities are fixed-point millionths of their SI unit (see [`fixed`]), so
//! that every update is exact integer arithmetic with a stated result:
//! - [`curve`]: piecewise-linear sample curves (engine torque, tyre force);
//! - [`tyre_model`]: friction coefficient and longitudinal tyre force;
//! - [`wheels`]: slip, reaction torque and spin-up of one wheel;
//! - [`differential`]: the tree of wheels and welded couplers;
//! - [`engine`]: the engine and the container that runs one tick.

pub mod curve;
pub mod differential;
pub mod engine;
pub mod fixed;
pub mod tyre_model;
pub mod wheels;
