//! A small rigid-disk physics kernel in fixed-point integer arithmetic.
//!
//! Bodies are disks that move inside an axis-aligned rectangle, bounce off
//! its four walls and off each other, and are advanced by semi-implicit
//! (symplectic) Euler steps. Every quantity is an integer in units that the
//! host chooses, so each stage is exact up to the roundings that its
//! contract names.
pub mod arith;
pub mod body;
pub mod collide;
pub mod walls;
pub mod integrate;
pub mod sim;
pub mod laws;
