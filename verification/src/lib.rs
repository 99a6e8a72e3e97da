//! A two-player Pong simulation: the per-frame rules for movement,
//! collision and scoring, stated over integers and proved with Verus.
//!
//! Lengths are fixed-point numbers with three decimal places, so `1_000`
//! is one unit of length; velocities are lengths per second and time
//! steps are whole microseconds.

pub mod collision;
pub mod entities;
pub mod game;
pub mod geometry;
pub mod movement;
pub mod pause;
pub mod scoring;
pub mod theorems;
