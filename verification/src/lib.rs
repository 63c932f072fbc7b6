//! A deterministic, fixed-point core for a small wildlife simulation.
//!
//! Agents live in an arena, lose satiety as simulated time passes, choose
//! between competing goals by utility, ask for paths across a navigation mesh,
//! and steer along the waypoints they are given. Every quantity is an integer:
//! seconds, satiety points, scores and world units are all counted in
//! millionths, and angles in millionths of a degree, so that each step has an
//! exact contract.

pub mod time_control;
pub mod age;
pub mod math;
pub mod needs;
pub mod movement;
pub mod navigation;
pub mod thinker;
pub mod world;
pub mod vegetation;
pub mod animal;
pub mod schedule;
