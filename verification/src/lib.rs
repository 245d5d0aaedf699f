//! A force-directed layout engine for an interactive graph surface.
//!
//! Vertices are point masses on an integer grid. Every tick each pair of
//! vertices closer than the interaction radius pushes apart, user drags
//! take precedence over simulated motion, and well separated vertices rest.

pub mod force;
pub mod graph;
pub mod laws;
pub mod simulation;
pub mod sqrt;
pub mod vector;
pub mod vertex;
