//! Load generation.
pub mod patterns;
