//! A dual-grid tilemap engine.
//!
//! A sparse boolean occupancy grid, split into chunks, is rendered through an
//! offset visual grid: the sprite of each visual cell is chosen by sampling
//! the four diagonal occupancy neighbors and resolving the resulting pattern
//! against a rule table loaded from a declarative YAML description.

pub mod chunk;
pub mod error;
pub mod rules;
pub mod tilemap;
pub mod yaml;
