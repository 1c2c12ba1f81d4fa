//! Statistics and path simplification for a recorded outdoor track.
//!
//! A track is an ordered sequence of [`sample::Sample`]s. Every quantity is a
//! fixed-point integer: coordinates, elevations, distances, angles and times
//! are whole numbers of a small unit, so that each result is exact and each
//! contract can be stated over the integers.

pub mod render;
pub mod sample;
pub mod simplify;
pub mod stamp;
pub mod stat;
