//! Density heatmap tiles over a time-windowed point index.
//!
//! Everything here works on plain integers: pixel coordinates, cell counts,
//! colour channels, epoch instants and integer point keys.

pub mod grid;
pub mod index;
pub mod ingest;
pub mod instant;
