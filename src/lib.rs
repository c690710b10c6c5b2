//! HyperMinHash sketches over fixed-size register arrays.
//!
//! The library hashes elements into packed registers, merges sketches, folds
//! several of them to find the registers they share, and keeps a sketch in a
//! fixed byte layout. Cardinality, similarity and intersection estimates are
//! floating-point functions of the run-length histograms and register counts
//! that it hands out.

pub mod hash;
pub mod registers;
pub mod sketch;
pub mod laws;
pub mod combiner;
pub mod dense;
pub mod repr;
