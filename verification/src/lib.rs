//! Benchmarking and workload-synthesis library for spatial point indexes.
//!
//! The library models coordinates as fixed-point `i64` values, keeps the
//! measurement harness, the benchmark drivers and the envelope-synthesis
//! engine as verified code, and reaches the spatial index crates and the
//! random number generator through a small set of trusted wrappers.

pub mod envelope;
pub mod index;
pub mod rng;
pub mod synth;
pub mod corpus;
pub mod harness;
pub mod bench;
pub mod sink;
pub mod geojson;
pub mod hpr;
pub mod rstar_bench;
