//! The verified core of a desktop explorer for the `rand` crates: engine
//! kinds and seeded generators, sequence operations, primitive samples with
//! their tallies, build metadata, and the tab model of the user interface.
pub mod build_info;
pub mod distribution;
pub mod engine;
pub mod primitives;
pub mod rng;
pub mod sequence;
pub mod tabs;
pub mod text;
