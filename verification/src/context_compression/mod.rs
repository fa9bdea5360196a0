//! Host-RAM context compression: reversible CCR markers.
pub mod dedup;
pub mod types;
pub mod stitcher;
