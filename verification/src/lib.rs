//! Verified text-compaction and context-management primitives.
pub mod text;
pub mod sorting;
pub mod paths;
pub mod pattern;
pub mod host_cache;
pub mod lean_vacuum;
pub mod context;
pub mod context_compression;
pub mod ast;
pub mod server;
