//! Import graphs and their blast radius.
pub mod reach;
pub mod impact;
pub mod repo_impact;
pub mod wasm_engine;
pub mod routes;
pub mod imports;
