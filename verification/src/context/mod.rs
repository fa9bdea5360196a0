//! Reading-side context tools: the canonical extension tables and the
//! prose-aware compaction pipeline.
pub mod extensions;
pub mod souls_read;
pub mod multi_read;
