//! Counters of a deduplicating compression.
use vstd::prelude::*;

verus! {

/// What a deduplicating compression did.
pub struct BlockCompressionStats {
    /// Blocks of five or more lines replaced by markers.
    pub deduplicated_blocks: usize,
    /// Lines removed from the text.
    pub amputated_lines: usize,
    /// New cache entries written.
    pub cache_inserts: usize,
    /// Length of the compacted text.
    pub compacted_chars: usize,
    /// Length of the original text.
    pub original_chars: usize,
}

} // verus!
