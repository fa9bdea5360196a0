//! Native text compaction: ANSI filtering, comment stripping, blank-line and
//! brace-run collapsing, block deduplication, diffs and compact search output.
pub mod ansi_filter;
pub mod text_compress;
pub mod dedup;
pub mod souls_symbol;
pub mod search;
pub mod smart_read;
pub mod myers_diff;
pub mod repo_heatmap;

use vstd::prelude::*;
use crate::text::{opt_view, decimal, to_chars, from_chars, append_chars, decimal_exec};
use self::ansi_filter::{strip_ansi, strip_ansi_spec};
use self::text_compress::{
    aggressive_compress, aggressive_compress_spec, lightweight_cleanup, lightweight_cleanup_spec,
};

verus! {

/// The pipeline: [`strip_ansi`], then [`aggressive_compress`], then [`lightweight_cleanup`].
pub fn compress_to_lean(text: &str, ext: Option<&str>) -> (r: String)
    ensures
        r@ == lightweight_cleanup_spec(
            aggressive_compress_spec(strip_ansi_spec(text@), opt_view(ext)),
        ),
{
    let stripped = strip_ansi(text);
    let compressed = aggressive_compress(stripped.as_str(), ext);
    lightweight_cleanup(compressed.as_str())
}


/// Largest file, in bytes, that is read and compacted.
pub const MAX_READ_BYTES: u64 = 5242880;

/// Whether a file of `len` bytes may be read: refused above
/// [`MAX_READ_BYTES`], with a message giving the limit and the size.
pub fn read_size_check(len: u64) -> (r: Result<(), String>)
    ensures
        r is Ok <==> len <= MAX_READ_BYTES,
        r matches Err(m) ==> m@ == "Arquivo excede o limite rígido de "@ + decimal(MAX_READ_BYTES as nat)
            + " bytes ("@ + decimal(len as nat)
            + " bytes reais). O Saco a Vácuo nativo do SODA recusa payloads >5MB para proteger a VRAM."@,
{
    if len <= MAX_READ_BYTES {
        return Ok(());
    }
    let mut m = to_chars("Arquivo excede o limite rígido de ");
    append_chars(&mut m, &decimal_exec(MAX_READ_BYTES));
    append_chars(&mut m, &to_chars(" bytes ("));
    append_chars(&mut m, &decimal_exec(len));
    append_chars(&mut m, &to_chars(" bytes reais). O Saco a Vácuo nativo do SODA recusa payloads >5MB para proteger a VRAM."));
    Err(from_chars(&m))
}

} // verus!
