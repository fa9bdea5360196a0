//! The per-file result of a batch read.
use vstd::prelude::*;
use crate::text::{to_chars, from_chars, append_chars};

verus! {

/// The compaction of one file of a batch.
pub struct FileCompaction {
    /// The path as given.
    pub filepath: String,
    /// The compacted content (empty on failure).
    pub compacted: String,
    /// UTF-8 length of the content read.
    pub original_bytes: usize,
    /// UTF-8 length of the compacted content.
    pub compacted_bytes: usize,
    /// Why the file could not be read, if it could not.
    pub error: Option<String>,
}

impl FileCompaction {
    /// A file that was read and compacted.
    pub fn done(filepath: String, raw: &str, compacted: String) -> (r: Self)
        ensures
            r.filepath == filepath,
            r.compacted == compacted,
            r.original_bytes == vstd::utf8::encode_utf8(raw@).len() as usize,
            r.compacted_bytes == vstd::utf8::encode_utf8(compacted@).len() as usize,
            r.error is None,
    {
        let original_bytes = raw.len();
        let compacted_bytes = compacted.as_str().len();
        FileCompaction { filepath, compacted, original_bytes, compacted_bytes, error: None }
    }

    /// A file that could not be read: nothing compacted, the reason kept
    /// as `read_error: <reason>`.
    pub fn failed(filepath: String, reason: &str) -> (r: Self)
        ensures
            r.filepath == filepath,
            r.compacted@ == Seq::<char>::empty(),
            r.original_bytes == 0,
            r.compacted_bytes == 0,
            r.error matches Some(e) && e@ == "read_error: "@ + reason@,
    {
        let mut e = to_chars("read_error: ");
        append_chars(&mut e, &to_chars(reason));
        FileCompaction {
            filepath,
            compacted: String::new(),
            original_bytes: 0,
            compacted_bytes: 0,
            error: Some(from_chars(&e)),
        }
    }
}

} // verus!
