//! The four zones of an inference prompt, and the barrier that keeps prose
//! compressors away from source code.
use vstd::prelude::*;
use crate::text::{trim, ends_with, contains, to_chars, trim_chars, ends_with_exec, contains_exec};

verus! {

/// A JSON value (`serde_json::Value`), carried through unread.
#[verifier::external_type_specification]
#[verifier::external_body]
pub struct ExJsonValue(serde_json::Value);

/// The zones of a prompt: system prompt, tool schemas, materialized state
/// and the dynamic suffix.
pub struct ContextStitcher {
    pub z1_system_prompt: String,
    pub z2_tool_schemas: Vec<serde_json::Value>,
    pub z3_materialized_state: String,
    pub z4_dynamic_suffix: String,
}

/// Source-file endings that prose compressors may never touch.
pub open spec fn source_ending(p: Seq<char>) -> bool {
    ends_with(p, ".rs"@) || ends_with(p, ".ts"@) || ends_with(p, ".js"@) || ends_with(p, ".py"@)
        || ends_with(p, ".c"@) || ends_with(p, ".cpp"@) || ends_with(p, ".h"@) || ends_with(p, ".hpp"@)
        || ends_with(p, ".cs"@) || ends_with(p, ".go"@) || ends_with(p, ".java"@) || ends_with(p, ".svelte"@)
        || ends_with(p, ".html"@) || ends_with(p, ".css"@) || ends_with(p, ".json"@) || ends_with(p, ".toml"@)
        || ends_with(p, ".yaml"@) || ends_with(p, ".yml"@) || ends_with(p, ".sql"@) || ends_with(p, ".sh"@)
        || ends_with(p, ".ps1"@)
}

/// Markers of code inside a text.
pub open spec fn code_marker(p: Seq<char>) -> bool {
    contains(p, "fn "@) || contains(p, "struct "@) || contains(p, "impl "@) || contains(p, "pub mod"@)
        || contains(p, "class "@) || contains(p, "def "@)
}

/// Whether a prose compressor may process this path (or block of text):
/// never a source file, never text that reads as code.
pub open spec fn prose_compressor_allowed(s: Seq<char>) -> bool {
    !source_ending(trim(s)) && !code_marker(trim(s))
}

fn ends_with_str(n: &Vec<char>, lit: &str) -> (b: bool)
    ensures
        b == ends_with(n@, lit@),
{
    ends_with_exec(n, &to_chars(lit))
}

fn contains_str(n: &Vec<char>, lit: &str) -> (b: bool)
    ensures
        b == contains(n@, lit@),
{
    contains_exec(n, &to_chars(lit))
}

fn has_source_ending(p: &Vec<char>) -> (b: bool)
    ensures
        b == source_ending(p@),
{
    if ends_with_str(p, ".rs") || ends_with_str(p, ".ts") || ends_with_str(p, ".js") || ends_with_str(p, ".py") {
        return true;
    }
    if ends_with_str(p, ".c") || ends_with_str(p, ".cpp") || ends_with_str(p, ".h") || ends_with_str(p, ".hpp") {
        return true;
    }
    if ends_with_str(p, ".cs") || ends_with_str(p, ".go") || ends_with_str(p, ".java") || ends_with_str(p, ".svelte") {
        return true;
    }
    if ends_with_str(p, ".html") || ends_with_str(p, ".css") || ends_with_str(p, ".json") || ends_with_str(p, ".toml") {
        return true;
    }
    ends_with_str(p, ".yaml") || ends_with_str(p, ".yml") || ends_with_str(p, ".sql") || ends_with_str(p, ".sh")
        || ends_with_str(p, ".ps1")
}

impl ContextStitcher {
    /// A prompt made of the four zones.
    pub fn new(
        z1_system_prompt: String,
        z2_tool_schemas: Vec<serde_json::Value>,
        z3_materialized_state: String,
        z4_dynamic_suffix: String,
    ) -> (r: Self)
        ensures
            r.z1_system_prompt == z1_system_prompt,
            r.z2_tool_schemas == z2_tool_schemas,
            r.z3_materialized_state == z3_materialized_state,
            r.z4_dynamic_suffix == z4_dynamic_suffix,
    {
        ContextStitcher { z1_system_prompt, z2_tool_schemas, z3_materialized_state, z4_dynamic_suffix }
    }

    /// The dynamic suffix, as it is.
    pub fn z4_dynamic(&self) -> (r: &str)
        ensures
            r@ == self.z4_dynamic_suffix@,
    {
        self.z4_dynamic_suffix.as_str()
    }

    /// Whether a prose compressor may process `path_or_content`: not when,
    /// trimmed, it ends with a source-file extension, nor when it holds a
    /// code marker (`fn `, `struct `, `impl `, `pub mod`, `class `, `def `).
    pub fn is_prose_compressor_allowed_for_path(path_or_content: &str) -> (b: bool)
        ensures
            b == prose_compressor_allowed(path_or_content@),
    {
        let p = trim_chars(&to_chars(path_or_content));
        if has_source_ending(&p) {
            return false;
        }
        if contains_str(&p, "fn ") || contains_str(&p, "struct ") || contains_str(&p, "impl ") || contains_str(
            &p,
            "pub mod",
        ) || contains_str(&p, "class ") || contains_str(&p, "def ") {
            return false;
        }
        true
    }
}

} // verus!
