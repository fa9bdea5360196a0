//! Line searches over a walk of the workspace: the lines a regular
//! expression matches (the search tool), and the lines that hold a symbol
//! as a whole word (the symbol tool's last resort), with a cap on the hits.
use vstd::prelude::*;
use crate::text::{lines, trim, starts_with, views, to_chars, from_chars, append_chars, lines_exec, trim_chars, eq_str, starts_with_exec};
use crate::pattern::{regex_matches, matches_anywhere};

verus! {

/// The symbol walk stops adding hits once this many were found.
pub const SYMBOL_HIT_LIMIT: usize = 50;

/// The search walk stops adding hits once this many were found.
pub const SEARCH_HIT_LIMIT: usize = 100;

/// The characters that have a meaning of their own in a regular expression.
pub open spec fn is_regex_meta(c: char) -> bool {
    c == '\\' || c == '.' || c == '+' || c == '*' || c == '?' || c == '(' || c == ')' || c == '|' || c == '['
        || c == ']' || c == '{' || c == '}' || c == '^' || c == '$' || c == '#' || c == '&' || c == '-' || c == '~'
}

/// `symbol` escaped so that a regular expression matches it literally: each
/// meta character is preceded by a backslash, every other character is
/// copied.
pub open spec fn regex_escaped(symbol: Seq<char>) -> Seq<char>
    decreases symbol.len(),
{
    if symbol.len() == 0 {
        Seq::empty()
    } else {
        let c = symbol.last();
        regex_escaped(symbol.drop_last()) + (if is_regex_meta(c) {
            seq!['\\', c]
        } else {
            seq![c]
        })
    }
}

/// `regex::escape`, which puts a backslash before each meta character
/// (`regex_syntax::is_meta_character`) and copies the rest.
#[verifier::external_body]
fn escape_for_regex(symbol: &str) -> (r: String)
    ensures
        r@ == regex_escaped(symbol@),
{
    regex::escape(symbol)
}

/// The pattern that finds `symbol` as a whole word.
pub open spec fn word_pattern(symbol: Seq<char>) -> Seq<char> {
    "\\b"@ + regex_escaped(symbol) + "\\b"@
}

/// Directories and files the walk skips: hidden ones, build output and
/// dependencies.
pub open spec fn skipped_by_symbol_walk(name: Seq<char>) -> bool {
    starts_with(name, "."@) || name == "target"@ || name == "node_modules"@
}

/// Whether the walk skips an entry of this name.
pub fn is_skipped_by_symbol_walk(name: &str) -> (b: bool)
    ensures
        b == skipped_by_symbol_walk(name@),
{
    let n = to_chars(name);
    starts_with_exec(&n, &to_chars(".")) || eq_str(&n, "target") || eq_str(&n, "node_modules")
}

/// The hits among lines `i..` of `ls` (numbered from 1, trimmed), `found`
/// hits having been made before: a hit that brings the count to `limit` is
/// the last.
pub open spec fn line_hits_from(ls: Seq<Seq<char>>, pattern: Seq<char>, i: int, found: int, limit: int) -> Seq<(int, Seq<char>)>
    decreases ls.len() - i,
{
    if i < 0 || i >= ls.len() {
        Seq::empty()
    } else if regex_matches(pattern, ls[i]) == Ok::<bool, Seq<char>>(true) {
        let h = (i + 1, trim(ls[i]));
        if found + 1 >= limit {
            seq![h]
        } else {
            seq![h] + line_hits_from(ls, pattern, i + 1, found + 1, limit)
        }
    } else {
        line_hits_from(ls, pattern, i + 1, found, limit)
    }
}

/// The hits of one file for a pattern.
pub open spec fn pattern_hits(content: Seq<char>, pattern: Seq<char>, found: int, limit: int) -> Seq<(int, Seq<char>)> {
    line_hits_from(lines(content), pattern, 0, found, limit)
}

/// The hits of one file for a symbol.
pub open spec fn symbol_hits(content: Seq<char>, symbol: Seq<char>, found: int) -> Seq<(int, Seq<char>)> {
    pattern_hits(content, word_pattern(symbol), found, SYMBOL_HIT_LIMIT as int)
}

/// The lines of `content` that `pattern` matches, each with its number
/// (from 1) and trimmed text, after `found` hits made in earlier files:
/// the file's first hit is always kept, and no hit follows the one that
/// brings the count to `limit`. A pattern that does not compile matches
/// nothing.
pub fn pattern_line_hits(content: &str, pattern: &str, found: usize, limit: usize) -> (r: Vec<(usize, String)>)
    ensures
        r@.map_values(|h: (usize, String)| (h.0 as int, h.1@)) == pattern_hits(content@, pattern@, found as int, limit as int),
{
    let ls = lines_exec(&to_chars(content));
    let ghost lv = views(ls@);
    let ghost p = pattern@;
    let mut out: Vec<(usize, String)> = Vec::new();
    let mut count: usize = found;
    let mut i: usize = 0;
    assert(out@.map_values(|h: (usize, String)| (h.0 as int, h.1@)) + line_hits_from(lv, p, 0, found as int, limit as int) =~= line_hits_from(lv, p, 0, found as int, limit as int));
    while i < ls.len()
        invariant
            i <= ls.len(),
            lv == views(ls@),
            lv == lines(content@),
            pattern@ == p,
            count >= found,
            out@.len() == count - found,
            out@.len() <= i,
            line_hits_from(lv, p, 0, found as int, limit as int) == out@.map_values(|h: (usize, String)| (h.0 as int, h.1@))
                + line_hits_from(lv, p, i as int, count as int, limit as int),
        decreases ls.len() - i,
    {
        let line = from_chars(&ls[i]);
        let ghost before = out@.map_values(|h: (usize, String)| (h.0 as int, h.1@));
        let hit = match matches_anywhere(pattern, line.as_str()) {
            Ok(b) => b,
            Err(_) => false,
        };
        if hit {
            let t = from_chars(&trim_chars(&ls[i]));
            out.push((i + 1, t));
            assert(out@.map_values(|h: (usize, String)| (h.0 as int, h.1@)) =~= before.push((i + 1, trim(lv[i as int]))));
            if count >= limit || limit - count <= 1 {
                assert(out@.map_values(|h: (usize, String)| (h.0 as int, h.1@)) =~= before + line_hits_from(lv, p, i as int, count as int, limit as int));
                return out;
            }
            count = count + 1;
            assert(before + line_hits_from(lv, p, i as int, count - 1, limit as int) =~= out@.map_values(|h: (usize, String)| (h.0 as int, h.1@)) + line_hits_from(lv, p, i + 1, count as int, limit as int));
        }
        i += 1;
    }
    assert(out@.map_values(|h: (usize, String)| (h.0 as int, h.1@)) + line_hits_from(lv, p, i as int, count as int, limit as int) =~= out@.map_values(|h: (usize, String)| (h.0 as int, h.1@)));
    out
}

/// The lines of `content` that hold `symbol` as a whole word (see
/// [`pattern_line_hits`], with the symbol cap).
pub fn symbol_line_hits(content: &str, symbol: &str, found: usize) -> (r: Vec<(usize, String)>)
    ensures
        r@.map_values(|h: (usize, String)| (h.0 as int, h.1@)) == symbol_hits(content@, symbol@, found as int),
{
    let esc = escape_for_regex(symbol);
    let mut pat = to_chars("\\b");
    append_chars(&mut pat, &to_chars(esc.as_str()));
    append_chars(&mut pat, &to_chars("\\b"));
    let pattern = from_chars(&pat);
    pattern_line_hits(content, pattern.as_str(), found, SYMBOL_HIT_LIMIT)
}

/// The hits of the search tool in one file, `found` hits having been made
/// in earlier files (see [`pattern_line_hits`], with the search cap).
pub fn search_line_hits(content: &str, pattern: &str, found: usize) -> (r: Vec<(usize, String)>)
    ensures
        r@.map_values(|h: (usize, String)| (h.0 as int, h.1@)) == pattern_hits(content@, pattern@, found as int, SEARCH_HIT_LIMIT as int),
{
    pattern_line_hits(content, pattern, found, SEARCH_HIT_LIMIT)
}


/// Law of the symbol walk: it skips exactly the hidden names (starting with
/// `.`), `target` and `node_modules`; and it keeps at most 50 symbol hits
/// and 100 search hits.
pub proof fn law_symbol_walk_limits(name: Seq<char>)
    ensures
        skipped_by_symbol_walk(name) <==> (starts_with(name, "."@) || name == "target"@ || name == "node_modules"@),
        SYMBOL_HIT_LIMIT == 50,
        SEARCH_HIT_LIMIT == 100,
{
}

} // verus!
