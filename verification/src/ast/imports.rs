//! The local imports a source file declares, in several languages, and the
//! file a Rust module path names.
use vstd::prelude::*;
use crate::text::{
    trim, find, starts_with, starts_with_exec, eq_str, to_chars, from_chars, append_chars, trim_chars, find_from_exec, take_chars, skip_chars, trim_start_matches,
    trim_start_matches_chars,
};
use crate::pattern::{GroupView, regex_captures, captures_all, capture_views, match_view, group, group_exec};

verus! {

/// One declaration per match, its path in the first group that took part:
/// 1 a Rust `use crate::..`/`mod` path, 2 a quoted JS/TS `import`/`require`
/// target, 3 a Python `from .. import` module, 4 a C/C++ header directive.
pub open spec fn import_pattern() -> Seq<char> {
    "(?x)
            (?:
                \\b(?:use|mod)\\s+(?:crate|super|self)::([a-zA-Z0-9_]+
                    (?:(?:::)[a-zA-Z0-9_]+)*)
                |
                \\b(?:import|require)\\s*\\(?\\s*[\"']([^\"']+)[\"']
                |
                \\bfrom\\s+([\\.a-zA-Z0-9_][\\.a-zA-Z0-9_]*)\\s+import\\b
                |
                \\#\\s*inc[l]ude\\s*[\"<]([^\">]+)[\">]
            )
            "@
}

/// The path a match declares: the first of groups 1 to 4 that took part,
/// trimmed.
pub open spec fn import_literal(m: Seq<GroupView>) -> Option<Seq<char>> {
    match group(m, 1) {
        Some(g) => Some(trim(g.1)),
        None => match group(m, 2) {
            Some(g) => Some(trim(g.1)),
            None => match group(m, 3) {
                Some(g) => Some(trim(g.1)),
                None => match group(m, 4) {
                    Some(g) => Some(trim(g.1)),
                    None => None,
                },
            },
        },
    }
}

/// The declared paths of a list of matches, in order.
pub open spec fn import_literals_of(caps: Seq<Seq<GroupView>>) -> Seq<Seq<char>>
    decreases caps.len(),
{
    if caps.len() == 0 {
        Seq::empty()
    } else {
        let prev = import_literals_of(caps.drop_last());
        match import_literal(caps.last()) {
            Some(l) => prev.push(l),
            None => prev,
        }
    }
}

/// The declared paths of the matches `caps` of [`import_pattern`].
pub fn import_literals_from(caps: &Vec<Vec<Option<(usize, String)>>>) -> (r: Vec<String>)
    ensures
        r@.map_values(|s: String| s@) == import_literals_of(capture_views(caps@)),
{
    let ghost cv = capture_views(caps@);
    let mut out: Vec<String> = Vec::new();
    let mut i: usize = 0;
    while i < caps.len()
        invariant
            i <= caps.len(),
            cv == capture_views(caps@),
            out@.map_values(|s: String| s@) == import_literals_of(cv.take(i as int)),
        decreases caps.len() - i,
    {
        assert(cv.take(i + 1).drop_last() =~= cv.take(i as int));
        assert(cv.take(i + 1).last() == match_view(caps@[i as int]@));
        let ghost before = out@.map_values(|s: String| s@);
        let m = &caps[i];
        let g = match group_exec(m, 1) {
            Some(g) => Some(g),
            None => match group_exec(m, 2) {
                Some(g) => Some(g),
                None => match group_exec(m, 3) {
                    Some(g) => Some(g),
                    None => group_exec(m, 4),
                },
            },
        };
        match g {
            Some(g) => {
                let t = from_chars(&trim_chars(&to_chars(g.1.as_str())));
                out.push(t);
                assert(out@.map_values(|s: String| s@) =~= before.push(t@));
            },
            None => {},
        }
        i += 1;
    }
    assert(cv.take(caps.len() as int) =~= cv);
    out
}

/// The paths of the local imports that `content` declares, in order of
/// appearance (see [`import_pattern`]).
pub fn import_literals(content: &str) -> (r: Vec<String>)
    ensures
        match regex_captures(import_pattern(), content@) {
            Ok(caps) => r@.map_values(|s: String| s@) == import_literals_of(caps),
            Err(_) => r@.len() == 0,
        },
{
    let pattern = "(?x)
            (?:
                \\b(?:use|mod)\\s+(?:crate|super|self)::([a-zA-Z0-9_]+
                    (?:(?:::)[a-zA-Z0-9_]+)*)
                |
                \\b(?:import|require)\\s*\\(?\\s*[\"']([^\"']+)[\"']
                |
                \\bfrom\\s+([\\.a-zA-Z0-9_][\\.a-zA-Z0-9_]*)\\s+import\\b
                |
                \\#\\s*inc[l]ude\\s*[\"<]([^\">]+)[\">]
            )
            ";
    match captures_all(pattern, content) {
        Ok(caps) => import_literals_from(&caps),
        Err(_) => Vec::new(),
    }
}

// ---------------------------------------------------------------------------
// Rust module paths
// ---------------------------------------------------------------------------

/// `s` with every occurrence of `from` (non-empty) replaced by `to`, left
/// to right (`str::replace`).
pub open spec fn replace_all(s: Seq<char>, from: Seq<char>, to: Seq<char>) -> Seq<char>
    decreases s.len(),
{
    if from.len() == 0 {
        s
    } else {
        match find(s, from) {
            Some(k) => if 0 <= k && k + from.len() <= s.len() {
                s.take(k) + to + replace_all(s.skip(k + from.len()), from, to)
            } else {
                s
            },
            None => s,
        }
    }
}

/// The relative file path of a Rust module path: the leading `crate::`,
/// `super::` and `self::` dropped, and `::` turned into `/`.
pub open spec fn rust_module_path(raw: Seq<char>) -> Seq<char> {
    replace_all(
        trim_start_matches(trim_start_matches(trim_start_matches(trim(raw), "crate::"@), "super::"@), "self::"@),
        "::"@,
        "/"@,
    )
}

/// `str::replace` on characters (see [`replace_all`]).
pub fn replace_all_exec(s: &Vec<char>, from: &Vec<char>, to: &Vec<char>) -> (r: Vec<char>)
    ensures
        r@ == replace_all(s@, from@, to@),
    decreases s.len(),
{
    assert(s@.take(s.len() as int) =~= s@);
    if from.len() == 0 {
        return take_chars(s, s.len());
    }
    match find_from_exec(s, from, 0) {
        Some(k) => {
            proof {
                crate::text::lemma_find_from(s@, from@, 0);
            }
            let mut out = take_chars(s, k);
            append_chars(&mut out, to);
            let rest = skip_chars(s, k + from.len());
            let tail = replace_all_exec(&rest, from, to);
            append_chars(&mut out, &tail);
            out
        },
        None => take_chars(s, s.len()),
    }
}

/// The relative file path that a Rust module path names (see
/// [`rust_module_path`]): `crate::a::b` gives `a/b`.
pub fn rust_module_file(raw: &str) -> (r: String)
    ensures
        r@ == rust_module_path(raw@),
{
    let t = trim_chars(&to_chars(raw));
    let a = trim_start_matches_chars(&t, &to_chars("crate::"));
    let b = trim_start_matches_chars(&a, &to_chars("super::"));
    let c = trim_start_matches_chars(&b, &to_chars("self::"));
    let d = replace_all_exec(&c, &to_chars("::"), &to_chars("/"));
    from_chars(&d)
}

/// The files a Rust module path may live in, relative to the crate root:
/// `a/b.rs`, then `a/b/mod.rs`.
pub fn rust_module_candidates(raw: &str) -> (r: Vec<String>)
    ensures
        r@.len() == 2,
        r@[0]@ == rust_module_path(raw@) + ".rs"@,
        r@[1]@ == rust_module_path(raw@) + "/mod.rs"@,
{
    let base = rust_module_file(raw);
    let mut a = to_chars(base.as_str());
    append_chars(&mut a, &to_chars(".rs"));
    let mut b = to_chars(base.as_str());
    append_chars(&mut b, &to_chars("/mod.rs"));
    let mut r: Vec<String> = Vec::new();
    r.push(from_chars(&a));
    r.push(from_chars(&b));
    r
}


// ---------------------------------------------------------------------------
// How an import is resolved, by the importer's language
// ---------------------------------------------------------------------------

/// How the imports of a file are resolved, by its extension.
#[derive(PartialEq, Eq, Structural, Debug, Clone, Copy)]
pub enum ImportLanguage {
    /// `.rs`: module paths, looked up as `a/b.rs` then `a/b/mod.rs`.
    Rust,
    /// `.ts`, `.tsx`, `.js`, `.jsx`: relative specifiers only.
    Script,
    /// `.py`: relative modules, or modules at the root.
    Python,
    /// `.h`, `.c`, `.cpp`: header paths.
    Header,
    /// Anything else: imports are not followed.
    Other,
}

/// The language of a file with extension `ext`.
pub open spec fn import_language_of(ext: Seq<char>) -> ImportLanguage {
    if ext == "rs"@ {
        ImportLanguage::Rust
    } else if ext == "ts"@ || ext == "tsx"@ || ext == "js"@ || ext == "jsx"@ {
        ImportLanguage::Script
    } else if ext == "py"@ {
        ImportLanguage::Python
    } else if ext == "h"@ || ext == "c"@ || ext == "cpp"@ {
        ImportLanguage::Header
    } else {
        ImportLanguage::Other
    }
}

/// The language of a file with extension `ext` (`""` when it has none).
pub fn import_language(ext: &str) -> (r: ImportLanguage)
    ensures
        r == import_language_of(ext@),
{
    let e = to_chars(ext);
    if eq_str(&e, "rs") {
        ImportLanguage::Rust
    } else if eq_str(&e, "ts") || eq_str(&e, "tsx") || eq_str(&e, "js") || eq_str(&e, "jsx") {
        ImportLanguage::Script
    } else if eq_str(&e, "py") {
        ImportLanguage::Python
    } else if eq_str(&e, "h") || eq_str(&e, "c") || eq_str(&e, "cpp") {
        ImportLanguage::Header
    } else {
        ImportLanguage::Other
    }
}

/// A script import is followed only when it is relative: `./..` or `../..`.
pub fn is_relative_script_import(raw: &str) -> (b: bool)
    ensures
        b == (starts_with(trim(raw@), "./"@) || starts_with(trim(raw@), "../"@)),
{
    let t = trim_chars(&to_chars(raw));
    starts_with_exec(&t, &to_chars("./")) || starts_with_exec(&t, &to_chars("../"))
}

/// A Python import is relative when it starts with a dot; its module path
/// is then what follows the leading dots.
pub fn python_relative_module(raw: &str) -> (r: Option<String>)
    ensures
        starts_with(trim(raw@), "."@) ==> (r matches Some(m) && m@ == trim_start_matches(trim(raw@), "."@)),
        !starts_with(trim(raw@), "."@) ==> r is None,
{
    let t = trim_chars(&to_chars(raw));
    if starts_with_exec(&t, &to_chars(".")) {
        Some(from_chars(&trim_start_matches_chars(&t, &to_chars("."))))
    } else {
        None
    }
}

} // verus!
