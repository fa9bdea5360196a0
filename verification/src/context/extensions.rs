//! The canonical tables of source-file extensions and of directories that no
//! workspace scan enters.
use vstd::prelude::*;
use crate::text::{eq_str, to_chars};

verus! {

/// The source-code extensions (without the dot) that scans index.
pub open spec fn source_extension_list() -> Seq<Seq<char>> {
    seq![
        "rs"@, "ts"@, "tsx"@, "js"@, "jsx"@, "py"@, "go"@, "java"@, "c"@, "cpp"@, "h"@, "rb"@,
        "cs"@, "kt"@, "swift"@, "php"@, "svelte"@, "vue"@, "yaml"@, "yml"@, "toml"@, "json"@,
    ]
}

/// The directory names that scans never enter.
pub open spec fn excluded_dir_list() -> Seq<Seq<char>> {
    seq![
        ".git"@, ".hg"@, ".svn"@, ".idea"@, ".vscode"@, ".cargo"@, ".souls_cache"@,
        ".souls_data"@, ".souls_scratchpad"@, "node_modules"@, "target"@, "vendor"@, "deps"@,
        "build"@, "_build"@, "dist"@, "dist-newstyle"@, "__pycache__"@, ".venv"@, "venv"@,
        ".pytest_cache"@, "__snapshots__"@,
    ]
}

/// The source-code extensions, in table order.
pub fn source_extensions() -> (r: Vec<&'static str>)
    ensures
        r@.map_values(|s: &str| s@) == source_extension_list(),
{
    let r = vec![
        "rs", "ts", "tsx", "js", "jsx", "py", "go", "java", "c", "cpp", "h", "rb", "cs", "kt",
        "swift", "php", "svelte", "vue", "yaml", "yml", "toml", "json",
    ];
    assert(r@.map_values(|s: &str| s@) =~= source_extension_list());
    r
}

/// The excluded directory names, in table order.
pub fn exclude_dirs() -> (r: Vec<&'static str>)
    ensures
        r@.map_values(|s: &str| s@) == excluded_dir_list(),
{
    let r = vec![
        ".git", ".hg", ".svn", ".idea", ".vscode", ".cargo", ".souls_cache", ".souls_data",
        ".souls_scratchpad", "node_modules", "target", "vendor", "deps", "build", "_build", "dist",
        "dist-newstyle", "__pycache__", ".venv", "venv", ".pytest_cache", "__snapshots__",
    ];
    assert(r@.map_values(|s: &str| s@) =~= excluded_dir_list());
    r
}

/// Whether `name` is one of `table`.
fn table_contains(table: &Vec<&'static str>, name: &Vec<char>) -> (b: bool)
    ensures
        b == table@.map_values(|s: &str| s@).contains(name@),
{
    let ghost t = table@.map_values(|s: &str| s@);
    let mut i: usize = 0;
    while i < table.len()
        invariant
            i <= table.len(),
            t == table@.map_values(|s: &str| s@),
            forall|j: int| 0 <= j < i ==> t[j] != name@,
        decreases table.len() - i,
    {
        if eq_str(name, table[i]) {
            assert(t[i as int] == name@);
            return true;
        }
        i += 1;
    }
    false
}

/// `true` when `ext` (without the dot) is a source-code extension.
pub fn is_source_ext(ext: &str) -> (b: bool)
    ensures
        b == source_extension_list().contains(ext@),
{
    let e = to_chars(ext);
    table_contains(&source_extensions(), &e)
}

/// `name` without its leading dots (`str::trim_start_matches('.')`).
pub open spec fn trim_leading_dots(s: Seq<char>) -> Seq<char>
    decreases s.len(),
{
    if s.len() > 0 && s[0] == '.' {
        trim_leading_dots(s.drop_first())
    } else {
        s
    }
}

/// Whether a directory called `name` is excluded from every scan.
pub open spec fn is_excluded_dir_spec(name: Seq<char>) -> bool {
    excluded_dir_list().contains(name) || (name.len() > 0 && name[0] == '.'
        && excluded_dir_list().contains(trim_leading_dots(name)))
}

fn trim_leading_dots_exec(s: &Vec<char>) -> (r: Vec<char>)
    ensures
        r@ == trim_leading_dots(s@),
{
    let mut a: usize = 0;
    assert(s@.skip(0) =~= s@);
    while a < s.len() && s[a] == '.'
        invariant
            a <= s.len(),
            trim_leading_dots(s@) == trim_leading_dots(s@.skip(a as int)),
        decreases s.len() - a,
    {
        assert(s@.skip(a as int).drop_first() =~= s@.skip(a + 1));
        a += 1;
    }
    assert(a < s.len() ==> s@.skip(a as int)[0] == s@[a as int]);
    let mut r: Vec<char> = Vec::new();
    let mut k = a;
    while k < s.len()
        invariant
            a <= k <= s.len(),
            r@ =~= s@.subrange(a as int, k as int),
        decreases s.len() - k,
    {
        r.push(s[k]);
        k += 1;
    }
    assert(r@ =~= s@.skip(a as int));
    r
}

/// `true` when a directory called `name` (a name, not a path) must be left out
/// of every scan. A name with leading dots is also looked up without them.
pub fn is_excluded_dir(name: &str) -> (b: bool)
    ensures
        b == is_excluded_dir_spec(name@),
{
    let n = to_chars(name);
    let table = exclude_dirs();
    if n.len() > 0 && n[0] == '.' {
        let stripped = trim_leading_dots_exec(&n);
        if table_contains(&table, &stripped) || table_contains(&table, &n) {
            return true;
        }
    }
    table_contains(&table, &n)
}


/// Law of the scan tables: the indexed source extensions and the excluded
/// directories are exactly these, in this order.
pub proof fn law_scan_tables()
    ensures
        source_extension_list() == seq![
            "rs"@, "ts"@, "tsx"@, "js"@, "jsx"@, "py"@, "go"@, "java"@, "c"@, "cpp"@, "h"@, "rb"@,
            "cs"@, "kt"@, "swift"@, "php"@, "svelte"@, "vue"@, "yaml"@, "yml"@, "toml"@, "json"@,
        ],
        excluded_dir_list() == seq![
            ".git"@, ".hg"@, ".svn"@, ".idea"@, ".vscode"@, ".cargo"@, ".souls_cache"@,
            ".souls_data"@, ".souls_scratchpad"@, "node_modules"@, "target"@, "vendor"@, "deps"@,
            "build"@, "_build"@, "dist"@, "dist-newstyle"@, "__pycache__"@, ".venv"@, "venv"@,
            ".pytest_cache"@, "__snapshots__"@,
        ],
{
}

} // verus!
