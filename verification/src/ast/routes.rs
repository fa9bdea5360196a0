//! The IPC contract between backend commands and frontend invocations.
use vstd::prelude::*;
use crate::sorting::{names, strictly_sorted, insert_name, contains_name};
use crate::text::{lines, contains, to_chars, from_chars, contains_exec, line_count_exec, eq_str};
use crate::pattern::{
    GroupView, regex_captures, captures_all, capture_views, match_view, group, group_exec, utf8_width, char_at_byte,
    char_index_of_byte, width_exec,
};

verus! {

/// A command or an invocation found in a file.
pub struct RouteEntry {
    /// The command's name.
    pub name: String,
    /// The file it was found in.
    pub file: String,
    /// Its line, from 1 (0 when not known).
    pub line: usize,
}

/// Commands, invocations, and the names on one side only.
pub struct RouteReport {
    pub backend: Vec<RouteEntry>,
    pub frontend: Vec<RouteEntry>,
    /// Commands no invocation names, in name order.
    pub orphans: Vec<String>,
    /// Invocations of commands that do not exist, in name order.
    pub dead_calls: Vec<String>,
}

/// The names of a list of entries.
pub open spec fn entry_names(v: Seq<RouteEntry>) -> Set<Seq<char>> {
    Set::new(|n: Seq<char>| exists|i: int| 0 <= i < v.len() && #[trigger] v[i].name@ == n)
}

/// The sorted names of `a` that `b` does not hold.
fn names_missing(a: &Vec<RouteEntry>, b: &Vec<RouteEntry>) -> (r: Vec<String>)
    ensures
        strictly_sorted(names(r@)),
        names(r@).to_set() == entry_names(a@).difference(entry_names(b@)),
{
    let mut bn: Vec<String> = Vec::new();
    let mut j: usize = 0;
    while j < b.len()
        invariant
            j <= b.len(),
            names(bn@).to_set() == entry_names(b@.take(j as int)),
            strictly_sorted(names(bn@)),
        decreases b.len() - j,
    {
        let ghost before = names(bn@).to_set();
        insert_name(&mut bn, b[j].name.clone());
        proof {
            assert forall|n: Seq<char>| entry_names(b@.take(j + 1)).contains(n) <==> before.insert(b@[j as int].name@).contains(n) by {
                if entry_names(b@.take(j + 1)).contains(n) {
                    let i = choose|i: int| 0 <= i < j + 1 && #[trigger] b@.take(j + 1)[i].name@ == n;
                    if i < j {
                        assert(b@.take(j as int)[i].name@ == n);
                    }
                }
                if before.contains(n) {
                    let i = choose|i: int| 0 <= i < j && #[trigger] b@.take(j as int)[i].name@ == n;
                    assert(b@.take(j + 1)[i].name@ == n);
                }
                if n == b@[j as int].name@ {
                    assert(b@.take(j + 1)[j as int].name@ == n);
                }
            }
            assert(names(bn@).to_set() =~= entry_names(b@.take(j + 1)));
        }
        j += 1;
    }
    assert(b@.take(b.len() as int) =~= b@);
    let mut r: Vec<String> = Vec::new();
    let mut i: usize = 0;
    while i < a.len()
        invariant
            i <= a.len(),
            names(bn@).to_set() == entry_names(b@),
            strictly_sorted(names(r@)),
            names(r@).to_set() == entry_names(a@.take(i as int)).difference(entry_names(b@)),
        decreases a.len() - i,
    {
        let ghost before = names(r@).to_set();
        let n = &a[i].name;
        let found = contains_name(&bn, n);
        if !found {
            insert_name(&mut r, n.clone());
        }
        proof {
            assert(names(bn@).contains(n@) == names(bn@).to_set().contains(n@));
            let want = entry_names(a@.take(i + 1)).difference(entry_names(b@));
            assert forall|x: Seq<char>| names(r@).to_set().contains(x) <==> want.contains(x) by {
                if entry_names(a@.take(i + 1)).contains(x) {
                    let k = choose|k: int| 0 <= k < i + 1 && #[trigger] a@.take(i + 1)[k].name@ == x;
                    if k < i {
                        assert(a@.take(i as int)[k].name@ == x);
                    }
                }
                if entry_names(a@.take(i as int)).contains(x) {
                    let k = choose|k: int| 0 <= k < i && #[trigger] a@.take(i as int)[k].name@ == x;
                    assert(a@.take(i + 1)[k].name@ == x);
                }
                if x == n@ {
                    assert(a@.take(i + 1)[i as int].name@ == x);
                }
            }
            assert(names(r@).to_set() =~= want);
        }
        i += 1;
    }
    assert(a@.take(a.len() as int) =~= a@);
    r
}

/// The report of `backend` commands and `frontend` invocations: both lists
/// as found, and the names found on one side only, each in name order.
pub fn build_route_report(backend: Vec<RouteEntry>, frontend: Vec<RouteEntry>) -> (r: RouteReport)
    ensures
        r.backend@ == backend@,
        r.frontend@ == frontend@,
        strictly_sorted(names(r.orphans@)),
        names(r.orphans@).to_set() == entry_names(backend@).difference(entry_names(frontend@)),
        strictly_sorted(names(r.dead_calls@)),
        names(r.dead_calls@).to_set() == entry_names(frontend@).difference(entry_names(backend@)),
{
    let orphans = names_missing(&backend, &frontend);
    let dead_calls = names_missing(&frontend, &backend);
    RouteReport { backend, frontend, orphans, dead_calls }
}


// ---------------------------------------------------------------------------
// Finding commands and invocations in one file
// ---------------------------------------------------------------------------

/// A backend command: a `#[tauri::command]` attribute line followed by a
/// function whose name is group 1.
pub open spec fn tauri_command_pattern() -> Seq<char> {
    "(?xm)
            ^\\s*\\#\\s*\\[\\s*tauri::command\\s*(?:\\([^)]*\\))?\\s*\\][^\\n]*\\n
            \\s*(?:pub\\s+)?(?:async\\s+)?fn\\s+([a-z][a-z0-9_]*)\\s*\\("@
}

/// A quoted command name, in single quotes (group 1) or double quotes
/// (group 2).
pub open spec fn svelte_invoke_pattern() -> Seq<char> {
    "(?:'(?P<cmd_s>[a-z][a-z0-9_]*)'|\"(?P<cmd_d>[a-z][a-z0-9_]*)\")"@
}

/// The view of an entry: name, file and line.
pub open spec fn route_view(e: RouteEntry) -> (Seq<char>, Seq<char>, int) {
    (e.name@, e.file@, e.line as int)
}

/// The views of a list of entries.
pub open spec fn route_views(v: Seq<RouteEntry>) -> Seq<(Seq<char>, Seq<char>, int)> {
    v.map_values(|e: RouteEntry| route_view(e))
}

/// The line (from 1) on which byte offset `b` of `s` falls: how many lines
/// the text before it holds; 0 when `b` does not start a character.
pub open spec fn line_at_byte(s: Seq<char>, b: int) -> int {
    match char_at_byte(s, b) {
        Some(k) => lines(s.take(k)).len() as int,
        None => 0,
    }
}

/// The backend commands that the matches of [`tauri_command_pattern`]
/// name, in order.
pub open spec fn backend_entries(file: Seq<char>, content: Seq<char>, caps: Seq<Seq<GroupView>>) -> Seq<(Seq<char>, Seq<char>, int)>
    decreases caps.len(),
{
    if caps.len() == 0 {
        Seq::empty()
    } else {
        let prev = backend_entries(file, content, caps.drop_last());
        match group(caps.last(), 1) {
            Some(g) => prev.push((g.1, file, line_at_byte(content, g.0 as int))),
            None => prev,
        }
    }
}

/// The first character of the window of at most `n` bytes that ends at
/// character `k` of `s` (only whole characters).
pub open spec fn window_start(s: Seq<char>, k: int, n: int) -> int
    decreases k,
{
    if k <= 0 || k > s.len() || utf8_width(s[k - 1]) > n {
        k
    } else {
        window_start(s, k - 1, n - utf8_width(s[k - 1]))
    }
}

/// Whether `invoke(` occurs in the 32 bytes before byte offset `b`.
pub open spec fn invoked_at(s: Seq<char>, b: int) -> bool {
    match char_at_byte(s, b) {
        Some(k) => contains(s.subrange(window_start(s, k, 32), k), "invoke("@),
        None => false,
    }
}

/// The quoted name of a match: group 1, else group 2.
pub open spec fn quoted_name(m: Seq<GroupView>) -> GroupView {
    match group(m, 1) {
        Some(g) => Some(g),
        None => group(m, 2),
    }
}

/// The frontend invocations that the matches of [`svelte_invoke_pattern`]
/// name, in order: those with `invoke(` shortly before the quote.
pub open spec fn frontend_entries(file: Seq<char>, content: Seq<char>, caps: Seq<Seq<GroupView>>) -> Seq<(Seq<char>, Seq<char>, int)>
    decreases caps.len(),
{
    if caps.len() == 0 {
        Seq::empty()
    } else {
        let prev = frontend_entries(file, content, caps.drop_last());
        match quoted_name(caps.last()) {
            Some(g) => if invoked_at(content, g.0 as int) {
                prev.push((g.1, file, line_at_byte(content, g.0 as int)))
            } else {
                prev
            },
            None => prev,
        }
    }
}

fn line_at_byte_exec(s: &Vec<char>, b: usize) -> (n: usize)
    ensures
        n == line_at_byte(s@, b as int),
{
    match char_index_of_byte(s, b) {
        Some(k) => {
            proof {
                lemma_char_at_byte_range(s@, b as int);
            }
            line_count_exec(s, k)
        },
        None => 0,
    }
}

proof fn lemma_char_at_byte_range(s: Seq<char>, b: int)
    ensures
        char_at_byte(s, b) matches Some(k) ==> 0 <= k <= s.len(),
{
}

fn window_start_exec(s: &Vec<char>, k: usize) -> (j: usize)
    requires
        k <= s.len(),
    ensures
        j == window_start(s@, k as int, 32),
        j <= k,
{
    let mut j = k;
    let mut room: usize = 32;
    while j > 0
        invariant
            j <= k <= s.len(),
            room <= 32,
            window_start(s@, k as int, 32) == window_start(s@, j as int, room as int),
        decreases j,
    {
        let w = width_exec(s[j - 1]);
        if w > room {
            return j;
        }
        room = room - w;
        j = j - 1;
    }
    j
}

fn invoked_at_exec(s: &Vec<char>, b: usize) -> (r: bool)
    ensures
        r == invoked_at(s@, b as int),
{
    match char_index_of_byte(s, b) {
        Some(k) => {
            proof {
                lemma_char_at_byte_range(s@, b as int);
            }
            let j = window_start_exec(s, k);
            let mut w: Vec<char> = Vec::new();
            let mut i = j;
            while i < k
                invariant
                    j <= i <= k <= s.len(),
                    w@ == s@.subrange(j as int, i as int),
                decreases k - i,
            {
                w.push(s[i]);
                assert(w@ =~= s@.subrange(j as int, i + 1));
                i += 1;
            }
            contains_exec(&w, &to_chars("invoke("))
        },
        None => false,
    }
}

fn entry_of(name: &String, file: &str, line: usize) -> (e: RouteEntry)
    ensures
        route_view(e) == (name@, file@, line as int),
{
    RouteEntry { name: name.clone(), file: from_chars(&to_chars(file)), line }
}

/// The backend commands named by `caps`, the matches of
/// [`tauri_command_pattern`] over `content`.
pub fn backend_routes_from(file: &str, content: &str, caps: &Vec<Vec<Option<(usize, String)>>>) -> (r: Vec<RouteEntry>)
    ensures
        route_views(r@) == backend_entries(file@, content@, capture_views(caps@)),
{
    let s = to_chars(content);
    let ghost cv = capture_views(caps@);
    let mut out: Vec<RouteEntry> = Vec::new();
    let mut i: usize = 0;
    while i < caps.len()
        invariant
            i <= caps.len(),
            s@ == content@,
            cv == capture_views(caps@),
            route_views(out@) == backend_entries(file@, content@, cv.take(i as int)),
        decreases caps.len() - i,
    {
        assert(cv.take(i + 1).drop_last() =~= cv.take(i as int));
        assert(cv.take(i + 1).last() == match_view(caps@[i as int]@));
        let ghost before = route_views(out@);
        match group_exec(&caps[i], 1) {
            Some(g) => {
                let line = line_at_byte_exec(&s, g.0);
                let e = entry_of(&g.1, file, line);
                out.push(e);
                assert(route_views(out@) =~= before.push(route_view(e)));
            },
            None => {},
        }
        i += 1;
    }
    assert(cv.take(caps.len() as int) =~= cv);
    out
}

/// The backend commands declared in `content`, the text of `file`: each
/// function marked `#[tauri::command]`, with its line.
pub fn backend_routes(file: &str, content: &str) -> (r: Vec<RouteEntry>)
    ensures
        match regex_captures(tauri_command_pattern(), content@) {
            Ok(caps) => route_views(r@) == backend_entries(file@, content@, caps),
            Err(_) => r@.len() == 0,
        },
{
    let pattern = "(?xm)
            ^\\s*\\#\\s*\\[\\s*tauri::command\\s*(?:\\([^)]*\\))?\\s*\\][^\\n]*\\n
            \\s*(?:pub\\s+)?(?:async\\s+)?fn\\s+([a-z][a-z0-9_]*)\\s*\\(";
    match captures_all(pattern, content) {
        Ok(caps) => backend_routes_from(file, content, &caps),
        Err(_) => Vec::new(),
    }
}

/// The frontend invocations named by `caps`, the matches of
/// [`svelte_invoke_pattern`] over `content`.
pub fn frontend_routes_from(file: &str, content: &str, caps: &Vec<Vec<Option<(usize, String)>>>) -> (r: Vec<RouteEntry>)
    ensures
        route_views(r@) == frontend_entries(file@, content@, capture_views(caps@)),
{
    let s = to_chars(content);
    let ghost cv = capture_views(caps@);
    let mut out: Vec<RouteEntry> = Vec::new();
    let mut i: usize = 0;
    while i < caps.len()
        invariant
            i <= caps.len(),
            s@ == content@,
            cv == capture_views(caps@),
            route_views(out@) == frontend_entries(file@, content@, cv.take(i as int)),
        decreases caps.len() - i,
    {
        assert(cv.take(i + 1).drop_last() =~= cv.take(i as int));
        assert(cv.take(i + 1).last() == match_view(caps@[i as int]@));
        let ghost before = route_views(out@);
        let name = match group_exec(&caps[i], 1) {
            Some(g) => Some(g),
            None => group_exec(&caps[i], 2),
        };
        match name {
            Some(g) => {
                if invoked_at_exec(&s, g.0) {
                    let line = line_at_byte_exec(&s, g.0);
                    let e = entry_of(&g.1, file, line);
                    out.push(e);
                    assert(route_views(out@) =~= before.push(route_view(e)));
                }
            },
            None => {},
        }
        i += 1;
    }
    assert(cv.take(caps.len() as int) =~= cv);
    out
}

/// The frontend invocations in `content`, the text of `file`: each quoted
/// command name with `invoke(` in the 32 bytes before it, with its line.
pub fn frontend_routes(file: &str, content: &str) -> (r: Vec<RouteEntry>)
    ensures
        match regex_captures(svelte_invoke_pattern(), content@) {
            Ok(caps) => route_views(r@) == frontend_entries(file@, content@, caps),
            Err(_) => r@.len() == 0,
        },
{
    let pattern = "(?:'(?P<cmd_s>[a-z][a-z0-9_]*)'|\"(?P<cmd_d>[a-z][a-z0-9_]*)\")";
    match captures_all(pattern, content) {
        Ok(caps) => frontend_routes_from(file, content, &caps),
        Err(_) => Vec::new(),
    }
}


// ---------------------------------------------------------------------------
// Which files a route scan reads
// ---------------------------------------------------------------------------

/// Directories and files the route scan skips: build output, vendored
/// code, the Git directory, the tool's own data and dependencies.
pub open spec fn skipped_by_route_scan(name: Seq<char>) -> bool {
    name == "target"@ || name == "vendor"@ || name == "third_party"@ || name == ".git"@ || name == ".souls_cache"@
        || name == ".souls_sandbox"@ || name == ".souls_data"@ || name == "node_modules"@ || name == "dist"@
}

/// Whether the route scan skips an entry of this name.
pub fn is_skipped_by_route_scan(name: &str) -> (b: bool)
    ensures
        b == skipped_by_route_scan(name@),
{
    let n = to_chars(name);
    if eq_str(&n, "target") || eq_str(&n, "vendor") || eq_str(&n, "third_party") || eq_str(&n, ".git") {
        return true;
    }
    eq_str(&n, ".souls_cache") || eq_str(&n, ".souls_sandbox") || eq_str(&n, ".souls_data") || eq_str(&n, "node_modules")
        || eq_str(&n, "dist")
}

/// What a file holds for the route scan, by its extension.
#[derive(PartialEq, Eq, Structural, Debug, Clone, Copy)]
pub enum RouteSide {
    /// A Rust file: backend commands.
    Backend,
    /// A Svelte, TypeScript or JavaScript file: frontend invocations.
    Frontend,
    /// Any other file: nothing.
    Neither,
}

/// The side of a file with extension `ext`.
pub open spec fn route_side_of(ext: Seq<char>) -> RouteSide {
    if ext == "rs"@ {
        RouteSide::Backend
    } else if ext == "svelte"@ || ext == "ts"@ || ext == "tsx"@ || ext == "js"@ || ext == "jsx"@ {
        RouteSide::Frontend
    } else {
        RouteSide::Neither
    }
}

/// The side of a file with extension `ext` (`""` when it has none).
pub fn route_side(ext: &str) -> (r: RouteSide)
    ensures
        r == route_side_of(ext@),
{
    let e = to_chars(ext);
    if eq_str(&e, "rs") {
        RouteSide::Backend
    } else if eq_str(&e, "svelte") || eq_str(&e, "ts") || eq_str(&e, "tsx") || eq_str(&e, "js") || eq_str(&e, "jsx") {
        RouteSide::Frontend
    } else {
        RouteSide::Neither
    }
}


/// Law of the route scan: it skips exactly `target`, `vendor`,
/// `third_party`, `.git`, `.souls_cache`, `.souls_sandbox`, `.souls_data`,
/// `node_modules` and `dist`; it reads Rust files as the backend and
/// Svelte, TypeScript and JavaScript files as the frontend, and nothing else.
pub proof fn law_route_scan_files(name: Seq<char>, ext: Seq<char>)
    ensures
        skipped_by_route_scan(name) <==> (name == "target"@ || name == "vendor"@ || name == "third_party"@ || name
            == ".git"@ || name == ".souls_cache"@ || name == ".souls_sandbox"@ || name == ".souls_data"@ || name
            == "node_modules"@ || name == "dist"@),
        (route_side_of(ext) == RouteSide::Backend) <==> ext == "rs"@,
        (route_side_of(ext) == RouteSide::Frontend) <==> (ext == "svelte"@ || ext == "ts"@ || ext == "tsx"@ || ext
            == "js"@ || ext == "jsx"@),
{
    reveal_strlit("rs");
    reveal_strlit("svelte");
    reveal_strlit("ts");
    reveal_strlit("tsx");
    reveal_strlit("js");
    reveal_strlit("jsx");
    assert("ts"@[0] != "rs"@[0] && "js"@[0] != "rs"@[0]);
    assert("svelte"@.len() != "rs"@.len() && "tsx"@.len() != "rs"@.len() && "jsx"@.len() != "rs"@.len());
    assert("ts"@ != "rs"@ && "js"@ != "rs"@ && "svelte"@ != "rs"@ && "tsx"@ != "rs"@ && "jsx"@ != "rs"@);
}

} // verus!
