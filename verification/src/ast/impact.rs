//! Blast radius: every file that imports a target, directly or through
//! other files, in breadth-first order.
use vstd::prelude::*;
use crate::ast::reach::{
    reach, ring, bfs_layers, lemma_reach_mono, lemma_ring_unique, lemma_some_ring, lemma_rings_empty_after,
};
use crate::sorting::{names, lex_lt, strictly_sorted};
use crate::text::{
    push_char, starts_with, ends_with, trim_start_matches, trim_start_matches_chars, to_chars, from_chars, append_chars,
    take_chars, starts_with_exec, ends_with_exec,
};
use crate::ast::imports::{replace_all, replace_all_exec};
use crate::paths::{plain_path, plain_strip};
use crate::pattern::{GroupView, regex_captures, captures_all, capture_views, match_view, group, group_exec};

verus! {

/// An import graph: each entry is a file and the files it imports.
pub type ImportGraph = Vec<(String, Vec<String>)>;

/// The result of a blast-radius analysis.
pub struct ImpactReport {
    /// The file analysed.
    pub target: String,
    /// The files that depend on it, nearest first, each distance in name order.
    pub affected: Vec<String>,
    /// The largest distance reached (`0` when nothing imports the target).
    pub depth: usize,
}

/// `n` imports `t`, directly or through other files.
pub open spec fn depends_on(g: Seq<(String, Vec<String>)>, t: Seq<char>, n: Seq<char>) -> bool {
    exists|k: nat| #[trigger] reach(g, false, t, k).contains(n)
}

/// `a` comes before `b` in a blast radius: nearer the target, or as near and
/// first by name.
pub open spec fn blast_before(g: Seq<(String, Vec<String>)>, t: Seq<char>, a: Seq<char>, b: Seq<char>) -> bool {
    forall|ka: nat, kb: nat|
        #![trigger ring(g, false, t, ka).contains(a), ring(g, false, t, kb).contains(b)]
        ring(g, false, t, ka).contains(a) && ring(g, false, t, kb).contains(b) ==> ka < kb || (ka == kb
            && lex_lt(a, b))
}

/// What a blast radius of `t` in `g` is: the dependants of `t`, and no
/// other name, nearest first and then by name.
pub open spec fn is_blast_radius(g: Seq<(String, Vec<String>)>, t: Seq<char>, r: Seq<Seq<char>>) -> bool {
    &&& forall|n: Seq<char>| r.contains(n) <==> n != t && depends_on(g, t, n)
    &&& forall|i: int, j: int| 0 <= i < j < r.len() ==> #[trigger] blast_before(g, t, r[i], r[j])
}

/// The blast radius of `t` and the largest distance reached.
fn blast_layers(graph: &ImportGraph, t: &String) -> (res: (Vec<String>, usize))
    ensures
        is_blast_radius(graph@, t@, names(res.0@)),
        ring(graph@, false, t@, res.1 as nat) != Set::<Seq<char>>::empty(),
        forall|k: nat| k > res.1 ==> #[trigger] ring(graph@, false, t@, k) == Set::<Seq<char>>::empty(),
{
    let layers = bfs_layers(graph, false, t, usize::MAX);
    let ghost g = graph@;
    let mut r: Vec<String> = Vec::new();
    let ghost mut lv: Seq<nat> = Seq::empty();
    let mut k: usize = 1;
    assert(names(r@).to_set() =~= Set::new(
        |n: Seq<char>| exists|q: nat| 1 <= q < k && #[trigger] ring(g, false, t@, q).contains(n),
    ));
    while k < layers.len()
        invariant
            1 <= k <= layers.len(),
            g == graph@,
            forall|q: int| 0 <= q < layers.len() ==> strictly_sorted(names(#[trigger] layers@[q]@)),
            forall|q: int|
                0 <= q < layers.len() ==> names(#[trigger] layers@[q]@).to_set() == ring(g, false, t@, q as nat),
            lv.len() == r.len(),
            forall|i: int| 0 <= i < lv.len() ==> 1 <= #[trigger] lv[i] < k && ring(g, false, t@, lv[i]).contains(
                names(r@)[i],
            ),
            forall|i: int, j: int| 0 <= i < j < lv.len() ==> #[trigger] lv[i] <= #[trigger] lv[j],
            forall|i: int, j: int|
                0 <= i < j < lv.len() && lv[i] == lv[j] ==> lex_lt(#[trigger] names(r@)[i], #[trigger] names(r@)[j]),
            names(r@).to_set() == Set::new(
                |n: Seq<char>| exists|q: nat| 1 <= q < k && #[trigger] ring(g, false, t@, q).contains(n),
            ),
        decreases layers.len() - k,
    {
        let layer = &layers[k];
        let ghost r0 = names(r@);
        let ghost lv0 = lv;
        let ghost ln = names(layer@);
        let mut a: usize = 0;
        while a < layer.len()
            invariant
                a <= layer.len(),
                ln == names(layer@),
                names(r@) == r0 + ln.take(a as int),
                lv == lv0 + Seq::new(a as nat, |i: int| k as nat),
            decreases layer.len() - a,
        {
            let ghost rp = r@;
            r.push(layer[a].clone());
            proof {
                assert(names(r@) =~= names(rp).push(layer@[a as int]@));
                assert(ln.take(a + 1) =~= ln.take(a as int).push(ln[a as int]));
                lv = lv.push(k as nat);
                assert(lv =~= lv0 + Seq::new((a + 1) as nat, |i: int| k as nat));
            }
            a += 1;
        }
        proof {
            assert(ln.take(ln.len() as int) =~= ln);
            let rn = names(r@);
            assert(ring(g, false, t@, k as nat) == ln.to_set());
            assert forall|i: int| 0 <= i < lv.len() implies 1 <= #[trigger] lv[i] < k + 1 && ring(
                g,
                false,
                t@,
                lv[i],
            ).contains(rn[i]) by {
                if i >= lv0.len() {
                    assert(rn[i] == ln[i - lv0.len()]);
                    assert(ln.to_set().contains(ln[i - lv0.len()]));
                } else {
                    assert(rn[i] == r0[i]);
                }
            }
            assert forall|i: int, j: int|
                0 <= i < j < lv.len() && lv[i] == lv[j] implies lex_lt(
                #[trigger] rn[i],
                #[trigger] rn[j],
            ) by {
                if i >= lv0.len() {
                    assert(rn[i] == ln[i - lv0.len()]);
                    assert(rn[j] == ln[j - lv0.len()]);
                } else if j < lv0.len() {
                    assert(rn[i] == r0[i]);
                    assert(rn[j] == r0[j]);
                } else {
                    assert(lv0[i] < k);
                }
            }
            assert forall|i: int, j: int| 0 <= i < j < lv.len() implies #[trigger] lv[i] <= #[trigger] lv[j] by {
                if j >= lv0.len() {
                    if i < lv0.len() {
                        assert(lv0[i] < k);
                    }
                }
            }
            let want = Set::new(
                |n: Seq<char>| exists|q: nat| 1 <= q < k + 1 && #[trigger] ring(g, false, t@, q).contains(n),
            );
            assert forall|n: Seq<char>| rn.to_set().contains(n) <==> want.contains(n) by {
                if rn.to_set().contains(n) {
                    let i = choose|i: int| 0 <= i < rn.len() && rn[i] == n;
                    assert(ring(g, false, t@, lv[i]).contains(n));
                }
                if want.contains(n) {
                    let q = choose|q: nat| 1 <= q < k + 1 && #[trigger] ring(g, false, t@, q).contains(n);
                    if q < k {
                        assert(r0.to_set().contains(n));
                        let i = choose|i: int| 0 <= i < r0.len() && r0[i] == n;
                        assert(rn[i] == n);
                    } else {
                        assert(ln.to_set().contains(n));
                        let i = choose|i: int| 0 <= i < ln.len() && ln[i] == n;
                        assert(rn[r0.len() + i] == n);
                    }
                }
            }
            assert(rn.to_set() =~= want);
        }
        k += 1;
    }
    let depth = layers.len() - 1;
    proof {
        let rn = names(r@);
        assert(layers.len() <= usize::MAX);
        assert(ring(g, false, t@, layers.len() as nat) == Set::<Seq<char>>::empty());
        assert forall|kk: nat| kk > depth implies #[trigger] ring(g, false, t@, kk) == Set::<Seq<char>>::empty() by {
            lemma_rings_empty_after(g, false, t@, layers.len() as nat, kk);
        }
        assert(names(layers@[depth as int]@).to_set().contains(names(layers@[depth as int]@)[0]));
        assert forall|n: Seq<char>| rn.contains(n) <==> n != t@ && depends_on(g, t@, n) by {
            if rn.contains(n) {
                assert(rn.to_set().contains(n));
                let q = choose|q: nat| 1 <= q < layers.len() && #[trigger] ring(g, false, t@, q).contains(n);
                assert(reach(g, false, t@, q).contains(n));
                if n == t@ {
                    lemma_reach_mono(g, false, t@, 0, (q - 1) as nat);
                }
            }
            if n != t@ && depends_on(g, t@, n) {
                let kk = choose|kk: nat| #[trigger] reach(g, false, t@, kk).contains(n);
                lemma_some_ring(g, false, t@, n, kk);
                let j = choose|j: nat| j <= kk && #[trigger] ring(g, false, t@, j).contains(n);
                if j >= layers.len() {
                    lemma_rings_empty_after(g, false, t@, layers.len() as nat, j);
                }
                assert(j != 0);
                assert(rn.to_set().contains(n));
            }
        }
        assert forall|i: int, j: int| 0 <= i < j < rn.len() implies #[trigger] blast_before(g, t@, rn[i], rn[j]) by {
            assert forall|ka: nat, kb: nat|
                ring(g, false, t@, ka).contains(rn[i]) && ring(g, false, t@, kb).contains(rn[j]) implies ka < kb
                || (ka == kb && lex_lt(rn[i], rn[j])) by {
                lemma_ring_unique(g, false, t@, rn[i], ka, lv[i]);
                lemma_ring_unique(g, false, t@, rn[j], kb, lv[j]);
            }
        }
    }
    (r, depth)
}

/// The files that import `target`, directly or through other files: those
/// at distance one first, then distance two, and so on, each distance in
/// name order.
pub fn blast_radius(graph: &ImportGraph, target: &str) -> (r: Vec<String>)
    ensures
        is_blast_radius(graph@, target@, names(r@)),
{
    let t = target.to_owned();
    blast_layers(graph, &t).0
}

/// The blast radius of `target` together with the largest distance at which
/// some file was found.
pub fn impact_report(graph: &ImportGraph, target: &str) -> (report: ImpactReport)
    ensures
        report.target@ == target@,
        is_blast_radius(graph@, target@, names(report.affected@)),
        ring(graph@, false, target@, report.depth as nat) != Set::<Seq<char>>::empty(),
        forall|k: nat| k > report.depth ==> #[trigger] ring(graph@, false, target@, k) == Set::<Seq<char>>::empty(),
        report.affected@.len() == 0 <==> report.depth == 0,
{
    let t = target.to_owned();
    let (affected, depth) = blast_layers(graph, &t);
    proof {
        lemma_depth_zero_iff_no_dependants(graph@, t@, names(affected@), depth as nat);
    }
    ImpactReport { target: t, affected, depth }
}

/// A blast radius is empty exactly when the last non-empty distance is zero.
proof fn lemma_depth_zero_iff_no_dependants(g: Seq<(String, Vec<String>)>, t: Seq<char>, r: Seq<Seq<char>>, d: nat)
    requires
        is_blast_radius(g, t, r),
        ring(g, false, t, d) != Set::<Seq<char>>::empty(),
        forall|k: nat| k > d ==> #[trigger] ring(g, false, t, k) == Set::<Seq<char>>::empty(),
    ensures
        r.len() == 0 <==> d == 0,
{
    if d > 0 {
        let rg = ring(g, false, t, d);
        assert(exists|x: Seq<char>| rg.contains(x)) by {
            if !(exists|x: Seq<char>| rg.contains(x)) {
                assert(rg =~= Set::<Seq<char>>::empty());
            }
        }
        let n = choose|x: Seq<char>| rg.contains(x);
        assert(reach(g, false, t, d).contains(n));
        lemma_reach_mono(g, false, t, 0, (d - 1) as nat);
        assert(n != t);
        assert(depends_on(g, t, n));
        assert(r.contains(n));
    } else if r.len() > 0 {
        let n = r[0];
        assert(r.contains(n));
        let k = choose|k: nat| #[trigger] reach(g, false, t, k).contains(n);
        lemma_some_ring(g, false, t, n, k);
        let j = choose|j: nat| j <= k && #[trigger] ring(g, false, t, j).contains(n);
        if j > 0 {
            assert(ring(g, false, t, j) == Set::<Seq<char>>::empty());
        }
        assert(false);
    }
}

/// `p` with every backslash turned into a slash.
pub open spec fn forward_slashes(p: Seq<char>) -> Seq<char> {
    p.map_values(|c: char| if c == '\\' { '/' } else { c })
}

/// `p` with every backslash turned into a slash (`str::replace('\\', "/")`).
pub fn to_forward_slashes(p: &str) -> (r: String)
    ensures
        r@ == forward_slashes(p@),
{
    let cs = crate::text::to_chars(p);
    let mut r = String::new();
    let mut i: usize = 0;
    while i < cs.len()
        invariant
            i <= cs.len(),
            cs@ == p@,
            r@ == forward_slashes(p@).take(i as int),
        decreases cs.len() - i,
    {
        let c = if cs[i] == '\\' { '/' } else { cs[i] };
        push_char(&mut r, c);
        assert(r@ =~= forward_slashes(p@).take(i + 1));
        i += 1;
    }
    assert(forward_slashes(p@).take(cs.len() as int) =~= forward_slashes(p@));
    r
}

/// `Path::strip_prefix`: `file` relative to `root`, or `None` when `root` is
/// not a prefix of `file` component by component. How paths split in
/// general depends on the platform; the contract states what every platform
/// agrees on for two plain paths (see [`plain_path`]): the text after `root`
/// and its slash when `root`'s components start `file`'s (the empty text
/// when they are the same path), else nothing.
#[verifier::external_body]
fn strip_path_prefix(file: &str, root: &str) -> (r: Option<String>)
    ensures
        plain_path(file@) && plain_path(root@) ==> match r {
            Some(s) => plain_strip(file@, root@) == Some(s@),
            None => plain_strip(file@, root@) is None,
        },
{
    match std::path::Path::new(file).strip_prefix(root) {
        Ok(p) => Some(p.to_string_lossy().into_owned()),
        Err(_) => None,
    }
}

/// The graph key of a file: the part of its path below the root when the
/// root was stripped from it (`stripped`), else the whole path, written with
/// forward slashes.
pub open spec fn relative_form(file: Seq<char>, stripped: Option<Seq<char>>) -> Seq<char> {
    match stripped {
        Some(rel) => forward_slashes(rel),
        None => forward_slashes(file),
    }
}

/// The graph key of `file` given what stripping the root from it gave.
pub fn relative_form_of(file: &str, stripped: Option<String>) -> (r: String)
    ensures
        r@ == relative_form(file@, match stripped {
            Some(s) => Some(s@),
            None => None,
        }),
{
    match stripped {
        Some(rel) => to_forward_slashes(rel.as_str()),
        None => to_forward_slashes(file),
    }
}

/// `file` relative to `root` when `root` is a prefix of it, else `file`
/// itself, written with forward slashes. For two plain paths the prefix is
/// taken component by component, as [`plain_strip`] states.
pub fn canonicalize_path(root: &str, file: &str) -> (r: String)
    ensures
        exists|stripped: Option<Seq<char>>| r@ == relative_form(file@, stripped),
        plain_path(file@) && plain_path(root@) ==> r@ == relative_form(file@, plain_strip(file@, root@)),
{
    let stripped = strip_path_prefix(file, root);
    relative_form_of(file, stripped)
}


// ---------------------------------------------------------------------------
// The Rust imports of one file
// ---------------------------------------------------------------------------

/// A Rust `use crate::..`/`use super::..`/`use self::..` path (group 1) or
/// a `mod` name (group 2), at the start of a line.
pub open spec fn rust_import_pattern() -> Seq<char> {
    "(?m)^(?:\\s*)(?:use\\s+(?:crate|super|self)::([a-zA-Z0-9_:{}+]*)|mod\\s+([a-zA-Z0-9_]+))"@
}

/// `s` without its trailing `/`s.
pub open spec fn trim_end_slashes(s: Seq<char>) -> Seq<char>
    decreases s.len(),
{
    if s.len() > 0 && s.last() == '/' {
        trim_end_slashes(s.drop_last())
    } else {
        s
    }
}

/// The graph key an imported path names: `crate::` dropped, `::` turned
/// into `/`, trailing `/` dropped and `.rs` added; nothing for an empty
/// path or one that still starts with `super::` or `self::`.
pub open spec fn rust_import_key(raw: Seq<char>) -> Option<Seq<char>> {
    let n = trim_end_slashes(replace_all(trim_start_matches(raw, "crate::"@), "::"@, "/"@));
    if n.len() == 0 || starts_with(n, "super::"@) || starts_with(n, "self::"@) {
        None
    } else if ends_with(n, ".rs"@) {
        Some(n)
    } else {
        Some(n + ".rs"@)
    }
}

/// The graph keys the matches of [`rust_import_pattern`] name, in order.
pub open spec fn rust_import_keys(caps: Seq<Seq<GroupView>>) -> Seq<Seq<char>>
    decreases caps.len(),
{
    if caps.len() == 0 {
        Seq::empty()
    } else {
        let prev = rust_import_keys(caps.drop_last());
        let m = caps.last();
        let raw = match group(m, 1) {
            Some(g) => Some(g.1),
            None => match group(m, 2) {
                Some(g) => Some(g.1),
                None => None,
            },
        };
        match raw {
            Some(r) => match rust_import_key(r) {
                Some(k) => prev.push(k),
                None => prev,
            },
            None => prev,
        }
    }
}

fn trim_end_slashes_exec(s: &Vec<char>) -> (r: Vec<char>)
    ensures
        r@ == trim_end_slashes(s@),
{
    let mut n = s.len();
    assert(s@.take(s.len() as int) =~= s@);
    while n > 0 && s[n - 1] == '/'
        invariant
            n <= s.len(),
            trim_end_slashes(s@) == trim_end_slashes(s@.take(n as int)),
        decreases n,
    {
        assert(s@.take(n as int).drop_last() =~= s@.take(n - 1));
        n -= 1;
    }
    assert(s@.take(s.len() as int) =~= s@);
    take_chars(s, n)
}

fn rust_import_key_exec(raw: &str) -> (r: Option<String>)
    ensures
        match r {
            Some(k) => rust_import_key(raw@) == Some(k@),
            None => rust_import_key(raw@) is None,
        },
{
    let a = trim_start_matches_chars(&to_chars(raw), &to_chars("crate::"));
    let b = replace_all_exec(&a, &to_chars("::"), &to_chars("/"));
    let n = trim_end_slashes_exec(&b);
    if n.len() == 0 || starts_with_exec(&n, &to_chars("super::")) || starts_with_exec(&n, &to_chars("self::")) {
        None
    } else if ends_with_exec(&n, &to_chars(".rs")) {
        Some(from_chars(&n))
    } else {
        let mut k = n;
        append_chars(&mut k, &to_chars(".rs"));
        Some(from_chars(&k))
    }
}

/// The graph keys named by `caps`, the matches of [`rust_import_pattern`].
pub fn rust_import_keys_from(caps: &Vec<Vec<Option<(usize, String)>>>) -> (r: Vec<String>)
    ensures
        r@.map_values(|s: String| s@) == rust_import_keys(capture_views(caps@)),
{
    let ghost cv = capture_views(caps@);
    let mut out: Vec<String> = Vec::new();
    let mut i: usize = 0;
    while i < caps.len()
        invariant
            i <= caps.len(),
            cv == capture_views(caps@),
            out@.map_values(|s: String| s@) == rust_import_keys(cv.take(i as int)),
        decreases caps.len() - i,
    {
        assert(cv.take(i + 1).drop_last() =~= cv.take(i as int));
        assert(cv.take(i + 1).last() == match_view(caps@[i as int]@));
        let ghost before = out@.map_values(|s: String| s@);
        let raw = match group_exec(&caps[i], 1) {
            Some(g) => Some(g.1),
            None => match group_exec(&caps[i], 2) {
                Some(g) => Some(g.1),
                None => None,
            },
        };
        match raw {
            Some(r) => match rust_import_key_exec(r.as_str()) {
                Some(k) => {
                    out.push(k);
                    assert(out@.map_values(|s: String| s@) =~= before.push(k@));
                },
                None => {},
            },
            None => {},
        }
        i += 1;
    }
    assert(cv.take(caps.len() as int) =~= cv);
    out
}

/// The graph keys of the Rust files that `content` imports: one per `use`
/// of a crate path or `mod` declaration, in order.
pub fn rust_file_imports(content: &str) -> (r: Vec<String>)
    ensures
        match regex_captures(rust_import_pattern(), content@) {
            Ok(caps) => r@.map_values(|s: String| s@) == rust_import_keys(caps),
            Err(_) => r@.len() == 0,
        },
{
    let pattern = "(?m)^(?:\\s*)(?:use\\s+(?:crate|super|self)::([a-zA-Z0-9_:{}+]*)|mod\\s+([a-zA-Z0-9_]+))";
    match captures_all(pattern, content) {
        Ok(caps) => rust_import_keys_from(&caps),
        Err(_) => Vec::new(),
    }
}

} // verus!
