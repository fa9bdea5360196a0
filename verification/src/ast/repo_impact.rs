//! Blast radius over a multilingual import graph, and over the in-memory
//! call graph.
use vstd::prelude::*;
use crate::ast::reach::{
    points_to, entry_link, step, reach, ring, bfs_layers, copy_names, lemma_ring_next, lemma_ring_unique,
    lemma_rings_empty_after, lemma_ring_in_reach, lemma_some_ring,
};
use crate::ast::impact::{forward_slashes, to_forward_slashes};
use crate::sorting::{
    names, strictly_sorted, insert_name, contains_name, pair_names, pairs_strictly_sorted, insert_pair,
    lemma_pair_total, lemma_lex_irreflexive, lex_lt,
};

verus! {

/// Default depth of the reverse walk.
pub const DEFAULT_MAX_DEPTH: u8 = 3;

/// Hard ceiling of the walk's depth.
pub const MAX_DEPTH_CEILING: u8 = 10;

/// Hard ceiling of the number of files a scan reads.
pub const MAX_FILES_SCAN: usize = 50_000;

/// A directed edge: `from` imports (or calls) `to`.
pub struct ImpactEdge {
    pub from: String,
    pub to: String,
}

/// The nodes and edges of an impact graph.
pub struct ImpactGraphPayload {
    pub nodes: Vec<String>,
    pub edges: Vec<ImpactEdge>,
}

/// The blast-radius report of a file or symbol.
pub struct ImpactReport {
    pub target_file: String,
    pub total_impacted_files: usize,
    pub max_depth_reached: u8,
    pub impact_graph: ImpactGraphPayload,
}

/// Why an impact analysis failed.
pub enum RepoImpactError {
    /// The root or the target path is unusable.
    InvalidPath(String),
    /// The target file does not exist.
    TargetNotFound(String),
    /// The repository could not be scanned.
    Io(String),
}

impl RepoImpactError {
    /// The error's message.
    pub fn message(&self) -> (r: String)
        ensures
            r@ == match self {
                RepoImpactError::InvalidPath(m) => seq!['c', 'a', 'm', 'i', 'n', 'h', 'o', ' ', 'i', 'n', 'v', 'á', 'l', 'i', 'd', 'o', ':', ' '] + m@,
                RepoImpactError::TargetNotFound(m) => seq!['a', 'r', 'q', 'u', 'i', 'v', 'o', '-', 'a', 'l', 'v', 'o', ' ', 'n', 'ã', 'o', ' ', 'e', 'n', 'c', 'o', 'n', 't', 'r', 'a', 'd', 'o', ':', ' '] + m@,
                RepoImpactError::Io(m) => seq!['f', 'a', 'l', 'h', 'a', ' ', 'd', 'e', ' ', 'I', '/', 'O', ' ', 'a', 'o', ' ', 'v', 'a', 'r', 'r', 'e', 'r', ' ', 'r', 'e', 'p', 'o', 's', 'i', 't', 'ó', 'r', 'i', 'o', ':', ' '] + m@,
            },
    {
        let (head, m) = match self {
            RepoImpactError::InvalidPath(m) => ("caminho inválido: ", m),
            RepoImpactError::TargetNotFound(m) => ("arquivo-alvo não encontrado: ", m),
            RepoImpactError::Io(m) => ("falha de I/O ao varrer repositório: ", m),
        };
        proof {
            reveal_strlit("caminho inválido: ");
            reveal_strlit("arquivo-alvo não encontrado: ");
            reveal_strlit("falha de I/O ao varrer repositório: ");
        }
        let mut r = head.to_owned();
        let cs = crate::text::to_chars(m.as_str());
        let ghost h = r@;
        let mut i: usize = 0;
        while i < cs.len()
            invariant
                i <= cs.len(),
                cs@ == m@,
                r@ == h + cs@.take(i as int),
            decreases cs.len() - i,
        {
            crate::text::push_char(&mut r, cs[i]);
            assert(cs@.take(i + 1) == cs@.take(i as int).push(cs@[i as int]));
            i += 1;
        }
        assert(cs@.take(cs.len() as int) == cs@);
        r
    }
}

/// The views of a list of edges.
pub open spec fn edge_names(v: Seq<ImpactEdge>) -> Seq<(Seq<char>, Seq<char>)> {
    v.map_values(|e: ImpactEdge| (e.from@, e.to@))
}

/// The keys of a graph's entries.
pub open spec fn keys(g: Seq<(String, Vec<String>)>) -> Seq<Seq<char>> {
    g.map_values(|e: (String, Vec<String>)| e.0@)
}

/// The names listed by some entry before `i`, or by entry `i` before `j`.
spec fn listed_before(g: Seq<(String, Vec<String>)>, i: int, j: int) -> Set<Seq<char>> {
    Set::new(
        |b: Seq<char>|
            exists|i2: int, j2: int|
                (i2 < i || (i2 == i && j2 < j)) && #[trigger] entry_link(g, i2, j2, g[i2].0@, b),
    )
}

/// The nodes of the entries before `i` that list `b`.
spec fn listers_before(g: Seq<(String, Vec<String>)>, b: Seq<char>, i: int) -> Set<Seq<char>> {
    Set::new(|a: Seq<char>| exists|i2: int, j2: int| i2 < i && #[trigger] entry_link(g, i2, j2, a, b))
}

/// The import graph with every edge turned around: `B -> {A, C}` when `A`
/// and `C` import `B`. Keys come in name order, once each, and each holds
/// its importers in name order.
pub fn transpose_graph(graph: &Vec<(String, Vec<String>)>) -> (t: Vec<(String, Vec<String>)>)
    ensures
        strictly_sorted(keys(t@)),
        forall|i: int| 0 <= i < t.len() ==> strictly_sorted(names((#[trigger] t@[i]).1@)) && t@[i].1.len() > 0,
        forall|a: Seq<char>, b: Seq<char>| points_to(t@, a, b) <==> points_to(graph@, b, a),
{
    let ghost g = graph@;
    // The distinct importees, in order.
    let mut ks: Vec<String> = Vec::new();
    let mut i: usize = 0;
    assert(names(ks@).to_set() =~= listed_before(g, 0, 0));
    while i < graph.len()
        invariant
            i <= graph.len(),
            g == graph@,
            strictly_sorted(names(ks@)),
            names(ks@).to_set() == listed_before(g, i as int, 0),
        decreases graph.len() - i,
    {
        let list = &graph[i].1;
        let mut j: usize = 0;
        while j < list.len()
            invariant
                i < graph.len(),
                g == graph@,
                *list == g[i as int].1,
                j <= list.len(),
                strictly_sorted(names(ks@)),
                names(ks@).to_set() == listed_before(g, i as int, j as int),
            decreases list.len() - j,
        {
            insert_name(&mut ks, list[j].clone());
            proof {
                let lb = listed_before(g, i as int, j as int);
                let la = listed_before(g, i as int, j + 1);
                assert(entry_link(g, i as int, j as int, g[i as int].0@, list@[j as int]@));
                assert forall|b: Seq<char>| la.contains(b) <==> lb.insert(list@[j as int]@).contains(b) by {
                    if la.contains(b) {
                        let (i2, j2) = choose|i2: int, j2: int|
                            (i2 < i || (i2 == i && j2 < j + 1)) && #[trigger] entry_link(g, i2, j2, g[i2].0@, b);
                        if i2 < i || j2 < j {
                            assert(lb.contains(b));
                        }
                    }
                    if lb.contains(b) {
                        let (i2, j2) = choose|i2: int, j2: int|
                            (i2 < i || (i2 == i && j2 < j)) && #[trigger] entry_link(g, i2, j2, g[i2].0@, b);
                        assert(entry_link(g, i2, j2, g[i2].0@, b));
                    }
                }
                assert(la =~= lb.insert(list@[j as int]@));
            }
            j += 1;
        }
        proof {
            assert forall|b: Seq<char>|
                listed_before(g, i as int, list.len() as int).contains(b) <==> listed_before(g, i + 1, 0).contains(b) by {
                if listed_before(g, i + 1, 0).contains(b) {
                    let (i2, j2) = choose|i2: int, j2: int|
                        (i2 < i + 1 || (i2 == i + 1 && j2 < 0)) && #[trigger] entry_link(g, i2, j2, g[i2].0@, b);
                    assert(entry_link(g, i2, j2, g[i2].0@, b));
                }
                if listed_before(g, i as int, list.len() as int).contains(b) {
                    let (i2, j2) = choose|i2: int, j2: int|
                        (i2 < i || (i2 == i && j2 < list.len())) && #[trigger] entry_link(g, i2, j2, g[i2].0@, b);
                    assert(entry_link(g, i2, j2, g[i2].0@, b));
                }
            }
            assert(listed_before(g, i as int, list.len() as int) =~= listed_before(g, i + 1, 0));
        }
        i += 1;
    }
    // For each importee, its importers.
    let mut t: Vec<(String, Vec<String>)> = Vec::new();
    let mut p: usize = 0;
    while p < ks.len()
        invariant
            p <= ks.len(),
            g == graph@,
            strictly_sorted(names(ks@)),
            names(ks@).to_set() == listed_before(g, g.len() as int, 0),
            t.len() == p,
            forall|q: int| 0 <= q < p ==> (#[trigger] t@[q]).0@ == ks@[q]@,
            forall|q: int| 0 <= q < p ==> strictly_sorted(names((#[trigger] t@[q]).1@)),
            forall|q: int|
                0 <= q < p ==> names((#[trigger] t@[q]).1@).to_set() == listers_before(g, ks@[q]@, g.len() as int),
        decreases ks.len() - p,
    {
        let key = &ks[p];
        let mut importers: Vec<String> = Vec::new();
        let mut e: usize = 0;
        assert(names(importers@).to_set() =~= listers_before(g, key@, 0));
        while e < graph.len()
            invariant
                e <= graph.len(),
                g == graph@,
                p < ks.len(),
                *key == ks@[p as int],
                strictly_sorted(names(importers@)),
                names(importers@).to_set() == listers_before(g, key@, e as int),
            decreases graph.len() - e,
        {
            let listed = contains_name(&graph[e].1, key);
            if listed {
                insert_name(&mut importers, graph[e].0.clone());
            }
            proof {
                let before = listers_before(g, key@, e as int);
                let after = listers_before(g, key@, e + 1);
                assert forall|a: Seq<char>| after.contains(a) <==> names(importers@).to_set().contains(a) by {
                    if after.contains(a) {
                        let (i2, j2) = choose|i2: int, j2: int| i2 < e + 1 && #[trigger] entry_link(g, i2, j2, a, key@);
                        if i2 < e {
                            assert(before.contains(a));
                        } else {
                            assert(names(g[e as int].1@)[j2] == key@);
                        }
                    }
                    if before.contains(a) {
                        let (i2, j2) = choose|i2: int, j2: int| i2 < e && #[trigger] entry_link(g, i2, j2, a, key@);
                        assert(entry_link(g, i2, j2, a, key@));
                    }
                    if listed && a == g[e as int].0@ {
                        let j2 = choose|j2: int| 0 <= j2 < names(g[e as int].1@).len() && names(g[e as int].1@)[j2] == key@;
                        assert(entry_link(g, e as int, j2, a, key@));
                    }
                }
                assert(after =~= names(importers@).to_set());
            }
            e += 1;
        }
        proof {
            assert(names(ks@)[p as int] == key@);
            assert(names(ks@).to_set().contains(key@));
            let (i2, j2) = choose|i2: int, j2: int|
                (i2 < g.len() || (i2 == g.len() && j2 < 0)) && #[trigger] entry_link(g, i2, j2, g[i2].0@, key@);
            assert(listers_before(g, key@, g.len() as int).contains(g[i2].0@));
            if importers.len() == 0 {
                assert(names(importers@).to_set() =~= Set::<Seq<char>>::empty());
            }
        }
        t.push((key.clone(), importers));
        p += 1;
    }
    proof {
        assert(keys(t@) =~= names(ks@));
        assert forall|i: int| 0 <= i < t.len() implies strictly_sorted(names((#[trigger] t@[i]).1@)) && t@[i].1.len() > 0 by {
            let key = ks@[i]@;
            assert(names(ks@)[i] == key);
            assert(names(ks@).to_set().contains(key));
            let (i2, j2) = choose|i2: int, j2: int|
                (i2 < g.len() || (i2 == g.len() && j2 < 0)) && #[trigger] entry_link(g, i2, j2, g[i2].0@, key);
            assert(listers_before(g, key, g.len() as int).contains(g[i2].0@));
            if t@[i].1.len() == 0 {
                assert(names(t@[i].1@).to_set() =~= Set::<Seq<char>>::empty());
            }
        }
        assert forall|a: Seq<char>, b: Seq<char>| points_to(t@, a, b) <==> points_to(graph@, b, a) by {
            if points_to(t@, a, b) {
                let (q, r) = choose|q: int, r: int| #[trigger] entry_link(t@, q, r, a, b);
                assert(names(t@[q].1@)[r] == b);
                assert(names(t@[q].1@).to_set().contains(b));
                let (i2, j2) = choose|i2: int, j2: int| i2 < g.len() && #[trigger] entry_link(g, i2, j2, b, ks@[q]@);
                assert(entry_link(g, i2, j2, b, a));
            }
            if points_to(graph@, b, a) {
                let (i2, j2) = choose|i2: int, j2: int| #[trigger] entry_link(g, i2, j2, b, a);
                assert(entry_link(g, i2, j2, g[i2].0@, a));
                assert(listed_before(g, g.len() as int, 0).contains(a));
                let q = choose|q: int| 0 <= q < names(ks@).len() && names(ks@)[q] == a;
                assert(listers_before(g, a, g.len() as int).contains(b));
                assert(names(t@[q].1@).to_set().contains(b));
                let r = choose|r: int| 0 <= r < names(t@[q].1@).len() && names(t@[q].1@)[r] == b;
                assert(entry_link(t@, q, r, a, b));
            }
        }
    }
    t
}


/// The edges `(child, parent)` of a map from each child to its parent.
pub open spec fn graph_of(m: Map<Seq<char>, Seq<char>>) -> Set<(Seq<char>, Seq<char>)> {
    Set::new(|e: (Seq<char>, Seq<char>)| m.dom().contains(e.0) && m[e.0] == e.1)
}

/// The children of `order` that lie in `child`, each once, in the order a
/// breadth-first queue meets them; for each, an edge to the first parent
/// that listed it.
fn children_layer(
    tg: &Vec<(String, Vec<String>)>,
    order: &Vec<String>,
    child: &Vec<String>,
    edges: &mut Vec<(String, String)>,
    Ghost(parents): Ghost<Map<Seq<char>, Seq<char>>>,
) -> (res: (Vec<String>, Ghost<Map<Seq<char>, Seq<char>>>))
    requires
        pairs_strictly_sorted(pair_names(old(edges)@)),
        pair_names(old(edges)@).to_set() == graph_of(parents),
        forall|y: Seq<char>| parents.dom().contains(y) ==> !names(child@).to_set().contains(y),
    ensures
        names(res.0@).no_duplicates(),
        names(res.0@).to_set() == Set::new(
            |y: Seq<char>|
                names(child@).to_set().contains(y) && exists|p: Seq<char>|
                    #[trigger] names(order@).to_set().contains(p) && points_to(tg@, p, y),
        ),
        res.1@.dom() == parents.dom() + names(res.0@).to_set(),
        forall|y: Seq<char>| #[trigger] parents.dom().contains(y) ==> res.1@[y] == parents[y],
        forall|y: Seq<char>|
            #[trigger] names(res.0@).to_set().contains(y) ==> names(order@).to_set().contains(res.1@[y])
                && points_to(tg@, res.1@[y], y),
        pairs_strictly_sorted(pair_names(final(edges)@)),
        pair_names(final(edges)@).to_set() == graph_of(res.1@),
{
    let ghost cs = names(child@).to_set();
    let ghost os = names(order@).to_set();
    let ghost mut pm = parents;
    let mut next: Vec<String> = Vec::new();
    let mut a: usize = 0;
    while a < order.len()
        invariant
            a <= order.len(),
            cs == names(child@).to_set(),
            os == names(order@).to_set(),
            forall|y: Seq<char>| parents.dom().contains(y) ==> !cs.contains(y),
            names(next@).no_duplicates(),
            pm.dom() == parents.dom() + names(next@).to_set(),
            forall|y: Seq<char>| #[trigger] parents.dom().contains(y) ==> pm[y] == parents[y],
            forall|y: Seq<char>|
                #[trigger] names(next@).to_set().contains(y) ==> cs.contains(y) && os.contains(pm[y]) && points_to(
                    tg@,
                    pm[y],
                    y,
                ),
            pairs_strictly_sorted(pair_names(edges@)),
            pair_names(edges@).to_set() == graph_of(pm),
            forall|a2: int, e2: int, j2: int, y: Seq<char>|
                0 <= a2 < a && #[trigger] entry_link(tg@, e2, j2, order@[a2]@, y) && cs.contains(y)
                    ==> names(next@).to_set().contains(y),
        decreases order.len() - a,
    {
        let p = &order[a];
        let mut e: usize = 0;
        while e < tg.len()
            invariant
                a < order.len(),
                *p == order@[a as int],
                e <= tg.len(),
                cs == names(child@).to_set(),
                os == names(order@).to_set(),
                forall|y: Seq<char>| parents.dom().contains(y) ==> !cs.contains(y),
                names(next@).no_duplicates(),
                pm.dom() == parents.dom() + names(next@).to_set(),
                forall|y: Seq<char>| #[trigger] parents.dom().contains(y) ==> pm[y] == parents[y],
                forall|y: Seq<char>|
                    #[trigger] names(next@).to_set().contains(y) ==> cs.contains(y) && os.contains(pm[y])
                        && points_to(tg@, pm[y], y),
                pairs_strictly_sorted(pair_names(edges@)),
                pair_names(edges@).to_set() == graph_of(pm),
                forall|a2: int, e2: int, j2: int, y: Seq<char>|
                    (0 <= a2 < a || (a2 == a && e2 < e)) && #[trigger] entry_link(tg@, e2, j2, order@[a2]@, y)
                        && cs.contains(y) ==> names(next@).to_set().contains(y),
            decreases tg.len() - e,
        {
            if tg[e].0 == *p {
                let list = &tg[e].1;
                let mut j: usize = 0;
                while j < list.len()
                    invariant
                        a < order.len(),
                        *p == order@[a as int],
                        e < tg.len(),
                        tg@[e as int].0@ == p@,
                        *list == tg@[e as int].1,
                        j <= list.len(),
                        cs == names(child@).to_set(),
                        os == names(order@).to_set(),
                        forall|y: Seq<char>| parents.dom().contains(y) ==> !cs.contains(y),
                        names(next@).no_duplicates(),
                        pm.dom() == parents.dom() + names(next@).to_set(),
                        forall|y: Seq<char>| #[trigger] parents.dom().contains(y) ==> pm[y] == parents[y],
                        forall|y: Seq<char>|
                            #[trigger] names(next@).to_set().contains(y) ==> cs.contains(y) && os.contains(pm[y])
                                && points_to(tg@, pm[y], y),
                        pairs_strictly_sorted(pair_names(edges@)),
                        pair_names(edges@).to_set() == graph_of(pm),
                        forall|a2: int, e2: int, j2: int, y: Seq<char>|
                            (0 <= a2 < a || (a2 == a && (e2 < e || (e2 == e && j2 < j)))) && #[trigger] entry_link(
                                tg@,
                                e2,
                                j2,
                                order@[a2]@,
                                y,
                            ) && cs.contains(y) ==> names(next@).to_set().contains(y),
                    decreases list.len() - j,
                {
                    let y = &list[j];
                    let in_child = contains_name(child, y);
                    let seen = contains_name(&next, y);
                    proof {
                        assert(names(child@).contains(y@) == cs.contains(y@));
                        assert(names(next@).contains(y@) == names(next@).to_set().contains(y@));
                        assert(entry_link(tg@, e as int, j as int, p@, y@));
                    }
                    if in_child && !seen {
                        let ghost before = next@;
                        next.push(y.clone());
                        proof {
                            assert(names(next@) =~= names(before).push(y@));
                            names(before).lemma_push_to_set_commute(y@);
                            assert(names(next@).to_set() =~= names(before).to_set().insert(y@));
                            assert(!pm.dom().contains(y@));
                            let pm0 = pm;
                            pm = pm.insert(y@, p@);
                            assert(os.contains(p@)) by {
                                assert(names(order@)[a as int] == p@);
                            }
                            assert forall|q: int, r: int|
                                0 <= q < r < names(next@).len() implies names(next@)[q] != names(next@)[r] by {
                                if r == names(next@).len() - 1 {
                                    assert(names(before).contains(names(before)[q]));
                                }
                            }
                            assert(graph_of(pm) =~= graph_of(pm0).insert((y@, p@)));
                        }
                        insert_pair(edges, (y.clone(), p.clone()));
                    }
                    j += 1;
                }
            }
            e += 1;
        }
        a += 1;
    }
    proof {
        let want = Set::new(
            |y: Seq<char>|
                names(child@).to_set().contains(y) && exists|p: Seq<char>|
                    #[trigger] names(order@).to_set().contains(p) && points_to(tg@, p, y),
        );
        assert forall|y: Seq<char>| names(next@).to_set().contains(y) <==> want.contains(y) by {
            if want.contains(y) {
                let p = choose|p: Seq<char>| #[trigger] names(order@).to_set().contains(p) && points_to(tg@, p, y);
                let a2 = choose|a2: int| 0 <= a2 < names(order@).len() && names(order@)[a2] == p;
                let (e2, j2) = choose|e2: int, j2: int| #[trigger] entry_link(tg@, e2, j2, p, y);
                assert(entry_link(tg@, e2, j2, order@[a2]@, y));
            }
        }
        assert(names(next@).to_set() =~= want);
    }
    (next, Ghost(pm))
}


/// The nodes at distance `lo..=hi` from `t`.
pub open spec fn rings_between(g: Seq<(String, Vec<String>)>, forward: bool, t: Seq<char>, lo: nat, hi: nat) -> Set<Seq<char>> {
    Set::new(|n: Seq<char>| exists|k: nat| lo <= k <= hi && #[trigger] ring(g, forward, t, k).contains(n))
}

/// The first names of a list of pairs.
pub open spec fn froms(v: Seq<(Seq<char>, Seq<char>)>) -> Set<Seq<char>> {
    Set::new(|f: Seq<char>| exists|i: int| 0 <= i < v.len() && #[trigger] v[i].0 == f)
}

/// `(from, to)` is an edge of the walk below depth `d`: `to` is at some
/// distance `k < d`, `from` one further, and `to`'s list holds `from`.
pub open spec fn walk_edge(g: Seq<(String, Vec<String>)>, forward: bool, t: Seq<char>, d: nat, e: (Seq<char>, Seq<char>)) -> bool {
    exists|k: nat|
        k < d && #[trigger] ring(g, forward, t, k).contains(e.1) && ring(g, forward, t, k + 1).contains(e.0) && step(
            g,
            forward,
            e.1,
            e.0,
        )
}

/// The deepest non-empty ring up to `d`: `r` itself is not empty, and no
/// ring after it up to `d` holds anything.
pub open spec fn deepest_ring(g: Seq<(String, Vec<String>)>, forward: bool, t: Seq<char>, d: nat, r: nat) -> bool {
    &&& r <= d
    &&& ring(g, forward, t, r) != Set::<Seq<char>>::empty()
    &&& forall|k: nat| r < k <= d ==> #[trigger] ring(g, forward, t, k) == Set::<Seq<char>>::empty()
}

/// The sorted union of the layers `1..=hi` (all of them below `layers.len()`).
fn union_of_layers(layers: &Vec<Vec<String>>, hi: usize, Ghost(g): Ghost<Seq<(String, Vec<String>)>>, Ghost(forward): Ghost<bool>, Ghost(t): Ghost<Seq<char>>) -> (r: Vec<String>)
    requires
        hi < layers.len(),
        forall|q: int|
            0 <= q < layers.len() ==> names(#[trigger] layers@[q]@).to_set() == ring(g, forward, t, q as nat),
    ensures
        strictly_sorted(names(r@)),
        names(r@).to_set() == rings_between(g, forward, t, 1, hi as nat),
{
    let mut r: Vec<String> = Vec::new();
    let mut k: usize = 1;
    assert(names(r@).to_set() =~= rings_between(g, forward, t, 1, 0));
    while k <= hi
        invariant
            1 <= k <= hi + 1,
            hi < layers.len(),
            forall|q: int|
                0 <= q < layers.len() ==> names(#[trigger] layers@[q]@).to_set() == ring(g, forward, t, q as nat),
            strictly_sorted(names(r@)),
            names(r@).to_set() == rings_between(g, forward, t, 1, (k - 1) as nat),
        decreases hi + 1 - k,
    {
        let layer = &layers[k];
        let ghost r0 = names(r@).to_set();
        let mut a: usize = 0;
        while a < layer.len()
            invariant
                k < layers.len(),
                *layer == layers@[k as int],
                a <= layer.len(),
                strictly_sorted(names(r@)),
                names(r@).to_set() == r0 + names(layer@).take(a as int).to_set(),
            decreases layer.len() - a,
        {
            insert_name(&mut r, layer[a].clone());
            proof {
                let ln = names(layer@);
                assert(ln.take(a + 1) =~= ln.take(a as int).push(ln[a as int]));
                ln.take(a as int).lemma_push_to_set_commute(ln[a as int]);
                assert(names(r@).to_set() =~= r0 + ln.take(a + 1).to_set());
            }
            a += 1;
        }
        proof {
            let ln = names(layer@);
            assert(ln.take(ln.len() as int) =~= ln);
            let want = rings_between(g, forward, t, 1, k as nat);
            assert forall|n: Seq<char>| names(r@).to_set().contains(n) <==> want.contains(n) by {
                if ln.to_set().contains(n) {
                    assert(ring(g, forward, t, k as nat).contains(n));
                }
                if want.contains(n) {
                    let q = choose|q: nat| 1 <= q <= k && #[trigger] ring(g, forward, t, q).contains(n);
                    if q < k {
                        assert(rings_between(g, forward, t, 1, (k - 1) as nat).contains(n));
                    }
                }
            }
            assert(names(r@).to_set() =~= want);
        }
        k += 1;
    }
    r
}

/// Turns ordered `(from, to)` pairs into edges.
fn to_edges(pairs: Vec<(String, String)>) -> (r: Vec<ImpactEdge>)
    ensures
        edge_names(r@) == pair_names(pairs@),
{
    let mut r: Vec<ImpactEdge> = Vec::new();
    let mut i: usize = 0;
    while i < pairs.len()
        invariant
            i <= pairs.len(),
            edge_names(r@) == pair_names(pairs@).take(i as int),
        decreases pairs.len() - i,
    {
        let p = &pairs[i];
        let ghost rp = r@;
        r.push(ImpactEdge { from: p.0.clone(), to: p.1.clone() });
        assert(edge_names(r@) =~= edge_names(rp).push((p.0@, p.1@)));
        assert(pair_names(pairs@).take(i + 1) =~= pair_names(pairs@).take(i as int).push(pair_names(pairs@)[i as int]));
        assert(edge_names(r@) =~= pair_names(pairs@).take(i + 1));
        i += 1;
    }
    assert(pair_names(pairs@).take(pairs.len() as int) =~= pair_names(pairs@));
    r
}

/// Reverse breadth-first walk from `target` over the transposed graph
/// (each node listing its importers), down to `max_depth`.
///
/// Returns the importers found at distance `1..=max_depth` in name order;
/// the edges of the walk, one for each file met at distance
/// `1..=max_depth + 1`, from it to the node through which it was first met,
/// in `(from, to)` order; and the deepest distance at which some node was
/// found, up to `max_depth`.
pub fn bfs_reverse(transposed: &Vec<(String, Vec<String>)>, target: &str, max_depth: u8) -> (res: (
    Vec<String>,
    Vec<ImpactEdge>,
    u8,
))
    ensures
        strictly_sorted(names(res.0@)),
        names(res.0@).to_set() == rings_between(transposed@, true, target@, 1, max_depth as nat),
        deepest_ring(transposed@, true, target@, max_depth as nat, res.2 as nat),
        pairs_strictly_sorted(edge_names(res.1@)),
        forall|i: int|
            0 <= i < res.1.len() ==> walk_edge(
                transposed@,
                true,
                target@,
                max_depth as nat + 1,
                #[trigger] edge_names(res.1@)[i],
            ),
        froms(edge_names(res.1@)) == rings_between(transposed@, true, target@, 1, max_depth as nat + 1),
        forall|i: int, j: int|
            0 <= i < j < res.1.len() ==> (#[trigger] edge_names(res.1@)[i]).0 != (#[trigger] edge_names(
                res.1@,
            )[j]).0,
{
    let ghost tg = transposed@;
    let t = target.to_owned();
    let limit: usize = max_depth as usize + 1;
    let layers = bfs_layers(transposed, true, &t, limit);
    let top: usize = layers.len() - 1;
    let depth: u8 = if top > max_depth as usize {
        max_depth
    } else {
        top as u8
    };
    proof {
        assert(names(layers@[depth as int]@).to_set().contains(names(layers@[depth as int]@)[0]));
        assert forall|k: nat| depth < k <= max_depth implies #[trigger] ring(tg, true, t@, k) == Set::<
            Seq<char>,
        >::empty() by {
            lemma_rings_empty_after(tg, true, t@, layers.len() as nat, k);
        }
    }
    let nodes = union_of_layers(&layers, depth as usize, Ghost(tg), Ghost(true), Ghost(t@));
    proof {
        assert forall|n: Seq<char>|
            rings_between(tg, true, t@, 1, depth as nat).contains(n) <==> rings_between(
                tg,
                true,
                t@,
                1,
                max_depth as nat,
            ).contains(n) by {
            if rings_between(tg, true, t@, 1, max_depth as nat).contains(n) {
                let q = choose|q: nat| 1 <= q <= max_depth && #[trigger] ring(tg, true, t@, q).contains(n);
                if q > depth {
                    assert(ring(tg, true, t@, q) == Set::<Seq<char>>::empty());
                }
            }
        }
        assert(rings_between(tg, true, t@, 1, depth as nat) =~= rings_between(tg, true, t@, 1, max_depth as nat));
    }
    // The walk's edges, layer by layer.
    let mut order = copy_names(&layers[0]);
    let mut pairs: Vec<(String, String)> = Vec::new();
    let ghost mut parents: Map<Seq<char>, Seq<char>> = Map::empty();
    let mut k: usize = 0;
    proof {
        assert(pair_names(pairs@).to_set() =~= graph_of(parents));
        assert(parents.dom() =~= rings_between(tg, true, t@, 1, 0));
    }
    while k + 1 < layers.len()
        invariant
            k < layers.len(),
            layers.len() <= limit + 1,
            limit == max_depth as usize + 1,
            tg == transposed@,
            forall|q: int|
                0 <= q < layers.len() ==> names(#[trigger] layers@[q]@).to_set() == ring(tg, true, t@, q as nat),
            names(order@).to_set() == ring(tg, true, t@, k as nat),
            pairs_strictly_sorted(pair_names(pairs@)),
            pair_names(pairs@).to_set() == graph_of(parents),
            parents.dom() == rings_between(tg, true, t@, 1, k as nat),
            forall|y: Seq<char>|
                #[trigger] parents.dom().contains(y) ==> walk_edge(tg, true, t@, k as nat, (y, parents[y])),
        decreases layers.len() - k,
    {
        proof {
            assert forall|y: Seq<char>| parents.dom().contains(y) implies !names(layers@[k + 1]@).to_set().contains(y) by {
                let q = choose|q: nat| 1 <= q <= k && #[trigger] ring(tg, true, t@, q).contains(y);
                if ring(tg, true, t@, (k + 1) as nat).contains(y) {
                    lemma_ring_unique(tg, true, t@, y, q, (k + 1) as nat);
                }
            }
        }
        let (next, Ghost(pm)) = children_layer(transposed, &order, &layers[k + 1], &mut pairs, Ghost(parents));
        proof {
            lemma_ring_next(tg, true, t@, k as nat);
            let r1 = ring(tg, true, t@, (k + 1) as nat);
            assert forall|y: Seq<char>| names(next@).to_set().contains(y) <==> r1.contains(y) by {
                if r1.contains(y) {
                    let m = choose|m: Seq<char>| #[trigger] ring(tg, true, t@, k as nat).contains(m) && step(tg, true, m, y);
                    assert(names(order@).to_set().contains(m));
                }
            }
            assert(names(next@).to_set() =~= r1);
            assert forall|y: Seq<char>| #[trigger] pm.dom().contains(y) implies walk_edge(tg, true, t@, (k + 1) as nat, (y, pm[y])) by {
                if parents.dom().contains(y) {
                    let q = choose|q: nat|
                        q < k && #[trigger] ring(tg, true, t@, q).contains(parents[y]) && ring(tg, true, t@, q + 1).contains(y)
                            && points_to(tg, parents[y], y);
                    assert(pm[y] == parents[y]);
                    let e = (y, pm[y]);
                    assert(q < k + 1 && ring(tg, true, t@, q).contains(e.1) && ring(tg, true, t@, q + 1).contains(e.0)
                        && points_to(tg, e.1, e.0));
                } else {
                    assert(names(next@).to_set().contains(y));
                    assert(names(order@).to_set().contains(pm[y]));
                    assert(ring(tg, true, t@, k as nat).contains(pm[y]));
                    assert(ring(tg, true, t@, (k + 1) as nat).contains(y));
                    assert(points_to(tg, pm[y], y));
                    let e = (y, pm[y]);
                    let kk = k as nat;
                    assert(kk < k + 1 && ring(tg, true, t@, kk).contains(e.1) && ring(tg, true, t@, kk + 1).contains(e.0)
                        && points_to(tg, e.1, e.0));
                }
            }
            assert forall|y: Seq<char>| pm.dom().contains(y) <==> rings_between(tg, true, t@, 1, (k + 1) as nat).contains(y) by {
                if rings_between(tg, true, t@, 1, (k + 1) as nat).contains(y) {
                    let q = choose|q: nat| 1 <= q <= k + 1 && #[trigger] ring(tg, true, t@, q).contains(y);
                    if q <= k {
                        assert(rings_between(tg, true, t@, 1, k as nat).contains(y));
                    }
                }
            }
            assert(pm.dom() =~= rings_between(tg, true, t@, 1, (k + 1) as nat));
            parents = pm;
        }
        order = next;
        k += 1;
    }
    proof {
        // Past the last layer every ring up to `max_depth + 1` is empty.
        assert forall|y: Seq<char>|
            parents.dom().contains(y) <==> rings_between(tg, true, t@, 1, max_depth as nat + 1).contains(y) by {
            if rings_between(tg, true, t@, 1, max_depth as nat + 1).contains(y) {
                let q = choose|q: nat| 1 <= q <= max_depth + 1 && #[trigger] ring(tg, true, t@, q).contains(y);
                if q > k {
                    lemma_rings_empty_after(tg, true, t@, layers.len() as nat, q);
                }
                assert(rings_between(tg, true, t@, 1, k as nat).contains(y));
            }
            if parents.dom().contains(y) {
                let q = choose|q: nat| 1 <= q <= k && #[trigger] ring(tg, true, t@, q).contains(y);
                assert(rings_between(tg, true, t@, 1, max_depth as nat + 1).contains(y));
            }
        }
    }
    let edges = to_edges(pairs);
    proof {
        let ev = edge_names(edges@);
        assert forall|i: int| 0 <= i < edges.len() implies walk_edge(tg, true, t@, max_depth as nat + 1, #[trigger] ev[i]) by {
            assert(ev.to_set().contains(ev[i]));
            assert(graph_of(parents).contains(ev[i]));
            let y = ev[i].0;
            let q = choose|q: nat|
                q < k && #[trigger] ring(tg, true, t@, q).contains(parents[y]) && ring(tg, true, t@, q + 1).contains(y)
                    && points_to(tg, parents[y], y);
        }
        assert forall|f: Seq<char>|
            froms(ev).contains(f) <==> rings_between(tg, true, t@, 1, max_depth as nat + 1).contains(f) by {
            if froms(ev).contains(f) {
                let i = choose|i: int| 0 <= i < ev.len() && #[trigger] ev[i].0 == f;
                assert(ev.to_set().contains(ev[i]));
            }
            if rings_between(tg, true, t@, 1, max_depth as nat + 1).contains(f) {
                assert(graph_of(parents).contains((f, parents[f])));
                assert(ev.to_set().contains((f, parents[f])));
                let i = choose|i: int| 0 <= i < ev.len() && ev[i] == (f, parents[f]);
                assert(ev[i].0 == f);
            }
        }
        assert(froms(ev) =~= rings_between(tg, true, t@, 1, max_depth as nat + 1));
        assert forall|i: int, j: int| 0 <= i < j < edges.len() implies (#[trigger] ev[i]).0 != (#[trigger] ev[j]).0 by {
            assert(ev.to_set().contains(ev[i]));
            assert(ev.to_set().contains(ev[j]));
            assert(crate::sorting::pair_lt(ev[i], ev[j]));
            lemma_pair_total(ev[i], ev[j]);
        }
    }
    (nodes, edges, depth)
}


/// The depth the walk uses: `d` brought into `1..=MAX_DEPTH_CEILING`.
pub open spec fn clamp_depth(d: u8) -> u8 {
    if d < 1 {
        1
    } else if d > MAX_DEPTH_CEILING {
        MAX_DEPTH_CEILING
    } else {
        d
    }
}

fn clamp_depth_exec(d: u8) -> (r: u8)
    ensures
        r == clamp_depth(d),
{
    if d < 1 {
        1
    } else if d > MAX_DEPTH_CEILING {
        MAX_DEPTH_CEILING
    } else {
        d
    }
}

/// The pairs `(c, m)` for every name `c` that an entry of `g` named `m` lists.
spec fn listed_under(g: Seq<(String, Vec<String>)>, m: Seq<char>, e: int, j: int) -> Set<(Seq<char>, Seq<char>)> {
    Set::new(
        |p: (Seq<char>, Seq<char>)|
            p.1 == m && exists|e2: int, j2: int|
                (e2 < e || (e2 == e && j2 < j)) && #[trigger] entry_link(g, e2, j2, m, p.0),
    )
}

/// Adds an edge `(c, m)` for every name `c` listed under `m`.
fn add_listed_edges(g: &Vec<(String, Vec<String>)>, m: &String, pairs: &mut Vec<(String, String)>)
    requires
        pairs_strictly_sorted(pair_names(old(pairs)@)),
    ensures
        pairs_strictly_sorted(pair_names(final(pairs)@)),
        pair_names(final(pairs)@).to_set() == pair_names(old(pairs)@).to_set() + Set::new(
            |p: (Seq<char>, Seq<char>)| p.1 == m@ && points_to(g@, m@, p.0),
        ),
{
    let ghost base = pair_names(pairs@).to_set();
    let mut e: usize = 0;
    assert(pair_names(pairs@).to_set() =~= base + listed_under(g@, m@, 0, 0));
    while e < g.len()
        invariant
            e <= g.len(),
            base == pair_names(old(pairs)@).to_set(),
            pairs_strictly_sorted(pair_names(pairs@)),
            pair_names(pairs@).to_set() == base + listed_under(g@, m@, e as int, 0),
        decreases g.len() - e,
    {
        if g[e].0 == *m {
            let list = &g[e].1;
            let mut j: usize = 0;
            while j < list.len()
                invariant
                    e < g.len(),
                    g@[e as int].0@ == m@,
                    *list == g@[e as int].1,
                    j <= list.len(),
                    pairs_strictly_sorted(pair_names(pairs@)),
                    pair_names(pairs@).to_set() == base + listed_under(g@, m@, e as int, j as int),
                decreases list.len() - j,
            {
                insert_pair(pairs, (list[j].clone(), m.clone()));
                proof {
                    let before = listed_under(g@, m@, e as int, j as int);
                    let after = listed_under(g@, m@, e as int, j + 1);
                    let np = (list@[j as int]@, m@);
                    assert(entry_link(g@, e as int, j as int, m@, np.0));
                    assert forall|p: (Seq<char>, Seq<char>)| after.contains(p) <==> before.insert(np).contains(p) by {
                        if after.contains(p) {
                            let (e2, j2) = choose|e2: int, j2: int|
                                (e2 < e || (e2 == e && j2 < j + 1)) && #[trigger] entry_link(g@, e2, j2, m@, p.0);
                            if e2 < e || j2 < j {
                                assert(before.contains(p));
                            }
                        }
                        if before.contains(p) {
                            let (e2, j2) = choose|e2: int, j2: int|
                                (e2 < e || (e2 == e && j2 < j)) && #[trigger] entry_link(g@, e2, j2, m@, p.0);
                            assert(entry_link(g@, e2, j2, m@, p.0));
                        }
                    }
                    assert(after =~= before.insert(np));
                    assert(base + after =~= (base + before).insert(np));
                }
                j += 1;
            }
            proof {
                assert(listed_under(g@, m@, e as int, list.len() as int) =~= listed_under(g@, m@, e + 1, 0)) by {
                    assert forall|p: (Seq<char>, Seq<char>)|
                        listed_under(g@, m@, e + 1, 0).contains(p) implies listed_under(g@, m@, e as int, list.len() as int).contains(p) by {
                        let (e2, j2) = choose|e2: int, j2: int|
                            (e2 < e + 1 || (e2 == e + 1 && j2 < 0)) && #[trigger] entry_link(g@, e2, j2, m@, p.0);
                        assert(entry_link(g@, e2, j2, m@, p.0));
                    }
                    assert forall|p: (Seq<char>, Seq<char>)|
                        listed_under(g@, m@, e as int, list.len() as int).contains(p) implies listed_under(g@, m@, e + 1, 0).contains(p) by {
                        let (e2, j2) = choose|e2: int, j2: int|
                            (e2 < e || (e2 == e && j2 < list.len())) && #[trigger] entry_link(g@, e2, j2, m@, p.0);
                        assert(entry_link(g@, e2, j2, m@, p.0));
                    }
                }
            }
        } else {
            proof {
                assert(listed_under(g@, m@, e as int, 0) =~= listed_under(g@, m@, e + 1, 0)) by {
                    assert forall|p: (Seq<char>, Seq<char>)|
                        listed_under(g@, m@, e + 1, 0).contains(p) implies listed_under(g@, m@, e as int, 0).contains(p) by {
                        let (e2, j2) = choose|e2: int, j2: int|
                            (e2 < e + 1 || (e2 == e + 1 && j2 < 0)) && #[trigger] entry_link(g@, e2, j2, m@, p.0);
                        assert(entry_link(g@, e2, j2, m@, p.0));
                    }
                    assert forall|p: (Seq<char>, Seq<char>)|
                        listed_under(g@, m@, e as int, 0).contains(p) implies listed_under(g@, m@, e + 1, 0).contains(p) by {
                        let (e2, j2) = choose|e2: int, j2: int|
                            (e2 < e || (e2 == e && j2 < 0)) && #[trigger] entry_link(g@, e2, j2, m@, p.0);
                        assert(entry_link(g@, e2, j2, m@, p.0));
                    }
                }
            }
        }
        e += 1;
    }
    proof {
        let want = Set::new(|p: (Seq<char>, Seq<char>)| p.1 == m@ && points_to(g@, m@, p.0));
        assert forall|p: (Seq<char>, Seq<char>)| listed_under(g@, m@, g.len() as int, 0).contains(p) <==> want.contains(p) by {
            if want.contains(p) {
                let (e2, j2) = choose|e2: int, j2: int| #[trigger] entry_link(g@, e2, j2, m@, p.0);
                assert(entry_link(g@, e2, j2, m@, p.0));
            }
            if listed_under(g@, m@, g.len() as int, 0).contains(p) {
                let (e2, j2) = choose|e2: int, j2: int|
                    (e2 < g.len() || (e2 == g.len() && j2 < 0)) && #[trigger] entry_link(g@, e2, j2, m@, p.0);
                assert(entry_link(g@, e2, j2, m@, p.0));
            }
        }
        assert(listed_under(g@, m@, g.len() as int, 0) =~= want);
    }
}

/// The edges `(caller, callee)` of the call graph `g` (each entry a node and
/// its callers) whose callee lies within `d - 1` steps of `t`.
pub open spec fn caller_edges(g: Seq<(String, Vec<String>)>, t: Seq<char>, d: nat) -> Set<(Seq<char>, Seq<char>)> {
    Set::new(
        |p: (Seq<char>, Seq<char>)|
            (exists|k: nat| k < d && #[trigger] ring(g, true, t, k).contains(p.1)) && points_to(g, p.1, p.0),
    )
}

/// Blast radius of a symbol over the in-memory call graph `graph`, each
/// entry a node and the names of its callers.
///
/// The depth is `max_depth` brought into `1..=10`. The report lists the
/// callers found within that depth in name order, one edge
/// `(caller, callee)` for every caller of every node nearer than the depth,
/// in order, and the deepest distance reached.
pub fn repo_impact_from_ram(graph: &Vec<(String, Vec<String>)>, target: &str, max_depth: u8) -> (report: ImpactReport)
    ensures
        report.target_file@ == forward_slashes(target@),
        strictly_sorted(names(report.impact_graph.nodes@)),
        names(report.impact_graph.nodes@).to_set() == rings_between(
            graph@,
            true,
            target@,
            1,
            clamp_depth(max_depth) as nat,
        ),
        1 <= max_depth <= 10 ==> names(report.impact_graph.nodes@).to_set() == rings_between(graph@, true, target@, 1, max_depth as nat),
        report.total_impacted_files == report.impact_graph.nodes.len(),
        deepest_ring(graph@, true, target@, clamp_depth(max_depth) as nat, report.max_depth_reached as nat),
        pairs_strictly_sorted(edge_names(report.impact_graph.edges@)),
        edge_names(report.impact_graph.edges@).to_set() == caller_edges(
            graph@,
            target@,
            clamp_depth(max_depth) as nat,
        ),
{
    let ghost g = graph@;
    let depth = clamp_depth_exec(max_depth);
    let t = target.to_owned();
    let layers = bfs_layers(graph, true, &t, depth as usize);
    let top: usize = layers.len() - 1;
    proof {
        assert(names(layers@[top as int]@).to_set().contains(names(layers@[top as int]@)[0]));
        assert forall|k: nat| top < k <= depth implies #[trigger] ring(g, true, t@, k) == Set::<Seq<char>>::empty() by {
            lemma_rings_empty_after(g, true, t@, layers.len() as nat, k);
        }
    }
    let nodes = union_of_layers(&layers, top, Ghost(g), Ghost(true), Ghost(t@));
    proof {
        assert forall|n: Seq<char>|
            rings_between(g, true, t@, 1, top as nat).contains(n) <==> rings_between(g, true, t@, 1, depth as nat).contains(n) by {
            if rings_between(g, true, t@, 1, depth as nat).contains(n) {
                let q = choose|q: nat| 1 <= q <= depth && #[trigger] ring(g, true, t@, q).contains(n);
                if q > top {
                    assert(ring(g, true, t@, q) == Set::<Seq<char>>::empty());
                }
            }
        }
        assert(rings_between(g, true, t@, 1, top as nat) =~= rings_between(g, true, t@, 1, depth as nat));
    }
    let mut pairs: Vec<(String, String)> = Vec::new();
    let mut k: usize = 0;
    proof {
        assert(pair_names(pairs@).to_set() =~= caller_edges(g, t@, 0));
    }
    while k < layers.len() && k < depth as usize
        invariant
            k <= layers.len(),
            k <= depth,
            g == graph@,
            forall|q: int|
                0 <= q < layers.len() ==> names(#[trigger] layers@[q]@).to_set() == ring(g, true, t@, q as nat),
            pairs_strictly_sorted(pair_names(pairs@)),
            pair_names(pairs@).to_set() == caller_edges(g, t@, k as nat),
        decreases layers.len() - k,
    {
        let layer = &layers[k];
        let ghost before = pair_names(pairs@).to_set();
        let mut a: usize = 0;
        while a < layer.len()
            invariant
                k < layers.len(),
                g == graph@,
                *layer == layers@[k as int],
                a <= layer.len(),
                pairs_strictly_sorted(pair_names(pairs@)),
                pair_names(pairs@).to_set() == before + Set::new(
                    |p: (Seq<char>, Seq<char>)| names(layer@).take(a as int).contains(p.1) && points_to(g, p.1, p.0),
                ),
            decreases layer.len() - a,
        {
            let ghost prev = pair_names(pairs@).to_set();
            add_listed_edges(graph, &layer[a], &mut pairs);
            proof {
                let ln = names(layer@);
                assert(ln.take(a + 1) =~= ln.take(a as int).push(ln[a as int]));
                let t1 = ln.take(a + 1);
                let t0 = ln.take(a as int);
                assert forall|x: Seq<char>| t1.contains(x) <==> (t0.contains(x) || x == ln[a as int]) by {
                    if t1.contains(x) {
                        let q = choose|q: int| 0 <= q < t1.len() && t1[q] == x;
                        if q < a {
                            assert(t0[q] == x);
                        }
                    }
                    if t0.contains(x) {
                        let q = choose|q: int| 0 <= q < t0.len() && t0[q] == x;
                        assert(t1[q] == x);
                    }
                    if x == ln[a as int] {
                        assert(t1[a as int] == x);
                    }
                }
                assert(ln[a as int] == layer@[a as int]@);
                let want = before + Set::new(
                    |p: (Seq<char>, Seq<char>)| t1.contains(p.1) && points_to(g, p.1, p.0),
                );
                let added = Set::new(|p: (Seq<char>, Seq<char>)| p.1 == layer@[a as int]@ && points_to(g, layer@[a as int]@, p.0));
                let old_part = Set::new(|p: (Seq<char>, Seq<char>)| t0.contains(p.1) && points_to(g, p.1, p.0));
                assert(pair_names(pairs@).to_set() == prev + added);
                assert(prev == before + old_part);
                assert forall|p: (Seq<char>, Seq<char>)| pair_names(pairs@).to_set().contains(p) <==> want.contains(p) by {
                    if t0.contains(p.1) {
                        assert(t1.contains(p.1));
                    }
                    if added.contains(p) {
                        assert(t1.contains(p.1));
                    }
                    if old_part.contains(p) {
                        assert(t1.contains(p.1));
                    }
                }
                assert(pair_names(pairs@).to_set() =~= want);
            }
            a += 1;
        }
        proof {
            let ln = names(layer@);
            assert(ln.take(ln.len() as int) =~= ln);
            assert forall|p: (Seq<char>, Seq<char>)|
                pair_names(pairs@).to_set().contains(p) <==> caller_edges(g, t@, (k + 1) as nat).contains(p) by {
                if ln.contains(p.1) {
                    assert(ln.to_set().contains(p.1));
                    assert(ring(g, true, t@, k as nat).contains(p.1));
                }
                if caller_edges(g, t@, (k + 1) as nat).contains(p) {
                    let q = choose|q: nat| q < k + 1 && #[trigger] ring(g, true, t@, q).contains(p.1);
                    if q < k {
                        assert(caller_edges(g, t@, k as nat).contains(p));
                    } else {
                        assert(ln.to_set().contains(p.1));
                    }
                }
                if before.contains(p) {
                    let q = choose|q: nat| q < k && #[trigger] ring(g, true, t@, q).contains(p.1);
                    assert(q < k + 1);
                }
            }
            assert(pair_names(pairs@).to_set() =~= caller_edges(g, t@, (k + 1) as nat));
        }
        k += 1;
    }
    proof {
        if k < depth {
            assert forall|p: (Seq<char>, Seq<char>)|
                caller_edges(g, t@, k as nat).contains(p) <==> caller_edges(g, t@, depth as nat).contains(p) by {
                if caller_edges(g, t@, depth as nat).contains(p) {
                    let q = choose|q: nat| q < depth && #[trigger] ring(g, true, t@, q).contains(p.1);
                    if q >= k {
                        lemma_rings_empty_after(g, true, t@, layers.len() as nat, q);
                    }
                }
                if caller_edges(g, t@, k as nat).contains(p) {
                    let q = choose|q: nat| q < k && #[trigger] ring(g, true, t@, q).contains(p.1);
                    assert(q < depth);
                }
            }
            assert(caller_edges(g, t@, k as nat) =~= caller_edges(g, t@, depth as nat));
        }
    }
    let edges = to_edges(pairs);
    let total = nodes.len();
    ImpactReport {
        target_file: to_forward_slashes(target),
        total_impacted_files: total,
        max_depth_reached: top as u8,
        impact_graph: ImpactGraphPayload { nodes, edges },
    }
}

/// Blast radius of `target` in the import graph `graph` (each entry a file
/// and the files it imports), down to `max_depth` brought into `1..=10`.
///
/// The report names the target with forward slashes, lists the importers
/// within the depth in name order, the edges of the reverse walk (see
/// [`bfs_reverse`]) and the deepest distance reached.
pub fn repo_impact(graph: &Vec<(String, Vec<String>)>, target: &str, max_depth: u8) -> (report: ImpactReport)
    ensures
        report.target_file@ == forward_slashes(target@),
        strictly_sorted(names(report.impact_graph.nodes@)),
        names(report.impact_graph.nodes@).to_set() == rings_between(
            graph@,
            false,
            target@,
            1,
            clamp_depth(max_depth) as nat,
        ),
        1 <= max_depth <= 10 ==> names(report.impact_graph.nodes@).to_set() == rings_between(graph@, false, target@, 1, max_depth as nat),
        report.total_impacted_files == report.impact_graph.nodes.len(),
        deepest_ring(graph@, false, target@, clamp_depth(max_depth) as nat, report.max_depth_reached as nat),
        pairs_strictly_sorted(edge_names(report.impact_graph.edges@)),
        forall|i: int|
            0 <= i < report.impact_graph.edges.len() ==> walk_edge(
                graph@,
                false,
                target@,
                clamp_depth(max_depth) as nat + 1,
                #[trigger] edge_names(report.impact_graph.edges@)[i],
            ),
        froms(edge_names(report.impact_graph.edges@)) == rings_between(
            graph@,
            false,
            target@,
            1,
            clamp_depth(max_depth) as nat + 1,
        ),
        forall|i: int, j: int|
            0 <= i < j < report.impact_graph.edges.len() ==> (#[trigger] edge_names(report.impact_graph.edges@)[i]).0
                != (#[trigger] edge_names(report.impact_graph.edges@)[j]).0,
{
    let depth = clamp_depth_exec(max_depth);
    let transposed = transpose_graph(graph);
    let (nodes, edges, reached) = bfs_reverse(&transposed, target, depth);
    proof {
        let tg = transposed@;
        let g = graph@;
        let t = target@;
        assert forall|k: nat| #[trigger] ring(tg, true, t, k) == ring(g, false, t, k) by {
            crate::ast::reach::lemma_reach_transposed(tg, g, t, k);
        }
        assert forall|lo: nat, hi: nat| #[trigger] rings_between(tg, true, t, lo, hi) == rings_between(g, false, t, lo, hi) by {
            assert forall|n: Seq<char>| rings_between(tg, true, t, lo, hi).contains(n) <==> rings_between(g, false, t, lo, hi).contains(n) by {
                if rings_between(tg, true, t, lo, hi).contains(n) {
                    let q = choose|q: nat| lo <= q <= hi && #[trigger] ring(tg, true, t, q).contains(n);
                    assert(ring(g, false, t, q).contains(n));
                }
                if rings_between(g, false, t, lo, hi).contains(n) {
                    let q = choose|q: nat| lo <= q <= hi && #[trigger] ring(g, false, t, q).contains(n);
                    assert(ring(tg, true, t, q).contains(n));
                }
            }
            assert(rings_between(tg, true, t, lo, hi) =~= rings_between(g, false, t, lo, hi));
        }
        assert(rings_between(tg, true, t, 1, depth as nat) == rings_between(g, false, t, 1, depth as nat));
        assert(rings_between(tg, true, t, 1, depth as nat + 1) == rings_between(g, false, t, 1, depth as nat + 1));
        assert(ring(tg, true, t, reached as nat) == ring(g, false, t, reached as nat));
        assert forall|k: nat| reached < k <= depth implies #[trigger] ring(g, false, t, k) == Set::<Seq<char>>::empty() by {
            assert(ring(tg, true, t, k) == ring(g, false, t, k));
        }
        let ev = edge_names(edges@);
        assert forall|i: int| 0 <= i < edges.len() implies walk_edge(g, false, t, depth as nat + 1, #[trigger] ev[i]) by {
            assert(walk_edge(tg, true, t, depth as nat + 1, ev[i]));
            let q = choose|q: nat|
                q < depth + 1 && #[trigger] ring(tg, true, t, q).contains(ev[i].1) && ring(tg, true, t, q + 1).contains(ev[i].0)
                    && step(tg, true, ev[i].1, ev[i].0);
            assert(ring(g, false, t, q).contains(ev[i].1));
            assert(ring(tg, true, t, q + 1) == ring(g, false, t, q + 1));
        }
    }
    let total = nodes.len();
    ImpactReport {
        target_file: to_forward_slashes(target),
        total_impacted_files: total,
        max_depth_reached: reached,
        impact_graph: ImpactGraphPayload { nodes, edges },
    }
}


/// What the multilingual walk reports lies in the blast radius: every
/// importer found within the depth depends on the target; and once the
/// depth reaches past the last non-empty distance, the two coincide.
pub proof fn law_repo_impact_within_blast_radius(g: Seq<(String, Vec<String>)>, t: Seq<char>, d: nat)
    ensures
        forall|n: Seq<char>|
            #[trigger] rings_between(g, false, t, 1, d).contains(n) ==> n != t && crate::ast::impact::depends_on(g, t, n),
        (forall|k: nat| k > d ==> #[trigger] ring(g, false, t, k) == Set::<Seq<char>>::empty()) ==> forall|n: Seq<char>|
            (n != t && crate::ast::impact::depends_on(g, t, n)) ==> #[trigger] rings_between(g, false, t, 1, d).contains(n),
{
    assert forall|n: Seq<char>|
        #[trigger] rings_between(g, false, t, 1, d).contains(n) implies n != t && crate::ast::impact::depends_on(g, t, n) by {
        let q = choose|q: nat| 1 <= q <= d && #[trigger] ring(g, false, t, q).contains(n);
        assert(reach(g, false, t, q).contains(n));
        if n == t {
            crate::ast::reach::lemma_reach_mono(g, false, t, 0, (q - 1) as nat);
        }
    }
    if forall|k: nat| k > d ==> #[trigger] ring(g, false, t, k) == Set::<Seq<char>>::empty() {
        assert forall|n: Seq<char>| (n != t && crate::ast::impact::depends_on(g, t, n)) implies #[trigger] rings_between(
            g,
            false,
            t,
            1,
            d,
        ).contains(n) by {
            let k = choose|k: nat| #[trigger] reach(g, false, t, k).contains(n);
            lemma_some_ring(g, false, t, n, k);
            let j = choose|j: nat| j <= k && #[trigger] ring(g, false, t, j).contains(n);
            if j > d {
                assert(ring(g, false, t, j) == Set::<Seq<char>>::empty());
            }
            assert(j != 0);
        }
    }
}


/// The target is never among the nodes that an impact report lists: every
/// node lies at a distance of at least one.
pub proof fn law_impact_nodes_exclude_target(g: Seq<(String, Vec<String>)>, forward: bool, t: Seq<char>, d: nat)
    ensures
        !rings_between(g, forward, t, 1, d).contains(t),
{
    if rings_between(g, forward, t, 1, d).contains(t) {
        let k = choose|k: nat| 1 <= k <= d && #[trigger] ring(g, forward, t, k).contains(t);
        crate::ast::reach::lemma_reach_mono(g, forward, t, 0, (k - 1) as nat);
        assert(reach(g, forward, t, 0).contains(t));
    }
}

/// An impact report of a target that no step of the walk leaves (in the
/// call graph: no caller; in the import graph: no importer) lists no node
/// and no edge, and its deepest distance is 0.
pub proof fn law_isolated_target_has_no_impact(g: Seq<(String, Vec<String>)>, forward: bool, t: Seq<char>, d: nat)
    requires
        forall|n: Seq<char>| !#[trigger] step(g, forward, t, n),
    ensures
        rings_between(g, forward, t, 1, d) == Set::<Seq<char>>::empty(),
        forall|e: (Seq<char>, Seq<char>)| !#[trigger] walk_edge(g, forward, t, d, e),
        forall|r: nat| #[trigger] deepest_ring(g, forward, t, d, r) ==> r == 0,
        forward ==> caller_edges(g, t, d) == Set::<(Seq<char>, Seq<char>)>::empty(),
{
    let r0 = reach(g, forward, t, 0);
    assert(reach(g, forward, t, 1) =~= r0) by {
        assert forall|n: Seq<char>| reach(g, forward, t, 1).contains(n) implies r0.contains(n) by {
            if !r0.contains(n) {
                let m = choose|m: Seq<char>| #[trigger] r0.contains(m) && step(g, forward, m, n);
                assert(m == t);
            }
        }
    }
    assert(ring(g, forward, t, 1) =~= Set::<Seq<char>>::empty());
    assert forall|k: nat| k >= 1 implies #[trigger] ring(g, forward, t, k) == Set::<Seq<char>>::empty() by {
        lemma_rings_empty_after(g, forward, t, 1, k);
    }
    assert(rings_between(g, forward, t, 1, d) =~= Set::<Seq<char>>::empty()) by {
        assert forall|n: Seq<char>| !rings_between(g, forward, t, 1, d).contains(n) by {
            if rings_between(g, forward, t, 1, d).contains(n) {
                let k = choose|k: nat| 1 <= k <= d && #[trigger] ring(g, forward, t, k).contains(n);
                assert(ring(g, forward, t, k) == Set::<Seq<char>>::empty());
            }
        }
    }
    assert forall|e: (Seq<char>, Seq<char>)| !#[trigger] walk_edge(g, forward, t, d, e) by {
        if walk_edge(g, forward, t, d, e) {
            let k = choose|k: nat|
                k < d && #[trigger] ring(g, forward, t, k).contains(e.1) && ring(g, forward, t, k + 1).contains(e.0)
                    && step(g, forward, e.1, e.0);
            assert(ring(g, forward, t, k + 1) == Set::<Seq<char>>::empty());
        }
    }
    assert forall|r: nat| #[trigger] deepest_ring(g, forward, t, d, r) implies r == 0 by {
        if r >= 1 {
            assert(ring(g, forward, t, r) == Set::<Seq<char>>::empty());
        }
    }
    if forward {
        assert(caller_edges(g, t, d) =~= Set::<(Seq<char>, Seq<char>)>::empty()) by {
            assert forall|p: (Seq<char>, Seq<char>)| !caller_edges(g, t, d).contains(p) by {
                if caller_edges(g, t, d).contains(p) {
                    let k = choose|k: nat| k < d && #[trigger] ring(g, true, t, k).contains(p.1);
                    if k >= 1 {
                        assert(ring(g, true, t, k) == Set::<Seq<char>>::empty());
                    }
                    assert(p.1 == t);
                    assert(step(g, true, t, p.0));
                }
            }
        }
    }
}


/// Law of the depth bound: a requested depth from 1 to 10 is used as it is,
/// 0 is raised to 1 and anything above 10 is lowered to 10.
pub proof fn law_requested_depth_is_kept_within_bounds(d: u8)
    ensures
        1 <= d <= 10 ==> clamp_depth(d) == d,
        d == 0 ==> clamp_depth(d) == 1,
        d > 10 ==> clamp_depth(d) == 10,
        1 <= clamp_depth(d) <= 10,
{
}

} // verus!
