//! Breadth-first layers of a graph given as adjacency lists.
//!
//! A graph is a list of entries `(node, neighbours)`. Walking *forward*, one
//! goes from a node to the names in its list; walking *backward*, from a
//! name to every node whose list holds it. `reach(k)` is the set of nodes
//! within `k` steps of the start and `ring(k)` those at distance exactly `k`:
//! the layers a breadth-first search visits one after the other.
use vstd::prelude::*;
use vstd::set_lib::*;
use crate::sorting::{names, strictly_sorted, insert_name, contains_name};

verus! {

/// The entry `i` of `g` names `a` and lists `b` at position `j`.
pub open spec fn entry_link(g: Seq<(String, Vec<String>)>, i: int, j: int, a: Seq<char>, b: Seq<char>) -> bool {
    &&& 0 <= i < g.len()
    &&& 0 <= j < g[i].1@.len()
    &&& g[i].0@ == a
    &&& g[i].1@[j]@ == b
}

/// Some entry of `g` names `a` and lists `b`.
pub open spec fn points_to(g: Seq<(String, Vec<String>)>, a: Seq<char>, b: Seq<char>) -> bool {
    exists|i: int, j: int| #[trigger] entry_link(g, i, j, a, b)
}

/// One step of the walk, forward or backward, from `m` to `n`.
pub open spec fn step(g: Seq<(String, Vec<String>)>, forward: bool, m: Seq<char>, n: Seq<char>) -> bool {
    if forward {
        points_to(g, m, n)
    } else {
        points_to(g, n, m)
    }
}

/// The nodes within `k` steps of `t`.
pub open spec fn reach(g: Seq<(String, Vec<String>)>, forward: bool, t: Seq<char>, k: nat) -> Set<Seq<char>>
    decreases k,
{
    if k == 0 {
        Set::empty().insert(t)
    } else {
        let prev = reach(g, forward, t, (k - 1) as nat);
        prev.union(
            Set::new(|n: Seq<char>| exists|m: Seq<char>| #[trigger] prev.contains(m) && step(g, forward, m, n)),
        )
    }
}

/// The nodes at distance exactly `k` from `t`.
pub open spec fn ring(g: Seq<(String, Vec<String>)>, forward: bool, t: Seq<char>, k: nat) -> Set<Seq<char>> {
    if k == 0 {
        reach(g, forward, t, 0)
    } else {
        reach(g, forward, t, k).difference(reach(g, forward, t, (k - 1) as nat))
    }
}

/// Every name that occurs in `g`, as a node or in a list.
pub open spec fn flat(g: Seq<(String, Vec<String>)>) -> Seq<Seq<char>>
    decreases g.len(),
{
    if g.len() == 0 {
        Seq::empty()
    } else {
        flat(g.drop_last()) + seq![g.last().0@] + names(g.last().1@)
    }
}

/// Fewer steps reach no more nodes.
pub proof fn lemma_reach_mono(g: Seq<(String, Vec<String>)>, forward: bool, t: Seq<char>, k1: nat, k2: nat)
    requires
        k1 <= k2,
    ensures
        reach(g, forward, t, k1).subset_of(reach(g, forward, t, k2)),
    decreases k2,
{
    if k1 < k2 {
        lemma_reach_mono(g, forward, t, k1, (k2 - 1) as nat);
    }
}

/// The next ring: the nodes not yet reached that are one step from the
/// current ring.
pub proof fn lemma_ring_next(g: Seq<(String, Vec<String>)>, forward: bool, t: Seq<char>, k: nat)
    ensures
        ring(g, forward, t, k + 1) == Set::new(
            |n: Seq<char>|
                !reach(g, forward, t, k).contains(n) && exists|m: Seq<char>|
                    #[trigger] ring(g, forward, t, k).contains(m) && step(g, forward, m, n),
        ),
{
    let r = reach(g, forward, t, k);
    let target = Set::new(
        |n: Seq<char>|
            !r.contains(n) && exists|m: Seq<char>| #[trigger] ring(g, forward, t, k).contains(m) && step(g, forward, m, n),
    );
    assert forall|n: Seq<char>| ring(g, forward, t, k + 1).contains(n) <==> target.contains(n) by {
        if ring(g, forward, t, k + 1).contains(n) {
            let m = choose|m: Seq<char>| #[trigger] r.contains(m) && step(g, forward, m, n);
            if k > 0 && reach(g, forward, t, (k - 1) as nat).contains(m) {
                assert(reach(g, forward, t, k).contains(n));
            }
            assert(ring(g, forward, t, k).contains(m));
        }
        if target.contains(n) {
            let m = choose|m: Seq<char>| #[trigger] ring(g, forward, t, k).contains(m) && step(g, forward, m, n);
            assert(r.contains(m));
        }
    }
    assert(ring(g, forward, t, k + 1) =~= target);
}

/// Once a ring is empty, so is the next.
pub proof fn lemma_ring_empty_next(g: Seq<(String, Vec<String>)>, forward: bool, t: Seq<char>, k: nat)
    requires
        ring(g, forward, t, k) == Set::<Seq<char>>::empty(),
    ensures
        ring(g, forward, t, k + 1) == Set::<Seq<char>>::empty(),
{
    lemma_ring_next(g, forward, t, k);
    assert(ring(g, forward, t, k + 1) =~= Set::<Seq<char>>::empty());
}

/// A node lies in at most one ring.
pub proof fn lemma_ring_unique(g: Seq<(String, Vec<String>)>, forward: bool, t: Seq<char>, n: Seq<char>, a: nat, b: nat)
    requires
        ring(g, forward, t, a).contains(n),
        ring(g, forward, t, b).contains(n),
    ensures
        a == b,
{
    if a < b {
        lemma_reach_mono(g, forward, t, a, (b - 1) as nat);
    } else if b < a {
        lemma_reach_mono(g, forward, t, b, (a - 1) as nat);
    }
}

/// A node within `k` steps lies in some ring up to `k`.
pub proof fn lemma_some_ring(g: Seq<(String, Vec<String>)>, forward: bool, t: Seq<char>, n: Seq<char>, k: nat)
    requires
        reach(g, forward, t, k).contains(n),
    ensures
        exists|j: nat| j <= k && #[trigger] ring(g, forward, t, j).contains(n),
    decreases k,
{
    if k == 0 {
        assert(ring(g, forward, t, 0).contains(n));
    } else if reach(g, forward, t, (k - 1) as nat).contains(n) {
        lemma_some_ring(g, forward, t, n, (k - 1) as nat);
    } else {
        assert(ring(g, forward, t, k).contains(n));
    }
}

/// A node in ring `k` is within `j` steps for every `j >= k`.
pub proof fn lemma_ring_in_reach(g: Seq<(String, Vec<String>)>, forward: bool, t: Seq<char>, n: Seq<char>, k: nat, j: nat)
    requires
        ring(g, forward, t, k).contains(n),
        k <= j,
    ensures
        reach(g, forward, t, j).contains(n),
{
    lemma_reach_mono(g, forward, t, k, j);
}

/// Past an empty ring every ring is empty.
pub proof fn lemma_rings_empty_after(g: Seq<(String, Vec<String>)>, forward: bool, t: Seq<char>, e: nat, j: nat)
    requires
        ring(g, forward, t, e) == Set::<Seq<char>>::empty(),
        e <= j,
    ensures
        ring(g, forward, t, j) == Set::<Seq<char>>::empty(),
    decreases j - e,
{
    if e < j {
        lemma_ring_empty_next(g, forward, t, e);
        lemma_rings_empty_after(g, forward, t, (e + 1) as nat, j);
    }
}

/// Walking forward through a transposed graph is walking backward through
/// the original.
pub proof fn lemma_reach_transposed(tg: Seq<(String, Vec<String>)>, g: Seq<(String, Vec<String>)>, t: Seq<char>, k: nat)
    requires
        forall|a: Seq<char>, b: Seq<char>| points_to(tg, a, b) <==> points_to(g, b, a),
    ensures
        reach(tg, true, t, k) == reach(g, false, t, k),
        ring(tg, true, t, k) == ring(g, false, t, k),
    decreases k,
{
    if k > 0 {
        lemma_reach_transposed(tg, g, t, (k - 1) as nat);
        assert forall|n: Seq<char>| reach(tg, true, t, k).contains(n) <==> reach(g, false, t, k).contains(n) by {
            let prev = reach(g, false, t, (k - 1) as nat);
            if reach(tg, true, t, k).contains(n) && !prev.contains(n) {
                let m = choose|m: Seq<char>| #[trigger] prev.contains(m) && step(tg, true, m, n);
                assert(step(g, false, m, n));
            }
            if reach(g, false, t, k).contains(n) && !prev.contains(n) {
                let m = choose|m: Seq<char>| #[trigger] prev.contains(m) && step(g, false, m, n);
                assert(step(tg, true, m, n));
            }
        }
        assert(reach(tg, true, t, k) =~= reach(g, false, t, k));
        assert(ring(tg, true, t, k) =~= ring(g, false, t, k));
    }
}

/// Every name of an entry occurs in `flat`.
pub proof fn lemma_flat_contains(g: Seq<(String, Vec<String>)>, i: int, j: int)
    requires
        0 <= i < g.len(),
    ensures
        flat(g).contains(g[i].0@),
        0 <= j < g[i].1@.len() ==> flat(g).contains(g[i].1@[j]@),
    decreases g.len(),
{
    let p = flat(g.drop_last());
    let l = names(g.last().1@);
    if i == g.len() - 1 {
        assert(flat(g)[p.len() as int] == g[i].0@);
        if 0 <= j < g[i].1@.len() {
            assert(flat(g)[p.len() + 1 + j] == l[j]);
        }
    } else {
        assert(g.drop_last()[i] == g[i]);
        lemma_flat_contains(g.drop_last(), i, j);
        if 0 <= j < g[i].1@.len() {
            let q = choose|q: int| 0 <= q < p.len() && p[q] == g[i].1@[j]@;
            assert(flat(g)[q] == p[q]);
        }
        let q = choose|q: int| 0 <= q < p.len() && p[q] == g[i].0@;
        assert(flat(g)[q] == p[q]);
    }
}

/// Every node that a step reaches occurs in `flat`.
pub proof fn lemma_step_in_flat(g: Seq<(String, Vec<String>)>, forward: bool, m: Seq<char>, n: Seq<char>)
    requires
        step(g, forward, m, n),
    ensures
        flat(g).contains(n),
{
    if forward {
        let (i, j) = choose|i: int, j: int| #[trigger] entry_link(g, i, j, m, n);
        lemma_flat_contains(g, i, j);
    } else {
        let (i, j) = choose|i: int, j: int| #[trigger] entry_link(g, i, j, n, m);
        lemma_flat_contains(g, i, j);
    }
}

/// A list without repeats whose names all lie in `flat(g)` or are `t` is
/// no longer than `flat(g)` plus one.
proof fn lemma_visited_bound(g: Seq<(String, Vec<String>)>, t: Seq<char>, v: Seq<Seq<char>>)
    requires
        v.no_duplicates(),
        forall|x: Seq<char>| v.contains(x) ==> x == t || flat(g).contains(x),
    ensures
        v.len() <= flat(g).len() + 1,
{
    let f = flat(g);
    v.unique_seq_to_set();
    f.lemma_cardinality_of_set();
    let big = f.to_set().insert(t);
    assert(v.to_set().subset_of(big));
    lemma_len_subset(v.to_set(), big);
}

/// The names reachable in one step from `frontier` that are not in
/// `visited`, from the entries before `i`.
pub open spec fn found_before(
    g: Seq<(String, Vec<String>)>,
    forward: bool,
    visited: Set<Seq<char>>,
    frontier: Set<Seq<char>>,
    i: int,
) -> Set<Seq<char>> {
    Set::new(
        |n: Seq<char>|
            !visited.contains(n) && exists|i2: int, j2: int|
                0 <= i2 < i && #[trigger] entry_link(g, i2, j2, g[i2].0@, g[i2].1@[j2]@) && (if forward {
                    frontier.contains(g[i2].0@) && g[i2].1@[j2]@ == n
                } else {
                    g[i2].0@ == n && frontier.contains(g[i2].1@[j2]@)
                }),
    )
}

/// The names one step from `frontier` that are not in `visited`, sorted.
fn next_layer(g: &Vec<(String, Vec<String>)>, forward: bool, visited: &Vec<String>, frontier: &Vec<String>) -> (next: Vec<String>)
    ensures
        strictly_sorted(names(next@)),
        names(next@).to_set() == Set::new(
            |n: Seq<char>|
                !names(visited@).to_set().contains(n) && exists|m: Seq<char>|
                    #[trigger] names(frontier@).to_set().contains(m) && step(g@, forward, m, n),
        ),
{
    let ghost vs = names(visited@).to_set();
    let ghost fs = names(frontier@).to_set();
    let mut next: Vec<String> = Vec::new();
    let mut i: usize = 0;
    assert(names(next@).to_set() =~= found_before(g@, forward, vs, fs, 0));
    while i < g.len()
        invariant
            i <= g.len(),
            vs == names(visited@).to_set(),
            fs == names(frontier@).to_set(),
            strictly_sorted(names(next@)),
            names(next@).to_set() == found_before(g@, forward, vs, fs, i as int),
        decreases g.len() - i,
    {
        let ghost before = names(next@).to_set();
        let entry = &g[i];
        if forward {
            let from_frontier = contains_name(frontier, &entry.0);
            let mut j: usize = 0;
            while j < entry.1.len()
                invariant
                    i < g.len(),
                    *entry == g@[i as int],
                    j <= entry.1.len(),
                    vs == names(visited@).to_set(),
                    fs == names(frontier@).to_set(),
                    from_frontier == fs.contains(entry.0@),
                    strictly_sorted(names(next@)),
                    names(next@).to_set() == before.union(
                        Set::new(
                            |n: Seq<char>|
                                !vs.contains(n) && from_frontier && exists|j2: int|
                                    0 <= j2 < j && #[trigger] entry.1@[j2]@ == n,
                        ),
                    ),
                decreases entry.1.len() - j,
            {
                let ghost prev = names(next@).to_set();
                let n = &entry.1[j];
                if from_frontier && !contains_name(visited, n) {
                    proof {
                        assert(names(visited@).contains(n@) == vs.contains(n@));
                    }
                    insert_name(&mut next, n.clone());
                }
                proof {
                    assert(names(visited@).contains(n@) == vs.contains(n@));
                    assert(names(next@).to_set() =~= before.union(
                        Set::new(
                            |x: Seq<char>|
                                !vs.contains(x) && from_frontier && exists|j2: int|
                                    0 <= j2 < j + 1 && #[trigger] entry.1@[j2]@ == x,
                        ),
                    ));
                }
                j += 1;
            }
        } else {
            let n = &entry.0;
            let mut hit = false;
            let mut j: usize = 0;
            while j < entry.1.len()
                invariant
                    i < g.len(),
                    *entry == g@[i as int],
                    j <= entry.1.len(),
                    fs == names(frontier@).to_set(),
                    hit == exists|j2: int| 0 <= j2 < j && fs.contains(#[trigger] entry.1@[j2]@),
                decreases entry.1.len() - j,
            {
                if contains_name(frontier, &entry.1[j]) {
                    hit = true;
                }
                j += 1;
            }
            if hit && !contains_name(visited, n) {
                insert_name(&mut next, n.clone());
            }
            proof {
                assert(names(visited@).contains(n@) == vs.contains(n@));
            }
        }
        proof {
            let cur = found_before(g@, forward, vs, fs, i as int);
            let nxt = found_before(g@, forward, vs, fs, i + 1);
            assert forall|x: Seq<char>| nxt.contains(x) <==> names(next@).to_set().contains(x) by {
                if nxt.contains(x) {
                    let (i2, j2) = choose|i2: int, j2: int|
                        0 <= i2 < i + 1 && #[trigger] entry_link(g@, i2, j2, g@[i2].0@, g@[i2].1@[j2]@) && (if forward {
                            fs.contains(g@[i2].0@) && g@[i2].1@[j2]@ == x
                        } else {
                            g@[i2].0@ == x && fs.contains(g@[i2].1@[j2]@)
                        });
                    if i2 < i {
                        assert(cur.contains(x));
                    }
                }
                if cur.contains(x) {
                    let (i2, j2) = choose|i2: int, j2: int|
                        0 <= i2 < i && #[trigger] entry_link(g@, i2, j2, g@[i2].0@, g@[i2].1@[j2]@) && (if forward {
                            fs.contains(g@[i2].0@) && g@[i2].1@[j2]@ == x
                        } else {
                            g@[i2].0@ == x && fs.contains(g@[i2].1@[j2]@)
                        });
                    assert(entry_link(g@, i2, j2, g@[i2].0@, g@[i2].1@[j2]@));
                }
                if names(next@).to_set().contains(x) && !cur.contains(x) {
                    if forward {
                        let j2 = choose|j2: int| 0 <= j2 < entry.1@.len() && #[trigger] entry.1@[j2]@ == x;
                        assert(entry_link(g@, i as int, j2, g@[i as int].0@, g@[i as int].1@[j2]@));
                    } else {
                        let j2 = choose|j2: int| 0 <= j2 < entry.1@.len() && fs.contains(#[trigger] entry.1@[j2]@);
                        assert(entry_link(g@, i as int, j2, g@[i as int].0@, g@[i as int].1@[j2]@));
                    }
                }
            }
            assert(nxt =~= names(next@).to_set());
        }
        i += 1;
    }
    proof {
        let all = found_before(g@, forward, vs, fs, g.len() as int);
        let want = Set::new(
            |n: Seq<char>|
                !vs.contains(n) && exists|m: Seq<char>| #[trigger] fs.contains(m) && step(g@, forward, m, n),
        );
        assert forall|x: Seq<char>| all.contains(x) <==> want.contains(x) by {
            if all.contains(x) {
                let (i2, j2) = choose|i2: int, j2: int|
                    0 <= i2 < g.len() && #[trigger] entry_link(g@, i2, j2, g@[i2].0@, g@[i2].1@[j2]@) && (if forward {
                        fs.contains(g@[i2].0@) && g@[i2].1@[j2]@ == x
                    } else {
                        g@[i2].0@ == x && fs.contains(g@[i2].1@[j2]@)
                    });
                if forward {
                    assert(entry_link(g@, i2, j2, g@[i2].0@, x));
                    assert(step(g@, forward, g@[i2].0@, x));
                } else {
                    assert(entry_link(g@, i2, j2, x, g@[i2].1@[j2]@));
                    assert(step(g@, forward, g@[i2].1@[j2]@, x));
                }
            }
            if want.contains(x) {
                let m = choose|m: Seq<char>| #[trigger] fs.contains(m) && step(g@, forward, m, x);
                if forward {
                    let (i2, j2) = choose|i2: int, j2: int| #[trigger] entry_link(g@, i2, j2, m, x);
                    assert(entry_link(g@, i2, j2, g@[i2].0@, g@[i2].1@[j2]@));
                } else {
                    let (i2, j2) = choose|i2: int, j2: int| #[trigger] entry_link(g@, i2, j2, x, m);
                    assert(entry_link(g@, i2, j2, g@[i2].0@, g@[i2].1@[j2]@));
                }
            }
        }
        assert(all =~= want);
    }
    next
}

/// A copy of a list of strings.
pub fn copy_names(v: &Vec<String>) -> (r: Vec<String>)
    ensures
        r@ == v@,
{
    let mut r: Vec<String> = Vec::new();
    let mut i: usize = 0;
    while i < v.len()
        invariant
            i <= v.len(),
            r@ == v@.take(i as int),
        decreases v.len() - i,
    {
        r.push(v[i].clone());
        assert(r@ =~= v@.take(i + 1));
        i += 1;
    }
    assert(v@.take(v.len() as int) =~= v@);
    r
}

/// The breadth-first layers from `t`, each sorted: layer `k` holds exactly
/// the nodes at distance `k`. The walk stops at depth `max_depth`, or at the
/// first empty layer, which is not included.
pub fn bfs_layers(g: &Vec<(String, Vec<String>)>, forward: bool, t: &String, max_depth: usize) -> (layers: Vec<Vec<String>>)
    ensures
        1 <= layers.len() <= max_depth + 1,
        forall|k: int| 0 <= k < layers.len() ==> strictly_sorted(names(#[trigger] layers@[k]@)),
        forall|k: int|
            0 <= k < layers.len() ==> names(#[trigger] layers@[k]@).to_set() == ring(g@, forward, t@, k as nat),
        forall|k: int| 0 <= k < layers.len() ==> (#[trigger] layers@[k]).len() > 0,
        layers.len() <= max_depth ==> ring(g@, forward, t@, layers.len() as nat) == Set::<Seq<char>>::empty(),
{
    let mut visited: Vec<String> = Vec::new();
    visited.push(t.clone());
    let mut frontier: Vec<String> = Vec::new();
    frontier.push(t.clone());
    let mut layers: Vec<Vec<String>> = Vec::new();
    layers.push(copy_names(&frontier));
    let mut k: usize = 0;
    let mut done = false;
    proof {
        assert(names(visited@) =~= seq![t@]);
        assert(names(visited@).to_set() =~= reach(g@, forward, t@, 0)) by {
            assert forall|x: Seq<char>| names(visited@).to_set().contains(x) <==> x == t@ by {
                if x == t@ {
                    assert(names(visited@)[0] == x);
                }
            }
        }
        assert(names(frontier@).to_set() =~= ring(g@, forward, t@, 0));
        assert(names(visited@).no_duplicates());
    }
    while k < max_depth && !done
        invariant
            k <= max_depth,
            layers.len() == k + 1,
            layers@[k as int]@ == frontier@,
            forall|q: int| 0 <= q < layers.len() ==> strictly_sorted(names(#[trigger] layers@[q]@)),
            forall|q: int|
                0 <= q < layers.len() ==> names(#[trigger] layers@[q]@).to_set() == ring(g@, forward, t@, q as nat),
            forall|q: int| 0 <= q < layers.len() ==> (#[trigger] layers@[q]).len() > 0,
            names(visited@).to_set() == reach(g@, forward, t@, k as nat),
            names(visited@).no_duplicates(),
            forall|x: Seq<char>| names(visited@).contains(x) ==> x == t@ || flat(g@).contains(x),
            visited.len() <= flat(g@).len() + 1,
            done ==> ring(g@, forward, t@, (k + 1) as nat) == Set::<Seq<char>>::empty(),
        decreases flat(g@).len() + 2 - visited.len() - (if done { 1int } else { 0int }),
    {
        let next = next_layer(g, forward, &visited, &frontier);
        proof {
            lemma_ring_next(g@, forward, t@, k as nat);
            assert(names(next@).to_set() =~= ring(g@, forward, t@, (k + 1) as nat));
        }
        if next.len() == 0 {
            proof {
                assert(names(next@).to_set() =~= Set::<Seq<char>>::empty());
            }
            done = true;
        } else {
            let ghost old_visited = names(visited@);
            let mut a: usize = 0;
            while a < next.len()
                invariant
                    a <= next.len(),
                    names(visited@) == old_visited + names(next@).take(a as int),
                decreases next.len() - a,
            {
                let ghost vprev = visited@;
                visited.push(next[a].clone());
                assert(names(visited@) =~= names(vprev).push(next@[a as int]@));
                assert(names(next@).take(a + 1) =~= names(next@).take(a as int).push(next@[a as int]@));
                assert(names(visited@) =~= old_visited + names(next@).take(a + 1));
                a += 1;
            }
            proof {
                let nn = names(next@);
                assert(nn.take(nn.len() as int) =~= nn);
                assert(names(visited@) == old_visited + nn);
                assert forall|p: int, q: int| 0 <= p < q < nn.len() implies nn[p] != nn[q] by {
                    assert(crate::sorting::lex_lt(nn[p], nn[q]));
                    crate::sorting::lemma_lex_irreflexive(nn[p]);
                }
                assert forall|p: int, q: int| 0 <= p < old_visited.len() && 0 <= q < nn.len() implies old_visited[p] != nn[q] by {
                    let x = nn[q];
                    assert(nn.to_set().contains(x));
                    assert(ring(g@, forward, t@, (k + 1) as nat).contains(x));
                    assert(!old_visited.to_set().contains(x));
                    assert(old_visited.to_set().contains(old_visited[p]));
                }
                vstd::seq_lib::lemma_no_dup_in_concat(old_visited, nn);
                assert(names(visited@).to_set() =~= reach(g@, forward, t@, (k + 1) as nat)) by {
                    assert forall|x: Seq<char>| names(visited@).to_set().contains(x) <==> reach(
                        g@,
                        forward,
                        t@,
                        (k + 1) as nat,
                    ).contains(x) by {
                        if old_visited.contains(x) {
                            assert(old_visited.to_set().contains(x));
                            lemma_reach_mono(g@, forward, t@, k as nat, (k + 1) as nat);
                        }
                        if nn.contains(x) {
                            assert(nn.to_set().contains(x));
                        }
                        if reach(g@, forward, t@, (k + 1) as nat).contains(x) {
                            if reach(g@, forward, t@, k as nat).contains(x) {
                                assert(old_visited.to_set().contains(x));
                                let p = choose|p: int| 0 <= p < old_visited.len() && old_visited[p] == x;
                                assert(names(visited@)[p] == x);
                            } else {
                                assert(ring(g@, forward, t@, (k + 1) as nat).contains(x));
                                assert(nn.to_set().contains(x));
                                let p = choose|p: int| 0 <= p < nn.len() && nn[p] == x;
                                assert(names(visited@)[old_visited.len() + p] == x);
                            }
                        }
                    }
                }
                assert forall|x: Seq<char>| names(visited@).contains(x) implies x == t@ || flat(g@).contains(x) by {
                    let p = choose|p: int| 0 <= p < names(visited@).len() && names(visited@)[p] == x;
                    if p >= old_visited.len() {
                        assert(nn[p - old_visited.len()] == x);
                        assert(nn.to_set().contains(x));
                        let m = choose|m: Seq<char>|
                            #[trigger] names(frontier@).to_set().contains(m) && step(g@, forward, m, x);
                        lemma_step_in_flat(g@, forward, m, x);
                    } else {
                        assert(old_visited.contains(x));
                    }
                }
                lemma_visited_bound(g@, t@, names(visited@));
            }
            let copy = copy_names(&next);
            layers.push(copy);
            frontier = next;
            k += 1;
        }
    }
    proof {
        if !done {
            assert(k == max_depth);
        }
    }
    layers
}

} // verus!
