//! The decisions behind the directory-tree tool: which entries are left
//! out, how a chain of lone sub-directories is folded into one line, and
//! the order of a listing (directories first, then by name).
use vstd::prelude::*;
use crate::text::{starts_with, to_chars, from_chars, append_chars, starts_with_exec, eq_str};
use crate::sorting::{lex_lt, name_lt, lemma_lex_transitive, lemma_lex_total, lemma_lex_asymmetric};
use crate::server::markdown::TreeNode;

verus! {

/// Entries the tree never shows: build output, dependencies, the Git
/// directory and the tool's own `.souls*` directories.
pub open spec fn hidden_entry(name: Seq<char>) -> bool {
    name == "target"@ || name == "node_modules"@ || name == ".git"@ || starts_with(name, ".souls"@)
}

/// Whether the tree leaves out an entry of this name.
pub fn is_hidden_tree_entry(name: &str) -> (b: bool)
    ensures
        b == hidden_entry(name@),
{
    let n = to_chars(name);
    eq_str(&n, "target") || eq_str(&n, "node_modules") || eq_str(&n, ".git") || starts_with_exec(&n, &to_chars(".souls"))
}

/// The node of a directory named `name` whose listing is `children`: a
/// directory holding exactly one entry, itself a directory, is folded into
/// one node named `name/child` that holds the child's entries.
pub fn directory_node(name: String, children: Vec<TreeNode>) -> (r: TreeNode)
    ensures
        r.is_dir,
        children@.len() == 1 && children@[0].is_dir ==> r.name@ == name@ + "/"@ + children@[0].name@
            && r.children@ == children@[0].children@,
        !(children@.len() == 1 && children@[0].is_dir) ==> r.name@ == name@ && r.children@ == children@,
{
    let mut children = children;
    if children.len() == 1 && children[0].is_dir {
        let child = children.remove(0);
        let mut n = to_chars(name.as_str());
        append_chars(&mut n, &to_chars("/"));
        append_chars(&mut n, &to_chars(child.name.as_str()));
        TreeNode { name: from_chars(&n), is_dir: true, children: child.children }
    } else {
        TreeNode { name, is_dir: true, children }
    }
}

/// The node of a file.
pub fn file_node(name: String) -> (r: TreeNode)
    ensures
        !r.is_dir,
        r.name@ == name@,
        r.children@.len() == 0,
{
    TreeNode { name, is_dir: false, children: Vec::new() }
}

// ---------------------------------------------------------------------------
// Listing order
// ---------------------------------------------------------------------------

/// `a` is listed before `b`: directories before files, then by name.
pub open spec fn node_before(a: TreeNode, b: TreeNode) -> bool {
    (a.is_dir && !b.is_dir) || (a.is_dir == b.is_dir && lex_lt(a.name@, b.name@))
}

/// A listing in order: no entry is listed before one that precedes it.
pub open spec fn nodes_sorted(s: Seq<TreeNode>) -> bool {
    forall|i: int, j: int| 0 <= i < j < s.len() ==> !node_before(#[trigger] s[j], #[trigger] s[i])
}

/// `x` put into the ordered listing `s`, after every entry not listed
/// after it.
pub open spec fn insert_node(s: Seq<TreeNode>, x: TreeNode) -> Seq<TreeNode>
    decreases s.len(),
{
    if s.len() == 0 {
        seq![x]
    } else if node_before(x, s.last()) {
        insert_node(s.drop_last(), x).push(s.last())
    } else {
        s.push(x)
    }
}

/// The listing `s` in order, entries that tie keeping their order (the
/// stable sort `sort_by` gives).
pub open spec fn sort_nodes(s: Seq<TreeNode>) -> Seq<TreeNode>
    decreases s.len(),
{
    if s.len() == 0 {
        Seq::empty()
    } else {
        insert_node(sort_nodes(s.drop_last()), s.last())
    }
}

fn node_before_exec(a: &TreeNode, b: &TreeNode) -> (r: bool)
    ensures
        r == node_before(*a, *b),
{
    if a.is_dir && !b.is_dir {
        true
    } else if a.is_dir == b.is_dir {
        name_lt(&a.name, &b.name)
    } else {
        false
    }
}

/// Puts `x` into the ordered listing `out`.
fn insert_sorted(out: &mut Vec<TreeNode>, x: TreeNode)
    ensures
        final(out)@ == insert_node(old(out)@, x),
{
    let ghost s = out@;
    let mut p = out.len();
    assert(s.take(p as int) =~= s);
    assert(s.skip(p as int) =~= Seq::<TreeNode>::empty());
    while p > 0 && node_before_exec(&x, &out[p - 1])
        invariant
            p <= out.len(),
            out@ == s,
            insert_node(s, x) == insert_node(s.take(p as int), x) + s.skip(p as int),
        decreases p,
    {
        let ghost t = s.take(p as int);
        assert(t.drop_last() =~= s.take(p - 1));
        assert(t.last() == s[p - 1]);
        assert(s.skip(p - 1) =~= seq![s[p - 1]] + s.skip(p as int));
        assert(insert_node(t, x) == insert_node(s.take(p - 1), x).push(s[p - 1]));
        assert(insert_node(s.take(p - 1), x).push(s[p - 1]) + s.skip(p as int) =~= insert_node(
            s.take(p - 1),
            x,
        ) + s.skip(p - 1));
        p = p - 1;
    }
    proof {
        let t = s.take(p as int);
        if p == 0 {
            assert(t =~= Seq::<TreeNode>::empty());
        }
        assert(insert_node(t, x) =~= t.push(x));
        assert(t.push(x) + s.skip(p as int) =~= s.insert(p as int, x));
    }
    out.insert(p, x);
}

/// A directory listing in order: directories first, then files, each group
/// by name (`String` order); entries that tie keep their order.
pub fn sort_tree_nodes(nodes: Vec<TreeNode>) -> (r: Vec<TreeNode>)
    ensures
        r@ == sort_nodes(nodes@),
{
    let ghost orig = nodes@;
    assert(orig.len() == nodes.len());
    let mut rest = nodes;
    let mut out: Vec<TreeNode> = Vec::new();
    let mut k: usize = 0;
    assert(orig.take(0) =~= Seq::<TreeNode>::empty());
    assert(orig.skip(0) =~= orig);
    while rest.len() > 0
        invariant
            k <= orig.len() <= usize::MAX,
            rest@ == orig.skip(k as int),
            rest@.len() == orig.len() - k,
            out@ == sort_nodes(orig.take(k as int)),
        decreases rest.len(),
    {
        let x = rest.remove(0);
        assert(orig.take(k + 1).drop_last() =~= orig.take(k as int));
        assert(orig.take(k + 1).last() == x);
        assert(rest@ =~= orig.skip(k + 1));
        insert_sorted(&mut out, x);
        k = k + 1;
    }
    assert(orig.take(k as int) =~= orig);
    out
}

// ---------------------------------------------------------------------------
// The order is a listing order
// ---------------------------------------------------------------------------

proof fn lemma_before_asymmetric(a: TreeNode, b: TreeNode)
    requires
        node_before(a, b),
    ensures
        !node_before(b, a),
{
    if a.is_dir == b.is_dir {
        lemma_lex_asymmetric(a.name@, b.name@);
    }
}

/// If `x` comes before `z`, any `y` comes after `x` or before `z`.
proof fn lemma_before_split(x: TreeNode, y: TreeNode, z: TreeNode)
    requires
        node_before(x, z),
    ensures
        node_before(x, y) || node_before(y, z),
{
    if x.is_dir == y.is_dir && y.is_dir == z.is_dir {
        if x.name@ != y.name@ {
            lemma_lex_total(x.name@, y.name@);
            if lex_lt(y.name@, x.name@) {
                lemma_lex_transitive(y.name@, x.name@, z.name@);
            }
        }
    }
}

proof fn lemma_insert_contents(s: Seq<TreeNode>, x: TreeNode)
    ensures
        insert_node(s, x).to_multiset() == s.to_multiset().insert(x),
        insert_node(s, x).len() == s.len() + 1,
    decreases s.len(),
{
    broadcast use vstd::seq_lib::group_to_multiset_ensures;

    if s.len() == 0 {
        assert(seq![x] =~= Seq::<TreeNode>::empty().push(x));
    } else if node_before(x, s.last()) {
        lemma_insert_contents(s.drop_last(), x);
        assert(s.drop_last().push(s.last()) =~= s);
        assert(s.to_multiset() == s.drop_last().to_multiset().insert(s.last()));
        assert(insert_node(s, x).to_multiset() =~= s.to_multiset().insert(x));
    }
}

proof fn lemma_insert_sorted(s: Seq<TreeNode>, x: TreeNode)
    requires
        nodes_sorted(s),
    ensures
        nodes_sorted(insert_node(s, x)),
    decreases s.len(),
{
    broadcast use vstd::seq_lib::group_to_multiset_ensures;

    if s.len() == 0 {
    } else if node_before(x, s.last()) {
        let d = s.drop_last();
        assert(nodes_sorted(d)) by {
            assert forall|i: int, j: int| 0 <= i < j < d.len() implies !node_before(#[trigger] d[j], #[trigger] d[i]) by {
                assert(d[i] == s[i] && d[j] == s[j]);
            }
        }
        lemma_insert_sorted(d, x);
        lemma_insert_contents(d, x);
        let m = insert_node(d, x);
        let r = m.push(s.last());
        assert forall|i: int, j: int| 0 <= i < j < r.len() implies !node_before(#[trigger] r[j], #[trigger] r[i]) by {
            if j == r.len() - 1 {
                let e = m[i];
                assert(m.contains(e));
                assert(m.to_multiset().count(e) > 0);
                if e == x {
                    lemma_before_asymmetric(x, s.last());
                } else {
                    assert(d.to_multiset().count(e) > 0);
                    assert(d.contains(e));
                    let q = choose|q: int| 0 <= q < d.len() && d[q] == e;
                    assert(s[q] == e);
                    assert(!node_before(s[s.len() - 1], s[q]));
                }
            } else {
                assert(r[i] == m[i] && r[j] == m[j]);
            }
        }
    } else {
        let r = s.push(x);
        assert forall|i: int, j: int| 0 <= i < j < r.len() implies !node_before(#[trigger] r[j], #[trigger] r[i]) by {
            if j == r.len() - 1 {
                if i < s.len() - 1 {
                    assert(!node_before(s[s.len() - 1], s[i]));
                    if node_before(x, s[i]) {
                        lemma_before_split(x, s[s.len() - 1], s[i]);
                    }
                }
            } else {
                assert(r[i] == s[i] && r[j] == s[j]);
            }
        }
    }
}

/// A listing comes out in order, with the same entries: directories before
/// files, each group by name, nothing added or lost.
pub proof fn law_tree_listing_order(s: Seq<TreeNode>)
    ensures
        nodes_sorted(sort_nodes(s)),
        sort_nodes(s).to_multiset() == s.to_multiset(),
    decreases s.len(),
{
    broadcast use vstd::seq_lib::group_to_multiset_ensures;

    if s.len() > 0 {
        law_tree_listing_order(s.drop_last());
        lemma_insert_sorted(sort_nodes(s.drop_last()), s.last());
        lemma_insert_contents(sort_nodes(s.drop_last()), s.last());
        assert(s.drop_last().push(s.last()) =~= s);
    }
}


/// Law of the tree listing: it hides exactly `target`, `node_modules`,
/// `.git` and every name that starts with `.souls`.
pub proof fn law_tree_hides_build_and_tool_dirs(name: Seq<char>)
    ensures
        hidden_entry(name) <==> (name == "target"@ || name == "node_modules"@ || name == ".git"@ || starts_with(
            name,
            ".souls"@,
        )),
{
}

} // verus!
