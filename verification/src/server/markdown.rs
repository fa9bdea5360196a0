//! The Markdown reports of the MCP server: system time, web-search results,
//! table cells, directory trees and Rust outlines.
use vstd::prelude::*;
use crate::text::{
    decimal, decimal_int, decimal_exec, decimal_i64_exec, trim, trim_end, lines, join, views, starts_with, find,
    to_chars, from_chars, append_chars, push_str_chars, trim_end_chars, trim_chars, lines_exec, join_exec,
    starts_with_exec, find_from_exec, take_chars, total_len, lemma_lines_len, lemma_total_len_prefix,
};

verus! {

// ---------------------------------------------------------------------------
// System time
// ---------------------------------------------------------------------------

/// The system-time report for `now_epoch` seconds.
pub open spec fn time_markdown(now_epoch: int) -> Seq<char> {
    "### Status Temporal do Sistema SOULS\n\n- **Epoch:** `"@ + decimal_int(now_epoch)
        + "` s\n- **Status:** Sincronizado nativamente via std::time"@
}

/// The system-time report for `now_epoch` seconds since the Unix epoch.
pub fn format_time_markdown(now_epoch: i64) -> (r: String)
    ensures
        r@ == time_markdown(now_epoch as int),
{
    let mut out = to_chars("### Status Temporal do Sistema SOULS\n\n- **Epoch:** `");
    let d = decimal_i64_exec(now_epoch);
    append_chars(&mut out, &d);
    push_str_chars(&mut out, "` s\n- **Status:** Sincronizado nativamente via std::time");
    from_chars(&out)
}

// ---------------------------------------------------------------------------
// Web search results
// ---------------------------------------------------------------------------

/// One web-search hit.
pub struct DuckDuckGoItem {
    pub title: String,
    pub url: String,
    pub snippet: String,
}

/// The Markdown block of the hit numbered `number`.
pub open spec fn search_item_markdown(number: nat, it: DuckDuckGoItem) -> Seq<char> {
    decimal(number) + ". **["@ + it.title@ + "]("@ + it.url@ + ")**\n   - **URL:** `"@ + it.url@
        + "`\n   - **Snippet:** "@ + (if it.snippet@.len() == 0 {
        "Sem snippet disponível."@
    } else {
        it.snippet@
    }) + "\n\n"@
}

/// The blocks of all hits, numbered from 1.
pub open spec fn search_items_markdown(items: Seq<DuckDuckGoItem>) -> Seq<char>
    decreases items.len(),
{
    if items.len() == 0 {
        Seq::empty()
    } else {
        search_items_markdown(items.drop_last()) + search_item_markdown(items.len(), items.last())
    }
}

/// The web-search report for `query`.
pub open spec fn search_results_markdown(query: Seq<char>, items: Seq<DuckDuckGoItem>) -> Seq<char> {
    trim_end(
        "### Resultados da Busca Web (DuckDuckGo)\n\n**Query:** `"@ + query + "`\n**Resultados:** "@ + decimal(
            items.len(),
        ) + "\n\n"@ + search_items_markdown(items),
    )
}

/// The web-search report: a header with the query and the number of hits,
/// then each hit with its title, link and snippet.
pub fn format_duckduckgo_results_markdown(query: &str, results: &[DuckDuckGoItem]) -> (r: String)
    ensures
        r@ == search_results_markdown(query@, results@),
{
    let mut out = to_chars("### Resultados da Busca Web (DuckDuckGo)\n\n**Query:** `");
    append_chars(&mut out, &to_chars(query));
    push_str_chars(&mut out, "`\n**Resultados:** ");
    append_chars(&mut out, &decimal_exec(results.len() as u64));
    push_str_chars(&mut out, "\n\n");
    let ghost head = out@;
    let mut idx: usize = 0;
    while idx < results.len()
        invariant
            idx <= results.len(),
            out@ == head + search_items_markdown(results@.take(idx as int)),
        decreases results.len() - idx,
    {
        let item = &results[idx];
        let ghost before = out@;
        append_chars(&mut out, &decimal_exec((idx + 1) as u64));
        push_str_chars(&mut out, ". **[");
        append_chars(&mut out, &to_chars(item.title.as_str()));
        push_str_chars(&mut out, "](");
        append_chars(&mut out, &to_chars(item.url.as_str()));
        push_str_chars(&mut out, ")**\n   - **URL:** `");
        append_chars(&mut out, &to_chars(item.url.as_str()));
        push_str_chars(&mut out, "`\n   - **Snippet:** ");
        if item.snippet.as_str().is_empty() {
            push_str_chars(&mut out, "Sem snippet disponível.");
        } else {
            append_chars(&mut out, &to_chars(item.snippet.as_str()));
        }
        push_str_chars(&mut out, "\n\n");
        proof {
            let t = results@.take(idx + 1);
            assert(t.drop_last() =~= results@.take(idx as int));
            assert(t.last() == *item);
            assert(out@ =~= before + search_item_markdown((idx + 1) as nat, *item));
        }
        idx += 1;
    }
    assert(results@.take(results.len() as int) =~= results@);
    from_chars(&trim_end_chars(&out))
}

// ---------------------------------------------------------------------------
// Table cells
// ---------------------------------------------------------------------------

/// One character of a table cell, escaped.
pub open spec fn escape_cell_char(c: char) -> Seq<char> {
    if c == '\n' {
        seq![' ']
    } else if c == '\r' {
        Seq::empty()
    } else if c == '|' {
        seq!['\\', '|']
    } else {
        seq![c]
    }
}

/// A table cell on one line: line feeds become spaces, carriage returns
/// go, pipes are escaped.
pub open spec fn escape_cell(s: Seq<char>) -> Seq<char>
    decreases s.len(),
{
    if s.len() == 0 {
        Seq::empty()
    } else {
        escape_cell(s.drop_last()) + escape_cell_char(s.last())
    }
}

/// `s` as a Markdown table cell on one line.
pub fn escape_markdown_cell(s: &str) -> (r: String)
    ensures
        r@ == escape_cell(s@),
{
    let cs = to_chars(s);
    let mut out: Vec<char> = Vec::new();
    let mut i: usize = 0;
    while i < cs.len()
        invariant
            i <= cs.len(),
            cs@ == s@,
            out@ == escape_cell(cs@.take(i as int)),
        decreases cs.len() - i,
    {
        let c = cs[i];
        if c == '\n' {
            out.push(' ');
        } else if c == '\r' {
        } else if c == '|' {
            out.push('\\');
            out.push('|');
        } else {
            out.push(c);
        }
        assert(cs@.take(i + 1).drop_last() =~= cs@.take(i as int));
        assert(out@ =~= escape_cell(cs@.take(i + 1)));
        i += 1;
    }
    assert(cs@.take(cs.len() as int) =~= cs@);
    from_chars(&out)
}

// ---------------------------------------------------------------------------
// Directory trees
// ---------------------------------------------------------------------------

/// A directory entry; a directory holds its entries.
pub struct TreeNode {
    pub name: String,
    pub is_dir: bool,
    pub children: Vec<TreeNode>,
}

/// The drawing of `nodes` under `prefix`: one line per entry, with a
/// branch (`├── `, or `└── ` for the last) and a `/` after directories,
/// whose entries follow, drawn deeper.
pub open spec fn tree_markdown(nodes: Seq<TreeNode>, prefix: Seq<char>) -> Seq<char>
    decreases nodes,
{
    if nodes.len() == 0 {
        Seq::empty()
    } else {
        let n = nodes[0];
        let last = nodes.len() == 1;
        let connector = if last {
            "└── "@
        } else {
            "├── "@
        };
        let child_prefix = if last {
            "    "@
        } else {
            "│   "@
        };
        let head = if n.is_dir {
            prefix + connector + n.name@ + "/\n"@
        } else {
            prefix + connector + n.name@ + "\n"@
        };
        let below = if n.is_dir {
            proof {
                assert(decreases_to!(nodes => nodes[0]));
            }
            tree_markdown(n.children@, prefix + child_prefix)
        } else {
            Seq::empty()
        };
        proof {
            assert(decreases_to!(nodes => nodes.drop_first()));
        }
        head + below + tree_markdown(nodes.drop_first(), prefix)
    }
}

fn tree_lines(nodes: &[TreeNode], prefix: &Vec<char>) -> (r: Vec<char>)
    ensures
        r@ == tree_markdown(nodes@, prefix@),
    decreases nodes@,
{
    let mut out: Vec<char> = Vec::new();
    let count = nodes.len();
    let mut idx: usize = 0;
    assert(nodes@.skip(0) =~= nodes@);
    while idx < count
        invariant
            idx <= count == nodes@.len(),
            out@ + tree_markdown(nodes@.skip(idx as int), prefix@) == tree_markdown(nodes@, prefix@),
        decreases count - idx,
    {
        let node = &nodes[idx];
        let is_last = idx == count - 1;
        let ghost rest = nodes@.skip(idx as int);
        assert(rest[0] == *node);
        assert(rest.drop_first() =~= nodes@.skip(idx + 1));
        let ghost before = out@;
        append_chars(&mut out, prefix);
        if is_last {
            push_str_chars(&mut out, "└── ");
        } else {
            push_str_chars(&mut out, "├── ");
        }
        append_chars(&mut out, &to_chars(node.name.as_str()));
        if node.is_dir {
            push_str_chars(&mut out, "/\n");
            let mut child_prefix: Vec<char> = Vec::new();
            append_chars(&mut child_prefix, prefix);
            if is_last {
                push_str_chars(&mut child_prefix, "    ");
            } else {
                push_str_chars(&mut child_prefix, "│   ");
            }
            proof {
                assert(decreases_to!(nodes@ => nodes@[idx as int]));
            }
            let sub = tree_lines(node.children.as_slice(), &child_prefix);
            append_chars(&mut out, &sub);
        } else {
            push_str_chars(&mut out, "\n");
        }
        proof {
            assert(rest.len() == 1 <==> is_last);
        }
        assert(out@ + tree_markdown(nodes@.skip(idx + 1), prefix@) =~= before + tree_markdown(rest, prefix@));
        idx += 1;
    }
    assert(nodes@.skip(count as int) =~= Seq::<TreeNode>::empty());
    out
}

/// The drawing of a directory tree, each entry on a line under `prefix`.
pub fn format_dir_nodes(nodes: &[TreeNode], prefix: &str) -> (r: String)
    ensures
        r@ == tree_markdown(nodes@, prefix@),
{
    let p = to_chars(prefix);
    from_chars(&tree_lines(nodes, &p))
}

// ---------------------------------------------------------------------------
// Rust outlines
// ---------------------------------------------------------------------------

/// A line that opens a type or an `impl`.
pub open spec fn opens_item(t: Seq<char>) -> bool {
    starts_with(t, "pub struct "@) || starts_with(t, "struct "@) || starts_with(t, "pub enum "@) || starts_with(
        t,
        "enum "@,
    ) || starts_with(t, "pub trait "@) || starts_with(t, "trait "@) || starts_with(t, "impl "@) || starts_with(
        t,
        "pub impl "@,
    )
}

/// A line that declares a function.
pub open spec fn declares_fn(t: Seq<char>) -> bool {
    starts_with(t, "pub fn "@) || starts_with(t, "fn "@) || starts_with(t, "pub async fn "@) || starts_with(
        t,
        "async fn "@,
    )
}

/// How many times `c` occurs in `s`.
pub open spec fn count_of(s: Seq<char>, c: char) -> nat
    decreases s.len(),
{
    if s.len() == 0 {
        0
    } else {
        count_of(s.drop_last(), c) + (if s.last() == c {
            1nat
        } else {
            0nat
        })
    }
}

/// The signature of a function line: up to its first `{`, trimmed.
pub open spec fn fn_signature(t: Seq<char>) -> Seq<char> {
    let end = match find(t, seq!['{']) {
        Some(k) => k,
        None => t.len() as int,
    };
    trim(t.take(end))
}

/// The outline lines, whether an item body is open, and the brace depth,
/// after `ls`.
pub open spec fn outline_fold(ls: Seq<Seq<char>>) -> (Seq<Seq<char>>, bool, int)
    decreases ls.len(),
{
    if ls.len() == 0 {
        (Seq::empty(), false, 0)
    } else {
        let prev = outline_fold(ls.drop_last());
        let line = ls.last();
        let t = trim(line);
        let (out, inside) = if opens_item(t) {
            (prev.0.push(line), true)
        } else if prev.1 && declares_fn(t) {
            (prev.0.push("    "@ + fn_signature(t)), prev.1)
        } else {
            (prev.0, prev.1)
        };
        let depth = prev.2 + count_of(line, '{') - count_of(line, '}');
        if depth <= 0 {
            (out, false, 0)
        } else {
            (out, inside, depth)
        }
    }
}

/// What [`extract_rust_outline_signatures`] returns.
pub open spec fn rust_outline(code: Seq<char>) -> Seq<char> {
    let ls = lines(code);
    let out = outline_fold(ls).0;
    if out.len() == 0 {
        join(ls.take(if ls.len() < 30 { ls.len() as int } else { 30 }), seq!['\n'])
    } else {
        join(out, seq!['\n'])
    }
}

proof fn lemma_count_bound(s: Seq<char>, c: char)
    ensures
        count_of(s, c) <= s.len(),
    decreases s.len(),
{
    if s.len() > 0 {
        lemma_count_bound(s.drop_last(), c);
    }
}

proof fn lemma_outline_depth(ls: Seq<Seq<char>>)
    ensures
        0 <= outline_fold(ls).2 <= total_len(ls),
    decreases ls.len(),
{
    if ls.len() > 0 {
        lemma_outline_depth(ls.drop_last());
        lemma_count_bound(ls.last(), '{');
    }
}

fn count_char(s: &Vec<char>, c: char) -> (r: usize)
    ensures
        r == count_of(s@, c),
{
    let mut n: usize = 0;
    let mut i: usize = 0;
    while i < s.len()
        invariant
            i <= s.len(),
            n == count_of(s@.take(i as int), c),
            n <= i,
        decreases s.len() - i,
    {
        assert(s@.take(i + 1).drop_last() =~= s@.take(i as int));
        if s[i] == c {
            n += 1;
        }
        i += 1;
    }
    assert(s@.take(s.len() as int) =~= s@);
    n
}

fn starts_with_any(t: &Vec<char>, pats: &Vec<Vec<char>>) -> (b: bool)
    ensures
        b == exists|k: int| 0 <= k < pats.len() && starts_with(t@, #[trigger] pats@[k]@),
{
    let mut k: usize = 0;
    while k < pats.len()
        invariant
            k <= pats.len(),
            forall|q: int| 0 <= q < k ==> !starts_with(t@, #[trigger] pats@[q]@),
        decreases pats.len() - k,
    {
        if starts_with_exec(t, &pats[k]) {
            return true;
        }
        k += 1;
    }
    false
}

/// An outline of Rust code: the lines that open a struct, enum, trait or
/// impl, and, inside such a body, the signatures of its functions indented
/// by four spaces. With no such line, the first 30 lines.
pub fn extract_rust_outline_signatures(code: &str) -> (r: String)
    ensures
        r@ == rust_outline(code@),
{
    let cs = to_chars(code);
    let ls = lines_exec(&cs);
    let mut items: Vec<Vec<char>> = Vec::new();
    items.push(to_chars("pub struct "));
    items.push(to_chars("struct "));
    items.push(to_chars("pub enum "));
    items.push(to_chars("enum "));
    items.push(to_chars("pub trait "));
    items.push(to_chars("trait "));
    items.push(to_chars("impl "));
    items.push(to_chars("pub impl "));
    let mut fns: Vec<Vec<char>> = Vec::new();
    fns.push(to_chars("pub fn "));
    fns.push(to_chars("fn "));
    fns.push(to_chars("pub async fn "));
    fns.push(to_chars("async fn "));
    proof {
        assert forall|t: Seq<char>|
            opens_item(t) == exists|k: int| 0 <= k < items.len() && starts_with(t, #[trigger] items@[k]@) by {
            if opens_item(t) {
                if starts_with(t, "pub struct "@) {
                    assert(starts_with(t, items@[0]@));
                } else if starts_with(t, "struct "@) {
                    assert(starts_with(t, items@[1]@));
                } else if starts_with(t, "pub enum "@) {
                    assert(starts_with(t, items@[2]@));
                } else if starts_with(t, "enum "@) {
                    assert(starts_with(t, items@[3]@));
                } else if starts_with(t, "pub trait "@) {
                    assert(starts_with(t, items@[4]@));
                } else if starts_with(t, "trait "@) {
                    assert(starts_with(t, items@[5]@));
                } else if starts_with(t, "impl "@) {
                    assert(starts_with(t, items@[6]@));
                } else {
                    assert(starts_with(t, items@[7]@));
                }
            }
        }
        assert forall|t: Seq<char>|
            declares_fn(t) == exists|k: int| 0 <= k < fns.len() && starts_with(t, #[trigger] fns@[k]@) by {
            if declares_fn(t) {
                if starts_with(t, "pub fn "@) {
                    assert(starts_with(t, fns@[0]@));
                } else if starts_with(t, "fn "@) {
                    assert(starts_with(t, fns@[1]@));
                } else if starts_with(t, "pub async fn "@) {
                    assert(starts_with(t, fns@[2]@));
                } else {
                    assert(starts_with(t, fns@[3]@));
                }
            }
        }
        lemma_lines_len(cs@);
    }
    let brace = vec!['{'];
    assert(brace@ == seq!['{']);
    let mut out: Vec<Vec<char>> = Vec::new();
    let mut inside = false;
    let mut depth: usize = 0;
    let mut i: usize = 0;
    while i < ls.len()
        invariant
            i <= ls.len(),
            cs@ == code@,
            views(ls@) == lines(code@),
            total_len(lines(code@)) <= cs.len(),
            brace@ == seq!['{'],
            forall|t: Seq<char>|
                opens_item(t) == exists|k: int| 0 <= k < items.len() && starts_with(t, #[trigger] items@[k]@),
            forall|t: Seq<char>|
                declares_fn(t) == exists|k: int| 0 <= k < fns.len() && starts_with(t, #[trigger] fns@[k]@),
            views(out@) == outline_fold(views(ls@).take(i as int)).0,
            inside == outline_fold(views(ls@).take(i as int)).1,
            depth as int == outline_fold(views(ls@).take(i as int)).2,
        decreases ls.len() - i,
    {
        let line = &ls[i];
        let ghost pre = views(ls@).take(i as int);
        proof {
            assert(views(ls@).take(i + 1).drop_last() =~= pre);
            assert(views(ls@).take(i + 1).last() == line@);
            lemma_outline_depth(pre);
            lemma_total_len_prefix(views(ls@), i + 1);
            assert(total_len(views(ls@).take(i + 1)) == total_len(pre) + line@.len());
            lemma_count_bound(line@, '{');
        }
        let t = trim_chars(line);
        let ghost out0 = out@;
        if starts_with_any(&t, &items) {
            out.push(line.clone());
            inside = true;
            assert(views(out@) =~= views(out0).push(line@));
        } else if inside && starts_with_any(&t, &fns) {
            let end = match find_from_exec(&t, &brace, 0) {
                Some(k) => k,
                None => t.len(),
            };
            proof {
                crate::text::lemma_find_from(t@, brace@, 0);
            }
            let sig = trim_chars(&take_chars(&t, end));
            let mut entry = to_chars("    ");
            append_chars(&mut entry, &sig);
            out.push(entry);
            assert(views(out@) =~= views(out0).push("    "@ + fn_signature(t@)));
        }
        let opens = count_char(line, '{');
        let closes = count_char(line, '}');
        if depth + opens <= closes {
            inside = false;
            depth = 0;
        } else {
            depth = depth + opens - closes;
        }
        i += 1;
    }
    assert(views(ls@).take(ls.len() as int) =~= views(ls@));
    let nl = vec!['\n'];
    assert(nl@ == seq!['\n']);
    if out.len() == 0 {
        let n: usize = if ls.len() < 30 {
            ls.len()
        } else {
            30
        };
        let mut head: Vec<Vec<char>> = Vec::new();
        let mut k: usize = 0;
        while k < n
            invariant
                k <= n <= ls.len(),
                views(head@) == views(ls@).take(k as int),
            decreases n - k,
        {
            let ghost h0 = head@;
            let c = ls[k].clone();
            assert(c@ =~= ls@[k as int]@);
            head.push(c);
            assert(views(head@) =~= views(h0).push(ls@[k as int]@));
            assert(views(head@) =~= views(ls@).take(k + 1));
            k += 1;
        }
        from_chars(&join_exec(&head, &nl))
    } else {
        from_chars(&join_exec(&out, &nl))
    }
}

// ---------------------------------------------------------------------------
// Release drift
// ---------------------------------------------------------------------------

/// A tracked repository whose release may have moved on.
pub struct RepoDriftCandidate {
    pub repo_url: String,
    pub repo_version: String,
    pub online_version: Option<String>,
}

/// Whether the latest remote release differs from the analysed version.
pub fn drift_detected(candidate: &RepoDriftCandidate, latest: &str) -> (b: bool)
    ensures
        b == (latest@ != candidate.repo_version@),
{
    let v = to_chars(candidate.repo_version.as_str());
    !crate::text::eq_str(&v, latest)
}


/// An escaped table cell holds no line break: neither a line feed nor a
/// carriage return.
pub proof fn law_escaped_cell_is_one_line(s: Seq<char>)
    ensures
        !escape_cell(s).contains('\n'),
        !escape_cell(s).contains('\r'),
    decreases s.len(),
{
    if s.len() > 0 {
        law_escaped_cell_is_one_line(s.drop_last());
        let p = escape_cell(s.drop_last());
        let q = escape_cell_char(s.last());
        assert(!q.contains('\n') && !q.contains('\r')) by {
            if q.contains('\n') || q.contains('\r') {
                let k = choose|k: int| 0 <= k < q.len() && (q[k] == '\n' || q[k] == '\r');
            }
        }
        assert forall|k: int| 0 <= k < (p + q).len() implies (p + q)[k] != '\n' && (p + q)[k] != '\r' by {
            if k < p.len() {
                assert((p + q)[k] == p[k]);
                assert(p.contains(p[k]));
            } else {
                assert((p + q)[k] == q[k - p.len()]);
                assert(q.contains(q[k - p.len()]));
            }
        }
    }
}


/// The text with every `\|` read back as `|`, left to right, as
/// `str::replace("\\|", "|")` does.
pub open spec fn unescape_pipes(s: Seq<char>) -> Seq<char>
    decreases s.len(),
{
    if s.len() == 0 {
        Seq::empty()
    } else if s.len() >= 2 && s[0] == '\\' && s[1] == '|' {
        seq!['|'] + unescape_pipes(s.skip(2))
    } else {
        seq![s[0]] + unescape_pipes(s.skip(1))
    }
}

/// The text with each line feed replaced by a space and each carriage
/// return removed.
pub open spec fn flatten_breaks(s: Seq<char>) -> Seq<char>
    decreases s.len(),
{
    if s.len() == 0 {
        Seq::empty()
    } else {
        (if s[0] == '\n' {
            seq![' ']
        } else if s[0] == '\r' {
            Seq::<char>::empty()
        } else {
            seq![s[0]]
        }) + flatten_breaks(s.skip(1))
    }
}

proof fn lemma_escape_cell_append(a: Seq<char>, b: Seq<char>)
    ensures
        escape_cell(a + b) == escape_cell(a) + escape_cell(b),
    decreases b.len(),
{
    if b.len() == 0 {
        assert(a + b =~= a);
        assert(escape_cell(a) + escape_cell(b) =~= escape_cell(a));
    } else {
        lemma_escape_cell_append(a, b.drop_last());
        assert((a + b).drop_last() =~= a + b.drop_last());
        assert((a + b).last() == b.last());
        assert(escape_cell(a) + escape_cell(b.drop_last()) + escape_cell_char(b.last()) =~= escape_cell(a)
            + (escape_cell(b.drop_last()) + escape_cell_char(b.last())));
    }
}

proof fn lemma_escape_cell_front(s: Seq<char>)
    requires
        s.len() > 0,
    ensures
        escape_cell(s) == escape_cell_char(s[0]) + escape_cell(s.skip(1)),
{
    let c = seq![s[0]];
    assert(s =~= c + s.skip(1));
    lemma_escape_cell_append(c, s.skip(1));
    assert(c.drop_last() =~= Seq::<char>::empty());
    assert(c.last() == s[0]);
    assert(escape_cell(c.drop_last()) == Seq::<char>::empty());
    assert(escape_cell(c) == escape_cell(c.drop_last()) + escape_cell_char(c.last()));
    assert(escape_cell(c) =~= escape_cell_char(s[0]));
}

/// Every pipe in an escaped table cell is escaped: it stands right after a
/// backslash.
pub proof fn law_escaped_cell_pipes_are_escaped(s: Seq<char>)
    ensures
        forall|k: int|
            0 <= k < escape_cell(s).len() && #[trigger] escape_cell(s)[k] == '|' ==> k >= 1 && escape_cell(s)[k
                - 1] == '\\',
    decreases s.len(),
{
    if s.len() > 0 {
        law_escaped_cell_pipes_are_escaped(s.drop_last());
        let p = escape_cell(s.drop_last());
        let q = escape_cell_char(s.last());
        let e = escape_cell(s);
        assert(e == p + q);
        assert forall|k: int| 0 <= k < e.len() && #[trigger] e[k] == '|' implies k >= 1 && e[k - 1] == '\\' by {
            if k < p.len() {
                assert(e[k] == p[k]);
                assert(e[k - 1] == p[k - 1]);
            } else {
                assert(e[k] == q[k - p.len()]);
                assert(s.last() == '|');
                assert(k - p.len() == 1);
                assert(e[k - 1] == q[0]);
            }
        }
    }
}

/// Reading the escaped pipes of an escaped table cell back gives the cell's
/// text with its line feeds turned into spaces and its carriage returns
/// removed.
pub proof fn law_escaped_cell_unescapes(s: Seq<char>)
    ensures
        unescape_pipes(escape_cell(s)) == flatten_breaks(s),
    decreases s.len(),
{
    if s.len() > 0 {
        let c = s[0];
        let t = s.skip(1);
        lemma_escape_cell_front(s);
        law_escaped_cell_unescapes(t);
        law_escaped_cell_pipes_are_escaped(t);
        let r = escape_cell(t);
        let x = escape_cell_char(c);
        let e = x + r;
        assert(escape_cell(s) == e);
        if c == '|' {
            assert(e[0] == '\\' && e[1] == '|');
            assert(e.skip(2) =~= r);
        } else if c == '\n' {
            assert(e[0] == ' ');
            assert(e.skip(1) =~= r);
        } else if c == '\r' {
            assert(e =~= r);
        } else if c == '\\' {
            assert(e[0] == '\\');
            if e.len() >= 2 {
                assert(e[1] == r[0]);
                if r[0] == '|' {
                    assert(false);
                }
            }
            assert(e.skip(1) =~= r);
        } else {
            assert(e[0] == c);
            assert(e.skip(1) =~= r);
        }
    }
}

} // verus!
