//! Tool-name normalisation of the MCP dispatcher.
use vstd::prelude::*;
use crate::text::{starts_with, occurs_at, occurs_at_exec, to_chars, from_chars, skip_chars, eq_str};

verus! {

/// `souls_mcp.`
pub open spec fn mcp_prefix() -> Seq<char> {
    seq!['s', 'o', 'u', 'l', 's', '_', 'm', 'c', 'p', '.']
}

/// `souls_`
pub open spec fn souls_prefix() -> Seq<char> {
    seq!['s', 'o', 'u', 'l', 's', '_']
}

/// `ctx_`
pub open spec fn ctx_prefix() -> Seq<char> {
    seq!['c', 't', 'x', '_']
}

/// `name` with the prefixes `souls_mcp.`, `souls_` and `ctx_` removed, as
/// many times and in whatever nesting they occur at its start.
pub open spec fn strip_tool_prefixes(s: Seq<char>) -> Seq<char>
    decreases s.len(),
{
    if starts_with(s, mcp_prefix()) {
        strip_tool_prefixes(s.skip(10))
    } else if starts_with(s, souls_prefix()) {
        strip_tool_prefixes(s.skip(6))
    } else if starts_with(s, ctx_prefix()) {
        strip_tool_prefixes(s.skip(4))
    } else {
        s
    }
}

/// The canonical tool name: the prefixes stripped, and the aliases of the
/// thinking tool mapped to `thinking`.
pub open spec fn normalized_tool_name(s: Seq<char>) -> Seq<char> {
    let n = strip_tool_prefixes(s);
    if n == "core_think"@ || n == "sequential_thinking"@ || n == "sequentialthinking"@ {
        "thinking"@
    } else {
        n
    }
}

proof fn lemma_occurs_at_skip(s: Seq<char>, p: Seq<char>, i: int)
    requires
        0 <= i <= s.len(),
    ensures
        occurs_at(s, p, i) == starts_with(s.skip(i), p),
{
    if i + p.len() <= s.len() {
        assert(s.subrange(i, i + p.len()) =~= s.skip(i).subrange(0, p.len() as int));
    }
}

/// The canonical name of a tool: `souls_mcp.`, `souls_` and `ctx_`
/// prefixes removed (repeatedly), and `core_think`, `sequential_thinking`
/// and `sequentialthinking` read as `thinking`.
pub fn normalize_tool_name(name: &str) -> (r: String)
    ensures
        r@ == normalized_tool_name(name@),
{
    let cs = to_chars(name);
    let mcp = vec!['s', 'o', 'u', 'l', 's', '_', 'm', 'c', 'p', '.'];
    let souls = vec!['s', 'o', 'u', 'l', 's', '_'];
    let ctx = vec!['c', 't', 'x', '_'];
    assert(mcp@ == mcp_prefix());
    assert(souls@ == souls_prefix());
    assert(ctx@ == ctx_prefix());
    let mut i: usize = 0;
    assert(cs@.skip(0) =~= cs@);
    loop
        invariant
            i <= cs.len(),
            cs@ == name@,
            mcp@ == mcp_prefix(),
            souls@ == souls_prefix(),
            ctx@ == ctx_prefix(),
            strip_tool_prefixes(cs@.skip(i as int)) == strip_tool_prefixes(name@),
        ensures
            i <= cs.len(),
            cs@ == name@,
            strip_tool_prefixes(cs@.skip(i as int)) == strip_tool_prefixes(name@),
            strip_tool_prefixes(cs@.skip(i as int)) == cs@.skip(i as int),
        decreases cs.len() - i,
    {
        proof {
            lemma_occurs_at_skip(cs@, mcp@, i as int);
            lemma_occurs_at_skip(cs@, souls@, i as int);
            lemma_occurs_at_skip(cs@, ctx@, i as int);
        }
        if occurs_at_exec(&cs, &mcp, i) {
            assert(cs@.skip(i as int).skip(10) =~= cs@.skip(i + 10));
            i += 10;
        } else if occurs_at_exec(&cs, &souls, i) {
            assert(cs@.skip(i as int).skip(6) =~= cs@.skip(i + 6));
            i += 6;
        } else if occurs_at_exec(&cs, &ctx, i) {
            assert(cs@.skip(i as int).skip(4) =~= cs@.skip(i + 4));
            i += 4;
        } else {
            break;
        }
    }
    let rest = skip_chars(&cs, i);
    if eq_str(&rest, "core_think") || eq_str(&rest, "sequential_thinking") || eq_str(&rest, "sequentialthinking") {
        "thinking".to_owned()
    } else {
        from_chars(&rest)
    }
}


proof fn lemma_strip_no_prefix(s: Seq<char>)
    ensures
        !starts_with(strip_tool_prefixes(s), mcp_prefix()),
        !starts_with(strip_tool_prefixes(s), souls_prefix()),
        !starts_with(strip_tool_prefixes(s), ctx_prefix()),
    decreases s.len(),
{
    if starts_with(s, mcp_prefix()) {
        lemma_strip_no_prefix(s.skip(10));
    } else if starts_with(s, souls_prefix()) {
        lemma_strip_no_prefix(s.skip(6));
    } else if starts_with(s, ctx_prefix()) {
        lemma_strip_no_prefix(s.skip(4));
    }
}

/// Normalising a tool name twice gives what normalising once gives: a
/// canonical name is its own canonical name.
pub proof fn law_normalize_tool_name_idempotent(name: Seq<char>)
    ensures
        normalized_tool_name(normalized_tool_name(name)) == normalized_tool_name(name),
{
    let n = strip_tool_prefixes(name);
    lemma_strip_no_prefix(name);
    reveal_strlit("core_think");
    reveal_strlit("sequential_thinking");
    reveal_strlit("sequentialthinking");
    reveal_strlit("thinking");
    if n == "core_think"@ || n == "sequential_thinking"@ || n == "sequentialthinking"@ {
        let th = "thinking"@;
        assert(!starts_with(th, mcp_prefix()));
        assert(!starts_with(th, souls_prefix())) by {
            assert(th.subrange(0, 6) != souls_prefix()) by {
                assert(th[0] != souls_prefix()[0]);
            }
        }
        assert(!starts_with(th, ctx_prefix())) by {
            assert(th.subrange(0, 4)[0] != ctx_prefix()[0]);
        }
        assert(strip_tool_prefixes(th) == th);
    } else {
        assert(strip_tool_prefixes(n) == n);
    }
}


/// Law of tool-name normalisation: a `souls_mcp.` or `ctx_` prefix, or a
/// `souls_` prefix before a name not starting with `mcp.`, does not change
/// the tool a name selects, and the thinking aliases
/// `core_think`, `sequential_thinking` and `sequentialthinking` read as
/// `thinking`.
pub proof fn law_prefixes_do_not_change_the_tool(name: Seq<char>)
    ensures
        normalized_tool_name(seq!['s', 'o', 'u', 'l', 's', '_', 'm', 'c', 'p', '.'] + name) == normalized_tool_name(name),
        !starts_with(name, seq!['m', 'c', 'p', '.']) ==> normalized_tool_name(seq!['s', 'o', 'u', 'l', 's', '_'] + name)
            == normalized_tool_name(name),
        normalized_tool_name(seq!['c', 't', 'x', '_'] + name) == normalized_tool_name(name),
        normalized_tool_name("core_think"@) == "thinking"@,
        normalized_tool_name("sequential_thinking"@) == "thinking"@,
        normalized_tool_name("sequentialthinking"@) == "thinking"@,
{
    let a = seq!['s', 'o', 'u', 'l', 's', '_', 'm', 'c', 'p', '.'] + name;
    assert(a.subrange(0, 10) =~= mcp_prefix());
    assert(a.skip(10) =~= name);
    let b = seq!['s', 'o', 'u', 'l', 's', '_'] + name;
    assert(b.subrange(0, 6) =~= souls_prefix());
    assert(b.skip(6) =~= name);
    if !starts_with(name, seq!['m', 'c', 'p', '.']) && starts_with(b, mcp_prefix()) {
        assert(b.subrange(0, 10).subrange(6, 10) =~= name.subrange(0, 4));
        assert(mcp_prefix().subrange(6, 10) =~= seq!['m', 'c', 'p', '.']);
    }
    let x = seq!['c', 't', 'x', '_'] + name;
    assert(x.subrange(0, 4) =~= ctx_prefix());
    assert(x.skip(4) =~= name);
    if starts_with(x, mcp_prefix()) {
        assert(x[0] == 'c');
    }
    if starts_with(x, souls_prefix()) {
        assert(x[0] == 'c');
    }
    reveal_strlit("core_think");
    reveal_strlit("sequential_thinking");
    reveal_strlit("sequentialthinking");
    reveal_strlit("thinking");
    assert(strip_tool_prefixes("core_think"@) == "core_think"@) by {
        assert(!starts_with("core_think"@, mcp_prefix()) && !starts_with("core_think"@, souls_prefix()) && !starts_with("core_think"@, ctx_prefix())) by {
            if starts_with("core_think"@, ctx_prefix()) {
                assert("core_think"@.subrange(0, 4)[1] == 'o');
            }
            if starts_with("core_think"@, mcp_prefix()) || starts_with("core_think"@, souls_prefix()) {
                assert("core_think"@[0] == 'c');
            }
        }
    }
    assert(strip_tool_prefixes("sequential_thinking"@) == "sequential_thinking"@) by {
        if starts_with("sequential_thinking"@, mcp_prefix()) || starts_with("sequential_thinking"@, souls_prefix()) {
            assert("sequential_thinking"@.subrange(0, 6)[1] == 'o');
        }
        if starts_with("sequential_thinking"@, ctx_prefix()) {
            assert("sequential_thinking"@[0] == 's');
        }
    }
    assert(strip_tool_prefixes("sequentialthinking"@) == "sequentialthinking"@) by {
        if starts_with("sequentialthinking"@, mcp_prefix()) || starts_with("sequentialthinking"@, souls_prefix()) {
            assert("sequentialthinking"@.subrange(0, 6)[1] == 'o');
        }
        if starts_with("sequentialthinking"@, ctx_prefix()) {
            assert("sequentialthinking"@[0] == 's');
        }
    }
}

} // verus!
