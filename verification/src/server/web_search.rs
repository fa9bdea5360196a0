//! Web-search results: the hits of a DuckDuckGo HTML page and the real
//! destination behind a redirect link.
use vstd::prelude::*;
use crate::text::{trim, starts_with, to_chars, from_chars, append_chars, trim_chars, starts_with_exec, eq_str};
use crate::pattern::{GroupView, regex_captures, captures_all, url_query_pairs, query_pairs_of, group, group_exec};
use crate::server::markdown::DuckDuckGoItem;

verus! {

/// The link of a hit: its target in group 1, its title in group 2.
pub open spec fn link_pattern() -> Seq<char> {
    "class=\"result__a\"\\s+href=\"([^\"]+)\">([^<]+)</a>"@
}

/// The snippet of a hit, in group 1.
pub open spec fn snippet_pattern() -> Seq<char> {
    "class=\"result__snippet\"[^>]*>([^<]+)</a>"@
}

/// The absolute form of a result link: `//x` gets `https:`, `/x` the
/// DuckDuckGo host; other links stay as they are (trimmed).
pub open spec fn ddg_candidate(raw: Seq<char>) -> Seq<char> {
    let c = trim(raw);
    if starts_with(c, seq!['/', '/']) {
        "https:"@ + c
    } else if starts_with(c, seq!['/']) {
        "https://duckduckgo.com"@ + c
    } else {
        c
    }
}

/// The first `uddg` parameter with a non-blank value.
pub open spec fn first_uddg(pairs: Seq<(Seq<char>, Seq<char>)>) -> Option<Seq<char>>
    decreases pairs.len(),
{
    if pairs.len() == 0 {
        None
    } else if pairs[0].0 == "uddg"@ && trim(pairs[0].1).len() > 0 {
        Some(pairs[0].1)
    } else {
        first_uddg(pairs.drop_first())
    }
}

/// The destination of a link, given the query pairs of its absolute form:
/// the `uddg` redirect target when there is one, else the absolute form.
pub open spec fn ddg_destination(raw: Seq<char>, pairs: Option<Seq<(Seq<char>, Seq<char>)>>) -> Seq<char> {
    if trim(raw).len() == 0 {
        Seq::empty()
    } else {
        match pairs {
            Some(ps) => match first_uddg(ps) {
                Some(v) => v,
                None => ddg_candidate(raw),
            },
            None => ddg_candidate(raw),
        }
    }
}

/// The destination of a result link.
pub open spec fn ddg_url(raw: Seq<char>) -> Seq<char> {
    ddg_destination(raw, url_query_pairs(ddg_candidate(raw)))
}

fn candidate_exec(raw: &str) -> (r: Vec<char>)
    ensures
        r@ == ddg_candidate(raw@),
{
    let c = trim_chars(&to_chars(raw));
    let two = vec!['/', '/'];
    let one = vec!['/'];
    assert(two@ == seq!['/', '/']);
    assert(one@ == seq!['/']);
    if starts_with_exec(&c, &two) {
        let mut r = to_chars("https:");
        append_chars(&mut r, &c);
        r
    } else if starts_with_exec(&c, &one) {
        let mut r = to_chars("https://duckduckgo.com");
        append_chars(&mut r, &c);
        r
    } else {
        c
    }
}

/// The destination of a link given what parsing its absolute form gave
/// (see [`ddg_destination`]).
pub fn ddg_destination_of(raw: &str, pairs: &Option<Vec<(String, String)>>) -> (r: String)
    ensures
        r@ == ddg_destination(
            raw@,
            match pairs {
                Some(v) => Some(v@.map_values(|p: (String, String)| (p.0@, p.1@))),
                None => None,
            },
        ),
{
    let t = trim_chars(&to_chars(raw));
    if t.len() == 0 {
        return String::new();
    }
    let c = candidate_exec(raw);
    match pairs {
        None => from_chars(&c),
        Some(v) => {
            let ghost pv = v@.map_values(|p: (String, String)| (p.0@, p.1@));
            let mut i: usize = 0;
            assert(pv.skip(0) =~= pv);
            while i < v.len()
                invariant
                    i <= v.len(),
                    pv == v@.map_values(|p: (String, String)| (p.0@, p.1@)),
                    first_uddg(pv.skip(i as int)) == first_uddg(pv),
                    t@ == trim(raw@),
                    t.len() > 0,
                    match pairs {
                        Some(w) => w@ == v@,
                        None => false,
                    },
                decreases v.len() - i,
            {
                let ghost rest = pv.skip(i as int);
                assert(rest[0] == (v@[i as int].0@, v@[i as int].1@));
                assert(rest.drop_first() =~= pv.skip(i + 1));
                let k = to_chars(v[i].0.as_str());
                let val = trim_chars(&to_chars(v[i].1.as_str()));
                if eq_str(&k, "uddg") && val.len() > 0 {
                    assert(first_uddg(rest) == Some(rest[0].1));
                    let out = v[i].1.clone();
                    assert(out@ == rest[0].1);
                    return out;
                }
                i += 1;
            }
            assert(pv.skip(v.len() as int) =~= Seq::<(Seq<char>, Seq<char>)>::empty());
            from_chars(&c)
        },
    }
}

/// The destination of a DuckDuckGo result link: the `uddg` redirect target
/// of its absolute form when it has one, else the absolute form; empty for
/// a blank link.
pub fn normalize_duckduckgo_result_url(raw: &str) -> (r: String)
    ensures
        r@ == ddg_url(raw@),
{
    let c = candidate_exec(raw);
    let pairs = query_pairs_of(from_chars(&c).as_str());
    ddg_destination_of(raw, &pairs)
}

/// The links of the matches: `(title, destination)` for each match with a
/// target and a title.
pub open spec fn hit_links(caps: Seq<Seq<GroupView>>) -> Seq<(Seq<char>, Seq<char>)>
    decreases caps.len(),
{
    if caps.len() == 0 {
        Seq::empty()
    } else {
        let prev = hit_links(caps.drop_last());
        let m = caps.last();
        match (group(m, 1), group(m, 2)) {
            (Some(href), Some(title)) => prev.push((trim(title.1), ddg_url(href.1))),
            _ => prev,
        }
    }
}

/// The snippets of the matches, trimmed.
pub open spec fn hit_snippets(caps: Seq<Seq<GroupView>>) -> Seq<Seq<char>>
    decreases caps.len(),
{
    if caps.len() == 0 {
        Seq::empty()
    } else {
        let prev = hit_snippets(caps.drop_last());
        match group(caps.last(), 1) {
            Some(g) => prev.push(trim(g.1)),
            None => prev,
        }
    }
}

/// The view of a hit.
pub open spec fn item_view(it: DuckDuckGoItem) -> (Seq<char>, Seq<char>, Seq<char>) {
    (it.title@, it.url@, it.snippet@)
}

/// The hits of a page: the first `max_results` links, each with the
/// snippet of the same rank (empty when there are fewer snippets).
pub open spec fn ddg_hits(html: Seq<char>, max_results: nat) -> Seq<(Seq<char>, Seq<char>, Seq<char>)> {
    match (regex_captures(link_pattern(), html), regex_captures(snippet_pattern(), html)) {
        (Ok(l), Ok(s)) => {
            let links = hit_links(l);
            let snips = hit_snippets(s);
            let n = if links.len() < max_results {
                links.len()
            } else {
                max_results
            };
            Seq::new(
                n,
                |i: int|
                    (links[i].0, links[i].1, if i < snips.len() {
                        snips[i]
                    } else {
                        Seq::empty()
                    }),
            )
        },
        _ => Seq::empty(),
    }
}

/// The hits of a DuckDuckGo HTML result page: title, destination and
/// snippet of at most `max_results` results.
pub fn parse_duckduckgo_results(html: &str, max_results: usize) -> (r: Vec<DuckDuckGoItem>)
    ensures
        r@.map_values(|it: DuckDuckGoItem| item_view(it)) == ddg_hits(html@, max_results as nat),
{
    let link_pat = "class=\"result__a\"\\s+href=\"([^\"]+)\">([^<]+)</a>";
    let snip_pat = "class=\"result__snippet\"[^>]*>([^<]+)</a>";
    let lc = captures_all(link_pat, html);
    let sc = captures_all(snip_pat, html);
    let (l, s) = match (lc, sc) {
        (Ok(l), Ok(s)) => (l, s),
        _ => {
            let empty: Vec<DuckDuckGoItem> = Vec::new();
            assert(empty@.map_values(|it: DuckDuckGoItem| item_view(it)) =~= ddg_hits(html@, max_results as nat));
            return empty;
        },
    };
    let ghost lv = crate::pattern::capture_views(l@);
    let ghost sv = crate::pattern::capture_views(s@);
    // Links.
    let mut links: Vec<(String, String)> = Vec::new();
    let mut i: usize = 0;
    while i < l.len()
        invariant
            i <= l.len(),
            lv == crate::pattern::capture_views(l@),
            links@.map_values(|p: (String, String)| (p.0@, p.1@)) == hit_links(lv.take(i as int)),
        decreases l.len() - i,
    {
        let m = &l[i];
        proof {
            assert(lv.take(i + 1).drop_last() =~= lv.take(i as int));
            assert(lv.take(i + 1).last() == lv[i as int]);
        }
        let ghost before = links@;
        match (group_exec(m, 1), group_exec(m, 2)) {
            (Some(href), Some(title)) => {
                let t = from_chars(&trim_chars(&to_chars(title.1.as_str())));
                let u = normalize_duckduckgo_result_url(href.1.as_str());
                links.push((t, u));
                assert(links@.map_values(|p: (String, String)| (p.0@, p.1@)) =~= before.map_values(
                    |p: (String, String)| (p.0@, p.1@),
                ).push((trim(title.1@), ddg_url(href.1@))));
            },
            _ => {},
        }
        i += 1;
    }
    assert(lv.take(l.len() as int) =~= lv);
    // Snippets.
    let mut snips: Vec<String> = Vec::new();
    let mut j: usize = 0;
    while j < s.len()
        invariant
            j <= s.len(),
            sv == crate::pattern::capture_views(s@),
            snips@.map_values(|x: String| x@) == hit_snippets(sv.take(j as int)),
        decreases s.len() - j,
    {
        let m = &s[j];
        proof {
            assert(sv.take(j + 1).drop_last() =~= sv.take(j as int));
            assert(sv.take(j + 1).last() == sv[j as int]);
        }
        let ghost before = snips@;
        match group_exec(m, 1) {
            Some(g) => {
                let t = from_chars(&trim_chars(&to_chars(g.1.as_str())));
                snips.push(t);
                assert(snips@.map_values(|x: String| x@) =~= before.map_values(|x: String| x@).push(trim(g.1@)));
            },
            None => {},
        }
        j += 1;
    }
    assert(sv.take(s.len() as int) =~= sv);
    // Items.
    let ghost lk = hit_links(lv);
    let ghost sn = hit_snippets(sv);
    let mut items: Vec<DuckDuckGoItem> = Vec::new();
    let mut idx: usize = 0;
    let n = if links.len() < max_results {
        links.len()
    } else {
        max_results
    };
    while idx < n
        invariant
            idx <= n <= links.len(),
            lk == links@.map_values(|p: (String, String)| (p.0@, p.1@)),
            sn == snips@.map_values(|x: String| x@),
            items@.map_values(|it: DuckDuckGoItem| item_view(it)) == Seq::new(
                idx as nat,
                |q: int|
                    (lk[q].0, lk[q].1, if q < sn.len() {
                        sn[q]
                    } else {
                        Seq::empty()
                    }),
            ),
        decreases n - idx,
    {
        let snippet = if idx < snips.len() {
            snips[idx].clone()
        } else {
            String::new()
        };
        let ghost before = items@;
        let title = links[idx].0.clone();
        let url = links[idx].1.clone();
        assert(title@ == lk[idx as int].0);
        assert(url@ == lk[idx as int].1);
        assert(snippet@ == (if idx < sn.len() {
            sn[idx as int]
        } else {
            Seq::<char>::empty()
        }));
        let it = DuckDuckGoItem { title, url, snippet };
        items.push(it);
        assert(items@.map_values(|it: DuckDuckGoItem| item_view(it)) =~= before.map_values(
            |it: DuckDuckGoItem| item_view(it),
        ).push(item_view(it)));
        assert(items@.map_values(|it: DuckDuckGoItem| item_view(it)) =~= Seq::new(
            (idx + 1) as nat,
            |q: int|
                (lk[q].0, lk[q].1, if q < sn.len() {
                    sn[q]
                } else {
                    Seq::empty()
                }),
        ));
        idx += 1;
    }
    items
}

} // verus!
