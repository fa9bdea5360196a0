//! The compact LEAN notation of search results: one `@file` line per file,
//! then one line per run of equal matched lines, `L3, L4: text`.
use vstd::prelude::*;
use crate::text::{
    decimal, join, views, to_chars, from_chars, append_chars, push_str_chars, decimal_exec, join_exec, lines, trim,
    lines_exec, trim_chars,
};
use crate::pattern::{regex_matches, matches_anywhere};

verus! {

/// A matched line.
pub struct SearchMatch {
    pub line_number: usize,
    pub line_text: String,
}

/// The matches of a file grouped by runs of equal text: the line numbers of
/// each run and the text.
pub open spec fn group_runs(ms: Seq<SearchMatch>) -> Seq<(Seq<usize>, Seq<char>)>
    decreases ms.len(),
{
    if ms.len() == 0 {
        Seq::empty()
    } else {
        let g = group_runs(ms.drop_last());
        let m = ms.last();
        if g.len() > 0 && g.last().1 == m.line_text@ {
            g.update(g.len() - 1, (g.last().0.push(m.line_number), g.last().1))
        } else {
            g.push((seq![m.line_number], m.line_text@))
        }
    }
}

/// `L12, L40`: the line references of a run.
pub open spec fn line_refs(ls: Seq<usize>) -> Seq<char> {
    join(ls.map_values(|l: usize| seq!['L'] + decimal(l as nat)), seq![',', ' '])
}

/// The output lines of one file.
pub open spec fn file_lines(path: Seq<char>, ms: Seq<SearchMatch>) -> Seq<Seq<char>> {
    seq![seq!['@'] + path] + group_runs(ms).map_values(
        |g: (Seq<usize>, Seq<char>)| line_refs(g.0) + seq![':', ' '] + g.1,
    )
}

/// The output lines of all files, in the order given.
pub open spec fn all_file_lines(entries: Seq<(String, Vec<SearchMatch>)>) -> Seq<Seq<char>>
    decreases entries.len(),
{
    if entries.len() == 0 {
        Seq::empty()
    } else {
        all_file_lines(entries.drop_last()) + file_lines(entries.last().0@, entries.last().1@)
    }
}

/// What [`format_lean_notation`] returns.
pub open spec fn lean_notation(entries: Seq<(String, Vec<SearchMatch>)>) -> Seq<char> {
    join(all_file_lines(entries), seq!['\n'])
}

/// `nums` and `texts` hold the runs `gr`, one entry each.
spec fn groups_held(nums: Seq<Vec<usize>>, texts: Seq<Vec<char>>, gr: Seq<(Seq<usize>, Seq<char>)>) -> bool {
    &&& nums.len() == gr.len()
    &&& texts.len() == gr.len()
    &&& forall|k: int| 0 <= k < gr.len() ==> (#[trigger] nums[k])@ == gr[k].0 && texts[k]@ == gr[k].1
}

proof fn lemma_groups_held(nums: Seq<Vec<usize>>, texts: Seq<Vec<char>>, gr: Seq<(Seq<usize>, Seq<char>)>)
    requires
        nums.len() == gr.len(),
        texts.len() == gr.len(),
        forall|k: int| 0 <= k < gr.len() ==> (#[trigger] nums[k])@ == gr[k].0 && texts[k]@ == gr[k].1,
    ensures
        groups_held(nums, texts, gr),
{
}

#[verifier::spinoff_prover]
fn group_matches(ms: &Vec<SearchMatch>) -> (g: (Vec<Vec<usize>>, Vec<Vec<char>>))
    ensures
        groups_held(g.0@, g.1@, group_runs(ms@)),
{
    let mut nums: Vec<Vec<usize>> = Vec::new();
    let mut texts: Vec<Vec<char>> = Vec::new();
    let mut i: usize = 0;
    while i < ms.len()
        invariant
            i <= ms.len(),
            groups_held(nums@, texts@, group_runs(ms@.take(i as int))),
        decreases ms.len() - i,
    {
        let m = &ms[i];
        let text = to_chars(m.line_text.as_str());
        let ghost g0 = group_runs(ms@.take(i as int));
        assert(ms@.take(i + 1).drop_last() =~= ms@.take(i as int));
        assert(ms@.take(i + 1).last() == *m);
        let n = texts.len();
        let same = n > 0 && crate::text::eq_str(&texts[n - 1], m.line_text.as_str());
        let ghost old_nums = nums@;
        let ghost old_texts = texts@;
        let ghost g1 = group_runs(ms@.take(i + 1));
        if same {
            let mut last = nums.pop().unwrap();
            assert(last == old_nums[n - 1]);
            assert(old_nums[n - 1]@ == g0[n - 1].0);
            assert(old_texts[n - 1]@ == g0[n - 1].1);
            last.push(m.line_number);
            nums.push(last);
            proof {
                assert(nums@ =~= old_nums.update(n - 1, last));
                assert(g1 == g0.update(g0.len() - 1, (g0.last().0.push(m.line_number), g0.last().1)));
                assert forall|k: int|
                    0 <= k < g1.len() implies (#[trigger] nums@[k])@ == g1[k].0 && texts@[k]@ == g1[k].1 by {
                    if k == n - 1 {
                        assert(nums@[k] == last);
                    } else {
                        assert(nums@[k] == old_nums[k]);
                    }
                }
                assert(groups_held(nums@, texts@, g1));
            }
        } else {
            let mut one: Vec<usize> = Vec::new();
            one.push(m.line_number);
            nums.push(one);
            texts.push(text);
            proof {
                assert(old_nums.len() == g0.len());
                if n > 0 {
                    assert(old_nums[n - 1]@ == g0[n - 1].0);
                    assert(old_texts[n - 1]@ == g0[n - 1].1);
                }
                assert(one@ =~= seq![m.line_number]);
                assert(g1 == g0.push((seq![m.line_number], m.line_text@)));
                assert forall|k: int|
                    0 <= k < g1.len() implies (#[trigger] nums@[k])@ == g1[k].0 && texts@[k]@ == g1[k].1 by {
                    if k == n {
                        assert(nums@[k] == one);
                        assert(texts@[k] == text);
                    } else {
                        assert(nums@[k] == old_nums[k]);
                        assert(texts@[k] == old_texts[k]);
                    }
                }
                assert(old_texts.len() == g0.len());
                assert(nums@.len() == old_nums.len() + 1);
                assert(texts@.len() == old_texts.len() + 1);
                assert(g1.len() == g0.len() + 1);
                lemma_groups_held(nums@, texts@, g1);
            }
        }
        i += 1;
    }
    assert(ms@.take(ms.len() as int) =~= ms@);
    assert(group_runs(ms@.take(ms.len() as int)) == group_runs(ms@));
    (nums, texts)
}

fn line_refs_exec(ls: &Vec<usize>) -> (r: Vec<char>)
    ensures
        r@ == line_refs(ls@),
{
    let mut parts: Vec<Vec<char>> = Vec::new();
    let mut i: usize = 0;
    while i < ls.len()
        invariant
            i <= ls.len(),
            views(parts@) == ls@.take(i as int).map_values(|l: usize| seq!['L'] + decimal(l as nat)),
        decreases ls.len() - i,
    {
        let mut p: Vec<char> = Vec::new();
        p.push('L');
        let d = decimal_exec(ls[i] as u64);
        append_chars(&mut p, &d);
        assert(p@ =~= seq!['L'] + decimal(ls@[i as int] as nat));
        let ghost pv = parts@;
        parts.push(p);
        assert(views(parts@) =~= views(pv).push(p@));
        assert(ls@.take(i + 1).map_values(|l: usize| seq!['L'] + decimal(l as nat)) =~= ls@.take(i as int).map_values(
            |l: usize| seq!['L'] + decimal(l as nat),
        ).push(seq!['L'] + decimal(ls@[i as int] as nat)));
        i += 1;
    }
    assert(ls@.take(ls.len() as int) =~= ls@);
    let sep = vec![',', ' '];
    assert(sep@ == seq![',', ' ']);
    join_exec(&parts, &sep)
}

fn file_block(path: &String, ms: &Vec<SearchMatch>) -> (r: Vec<Vec<char>>)
    ensures
        views(r@) == file_lines(path@, ms@),
{
    let mut out: Vec<Vec<char>> = Vec::new();
    let mut head: Vec<char> = Vec::new();
    head.push('@');
    append_chars(&mut head, &to_chars(path.as_str()));
    out.push(head);
    let (nums, texts) = group_matches(ms);
    let ghost gr = group_runs(ms@);
    let ghost mapped = gr.map_values(|g: (Seq<usize>, Seq<char>)| line_refs(g.0) + seq![':', ' '] + g.1);
    assert(views(out@) =~= seq![seq!['@'] + path@] + mapped.take(0));
    let mut k: usize = 0;
    while k < nums.len()
        invariant
            k <= nums.len(),
            gr == group_runs(ms@),
            mapped == gr.map_values(|g: (Seq<usize>, Seq<char>)| line_refs(g.0) + seq![':', ' '] + g.1),
            groups_held(nums@, texts@, gr),
            views(out@) == seq![seq!['@'] + path@] + mapped.take(k as int),
        decreases nums.len() - k,
    {
        let mut l = line_refs_exec(&nums[k]);
        l.push(':');
        l.push(' ');
        append_chars(&mut l, &texts[k]);
        assert(nums@[k as int]@ == gr[k as int].0);
        assert(l@ =~= mapped[k as int]);
        let ghost ov = views(out@);
        out.push(l);
        assert(views(out@) =~= ov.push(l@));
        assert(mapped.take(k + 1) =~= mapped.take(k as int).push(mapped[k as int]));
        k += 1;
    }
    assert(mapped.take(gr.len() as int) =~= mapped);
    out
}

/// Search results in LEAN notation: for each file, in the order given, an
/// `@path` line and then one line per run of matches with equal text,
/// `L<n>, L<m>: text`; all joined by line feeds.
pub fn format_lean_notation(matches_by_file: &Vec<(String, Vec<SearchMatch>)>) -> (r: String)
    ensures
        r@ == lean_notation(matches_by_file@),
{
    let mut out: Vec<Vec<char>> = Vec::new();
    let mut f: usize = 0;
    while f < matches_by_file.len()
        invariant
            f <= matches_by_file.len(),
            views(out@) == all_file_lines(matches_by_file@.take(f as int)),
        decreases matches_by_file.len() - f,
    {
        let entry = &matches_by_file[f];
        let ghost out0 = views(out@);
        assert(matches_by_file@.take(f + 1).drop_last() =~= matches_by_file@.take(f as int));
        assert(matches_by_file@.take(f + 1).last() == *entry);
        let block = file_block(&entry.0, &entry.1);
        let mut b: usize = 0;
        while b < block.len()
            invariant
                b <= block.len(),
                views(block@) == file_lines(entry.0@, entry.1@),
                views(out@) == out0 + views(block@).take(b as int),
            decreases block.len() - b,
        {
            let ghost ov = views(out@);
            let c = block[b].clone();
            assert(c@ =~= block@[b as int]@);
            out.push(c);
            assert(views(out@) =~= ov.push(c@));
            assert(views(block@).take(b + 1) =~= views(block@).take(b as int).push(views(block@)[b as int]));
            b += 1;
        }
        assert(views(block@).take(block.len() as int) =~= views(block@));
        assert(views(out@) =~= all_file_lines(matches_by_file@.take(f + 1)));
        f += 1;
    }
    assert(matches_by_file@.take(matches_by_file.len() as int) =~= matches_by_file@);
    let nl = vec!['\n'];
    assert(nl@ == seq!['\n']);
    from_chars(&join_exec(&out, &nl))
}


/// The matching lines of `content`, from line `from` (counted from 0) on:
/// for each line that `pattern` matches, its number (from 1) and its
/// trimmed text; the pattern's error message when it does not compile.
pub open spec fn matching_lines(content: Seq<char>, pattern: Seq<char>, ls: Seq<Seq<char>>, from: int) -> Result<
    Seq<(usize, Seq<char>)>,
    Seq<char>,
>
    decreases ls.len() - from,
{
    if from >= ls.len() || from < 0 {
        Ok(Seq::empty())
    } else {
        match regex_matches(pattern, ls[from]) {
            Err(e) => Err(e),
            Ok(hit) => match matching_lines(content, pattern, ls, from + 1) {
                Err(e) => Err(e),
                Ok(rest) => if hit {
                    Ok(seq![((from + 1) as usize, trim(ls[from]))] + rest)
                } else {
                    Ok(rest)
                },
            },
        }
    }
}

/// The message of an invalid search pattern.
pub open spec fn bad_pattern_message(pattern: Seq<char>, e: Seq<char>) -> Seq<char> {
    "Regex inválida '"@ + pattern + "': "@ + e
}

/// `r` with `p` put in front of its matches.
spec fn prepend_matches(p: Seq<(usize, Seq<char>)>, r: Result<Seq<(usize, Seq<char>)>, Seq<char>>) -> Result<
    Seq<(usize, Seq<char>)>,
    Seq<char>,
> {
    match r {
        Ok(x) => Ok(p + x),
        Err(e) => Err(e),
    }
}

/// The view of a match.
pub open spec fn match_view(m: SearchMatch) -> (usize, Seq<char>) {
    (m.line_number, m.line_text@)
}

/// The lines of `content` that `pattern` matches, with their numbers
/// (from 1) and trimmed text; `Regex inválida '<pattern>': <error>` when the
/// pattern is invalid.
pub fn match_lines(content: &str, pattern: &str) -> (r: Result<Vec<SearchMatch>, String>)
    ensures
        match r {
            Ok(v) => matching_lines(content@, pattern@, lines(content@), 0) == Ok::<Seq<(usize, Seq<char>)>, Seq<char>>(
                v@.map_values(|m: SearchMatch| match_view(m)),
            ),
            Err(m) => exists|e: Seq<char>|
                matching_lines(content@, pattern@, lines(content@), 0) == Err::<Seq<(usize, Seq<char>)>, Seq<char>>(e)
                    && m@ == bad_pattern_message(pattern@, e),
        },
{
    let ls = lines_exec(&to_chars(content));
    let ghost lv = views(ls@);
    let mut found: Vec<SearchMatch> = Vec::new();
    let mut i: usize = 0;
    assert(prepend_matches(Seq::empty(), matching_lines(content@, pattern@, lv, 0)) =~= matching_lines(
        content@,
        pattern@,
        lv,
        0,
    )) by {
        match matching_lines(content@, pattern@, lv, 0) {
            Ok(x) => {
                assert(Seq::<(usize, Seq<char>)>::empty() + x =~= x);
            },
            Err(e) => {},
        }
    }
    while i < ls.len()
        invariant
            i <= ls.len(),
            lv == views(ls@),
            lv == lines(content@),
            matching_lines(content@, pattern@, lv, 0) == prepend_matches(
                found@.map_values(|m: SearchMatch| match_view(m)),
                matching_lines(content@, pattern@, lv, i as int),
            ),
        decreases ls.len() - i,
    {
        let line = from_chars(&ls[i]);
        assert(lv[i as int] == line@);
        let ghost fv = found@.map_values(|m: SearchMatch| match_view(m));
        match matches_anywhere(pattern, line.as_str()) {
            Err(e) => {
                let mut m = to_chars("Regex inválida '");
                append_chars(&mut m, &to_chars(pattern));
                push_str_chars(&mut m, "': ");
                append_chars(&mut m, &to_chars(e.as_str()));
                proof {
                    assert(matching_lines(content@, pattern@, lv, i as int) == Err::<Seq<(usize, Seq<char>)>, Seq<char>>(e@));
                    assert(matching_lines(content@, pattern@, lines(content@), 0) == Err::<
                        Seq<(usize, Seq<char>)>,
                        Seq<char>,
                    >(e@));
                    assert(m@ =~= bad_pattern_message(pattern@, e@));
                }
                return Err(from_chars(&m));
            },
            Ok(hit) => {
                if hit {
                    let t = from_chars(&trim_chars(&ls[i]));
                    found.push(SearchMatch { line_number: i + 1, line_text: t });
                    assert(found@.map_values(|m: SearchMatch| match_view(m)) =~= fv.push(((i + 1) as usize, trim(lv[i as int]))));
                    proof {
                        let xe = ((i + 1) as usize, trim(lv[i as int]));
                        match matching_lines(content@, pattern@, lv, i + 1) {
                            Ok(rest) => {
                                assert(fv + (seq![xe] + rest) =~= fv.push(xe) + rest);
                            },
                            Err(_) => {},
                        }
                    }
                }
            },
        }
        i += 1;
    }
    let ghost fv = found@.map_values(|m: SearchMatch| match_view(m));
    assert(fv + Seq::<(usize, Seq<char>)>::empty() =~= fv);
    Ok(found)
}

/// The answer of a search: a note that nothing was found, or the results
/// in LEAN notation.
pub fn search_report(pattern: &str, matches_by_file: &Vec<(String, Vec<SearchMatch>)>) -> (r: String)
    ensures
        r@ == (if matches_by_file.len() == 0 {
            "Nenhum resultado encontrado para a busca '"@ + pattern@ + "'."@
        } else {
            lean_notation(matches_by_file@)
        }),
{
    if matches_by_file.len() == 0 {
        let mut m = to_chars("Nenhum resultado encontrado para a busca '");
        append_chars(&mut m, &to_chars(pattern));
        push_str_chars(&mut m, "'.");
        from_chars(&m)
    } else {
        format_lean_notation(matches_by_file)
    }
}


/// Directories a LEAN search never enters: build output, dependencies,
/// version control, the tool's own data and editor settings.
pub open spec fn toxic_search_dir(name: Seq<char>) -> bool {
    name == "target"@ || name == "node_modules"@ || name == ".git"@ || name == ".souls_cache"@
        || name == ".souls_data"@ || name == ".cargo"@ || name == ".vscode"@ || name == ".idea"@
}

/// Whether a LEAN search skips a directory of this name.
pub fn is_toxic_search_dir(name: &str) -> (b: bool)
    ensures
        b == toxic_search_dir(name@),
{
    let n = crate::text::to_chars(name);
    if crate::text::eq_str(&n, "target") || crate::text::eq_str(&n, "node_modules") || crate::text::eq_str(&n, ".git")
        || crate::text::eq_str(&n, ".souls_cache") {
        return true;
    }
    crate::text::eq_str(&n, ".souls_data") || crate::text::eq_str(&n, ".cargo") || crate::text::eq_str(&n, ".vscode")
        || crate::text::eq_str(&n, ".idea")
}


/// Law of the search walk: the directories it skips are exactly the build
/// output (`target`), the JavaScript dependencies (`node_modules`), version
/// control (`.git`), the tool's own data (`.souls_cache`, `.souls_data`),
/// Cargo's home (`.cargo`) and editor settings (`.vscode`, `.idea`).
pub proof fn law_search_skips_exactly_the_toxic_dirs(name: Seq<char>)
    ensures
        toxic_search_dir("target"@),
        toxic_search_dir("node_modules"@),
        toxic_search_dir(".git"@),
        toxic_search_dir(".souls_cache"@),
        toxic_search_dir(".souls_data"@),
        toxic_search_dir(".cargo"@),
        toxic_search_dir(".vscode"@),
        toxic_search_dir(".idea"@),
        toxic_search_dir(name) <==> (name == "target"@ || name == "node_modules"@ || name == ".git"@ || name
            == ".souls_cache"@ || name == ".souls_data"@ || name == ".cargo"@ || name == ".vscode"@ || name == ".idea"@),
{
}

} // verus!
