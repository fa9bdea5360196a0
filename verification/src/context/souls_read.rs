//! The read pipeline with a prose fence: Markdown and files of unknown type
//! keep their comments, headers and bullets.
use vstd::prelude::*;
use crate::text::{
    eq_str, from_chars, join, join_exec, lines, lines_exec, opt_view, to_chars, trim, trim_chars,
    views,
};
use crate::lean_vacuum::ansi_filter::{strip_ansi, strip_ansi_spec};
use crate::lean_vacuum::text_compress;
use crate::lean_vacuum::text_compress::{
    aggressive_compress_spec, brace_step, comment_style, is_brace_only_exec,
    lightweight_cleanup_spec, push_with_brace_runs, strip_comment_lines, non_blank, not_line_comment,
    lemma_brace_step_shape, law_stripped_lines_are_clean, is_hash_comment_ext, is_markup_ext, is_sql_ext,
    strip_fold,
};

verus! {

/// Prose: Markdown (`md`, `markdown`, `mdx`) or no extension at all.
pub open spec fn is_prose_spec(ext: Option<Seq<char>>) -> bool {
    match ext {
        Some(e) => e == "md"@ || e == "markdown"@ || e == "mdx"@,
        None => true,
    }
}

/// Whether `ext` marks prose, whose comments must never be stripped.
pub fn is_prose(ext: Option<&str>) -> (b: bool)
    ensures
        b == is_prose_spec(opt_view(ext)),
{
    match ext {
        Some(e) => {
            let ev = to_chars(e);
            eq_str(&ev, "md") || eq_str(&ev, "markdown") || eq_str(&ev, "mdx")
        },
        None => true,
    }
}

/// The kept lines of [`collapse_brace_runs_only`]: every non-blank line, with
/// runs of closing tokens glued as in [`brace_step`].
pub open spec fn collapse_fold(ls: Seq<Seq<char>>) -> Seq<Seq<char>>
    decreases ls.len(),
{
    if ls.len() == 0 {
        Seq::empty()
    } else {
        let r = collapse_fold(ls.drop_last());
        if trim(ls.last()).len() == 0 {
            r
        } else {
            brace_step(r, ls.last())
        }
    }
}

/// What [`collapse_brace_runs_only`] returns.
pub open spec fn collapse_brace_runs_spec(content: Seq<char>) -> Seq<char> {
    join(collapse_fold(lines(content)), "\n"@)
}

/// What the prose-aware [`aggressive_compress`] returns.
pub open spec fn prose_aware_compress_spec(content: Seq<char>, ext: Option<Seq<char>>) -> Seq<
    char,
> {
    if is_prose_spec(ext) {
        collapse_brace_runs_spec(content)
    } else {
        aggressive_compress_spec(content, ext)
    }
}

/// Drops blank lines and glues runs of closing tokens, leaving comments,
/// headers, bullets and fenced code as they are.
pub fn collapse_brace_runs_only(content: &str) -> (r: String)
    ensures
        r@ == collapse_brace_runs_spec(content@),
{
    let c = to_chars(content);
    let ls = lines_exec(&c);
    let ghost lv = lines(c@);
    let mut result: Vec<Vec<char>> = Vec::new();
    let mut i: usize = 0;
    while i < ls.len()
        invariant
            i <= ls.len(),
            views(ls@) == lv,
            views(result@) == collapse_fold(lv.take(i as int)),
        decreases ls.len() - i,
    {
        assert(lv.take(i + 1).drop_last() =~= lv.take(i as int));
        assert(lv[i as int] == ls@[i as int]@);
        let line = ls[i].clone();
        let t = trim_chars(&line);
        if t.len() > 0 {
            push_with_brace_runs(&mut result, line);
        }
        i += 1;
    }
    assert(lv.take(ls.len() as int) =~= lv);
    let nl = to_chars("\n");
    let out = join_exec(&result, &nl);
    from_chars(&out)
}

/// Whether `line` is non-empty and made only of `}`, `;` and `)`.
pub fn is_brace_only(line: &str) -> (b: bool)
    ensures
        b == text_compress::is_brace_only(line@),
{
    is_brace_only_exec(&to_chars(line))
}

/// Comment stripping by extension, fenced for prose: `md`, `markdown`, `mdx`
/// and a missing extension only drop blank lines and glue closing tokens;
/// every other extension goes through the full stripping of
/// [`text_compress::aggressive_compress`].
pub fn aggressive_compress(content: &str, ext: Option<&str>) -> (r: String)
    ensures
        r@ == prose_aware_compress_spec(content@, opt_view(ext)),
{
    if is_prose(ext) {
        return collapse_brace_runs_only(content);
    }
    let (hash, markup, sql) = comment_style(ext);
    let c = to_chars(content);
    let kept = strip_comment_lines(&c, hash, markup, sql);
    let nl = to_chars("\n");
    let out = join_exec(&kept, &nl);
    from_chars(&out)
}

/// Collapses blank-line runs and long closing-token runs; comments are left alone.
pub fn lightweight_cleanup(content: &str) -> (r: String)
    ensures
        r@ == lightweight_cleanup_spec(content@),
{
    text_compress::lightweight_cleanup(content)
}

/// The fenced pipeline: ANSI stripping, prose-aware comment stripping, cleanup.
pub fn compress_to_lean(text: &str, ext: Option<&str>) -> (r: String)
    ensures
        r@ == lightweight_cleanup_spec(
            prose_aware_compress_spec(strip_ansi_spec(text@), opt_view(ext)),
        ),
{
    let stripped = strip_ansi(text);
    let compressed = aggressive_compress(stripped.as_str(), ext);
    lightweight_cleanup(compressed.as_str())
}


/// `ix` places the items of `a` in `b`, in order: `b[ix[i]]` is `a[i]`, and
/// the positions strictly increase.
pub open spec fn placed_in_order(ix: Seq<int>, a: Seq<Seq<char>>, b: Seq<Seq<char>>) -> bool {
    &&& ix.len() == a.len()
    &&& forall|i: int| 0 <= i < ix.len() ==> 0 <= #[trigger] ix[i] < b.len() && b[ix[i]] == a[i]
    &&& forall|i: int, j: int| 0 <= i < j < ix.len() ==> #[trigger] ix[i] < #[trigger] ix[j]
}

/// A prose line that the brace gluing never touches: not blank, and its
/// trim not made only of closing characters.
pub open spec fn plain_prose_line(l: Seq<char>) -> bool {
    non_blank(l) && !text_compress::is_brace_only(trim(l))
}

/// The lines of `ls` that are plain prose lines, in order.
pub open spec fn plain_prose_lines(ls: Seq<Seq<char>>) -> Seq<Seq<char>> {
    ls.filter(|l: Seq<char>| plain_prose_line(l))
}

proof fn lemma_collapse_fold_keeps(ls: Seq<Seq<char>>) -> (ix: Seq<int>)
    ensures
        placed_in_order(ix, plain_prose_lines(ls), collapse_fold(ls)),
        forall|i: int| 0 <= i < collapse_fold(ls).len() ==> non_blank(#[trigger] collapse_fold(ls)[i]),
    decreases ls.len(),
{
    if ls.len() == 0 {
        Seq::empty()
    } else {
        let ix0 = lemma_collapse_fold_keeps(ls.drop_last());
        let r = collapse_fold(ls.drop_last());
        let x = ls.last();
        let a0 = plain_prose_lines(ls.drop_last());
        assert(plain_prose_lines(ls) == if plain_prose_line(x) { a0.push(x) } else { a0 }) by {
            reveal_with_fuel(Seq::filter, 2);
        }
        if trim(x).len() == 0 {
            ix0
        } else {
            lemma_brace_step_shape(r, x);
            let r2 = brace_step(r, x);
            assert(collapse_fold(ls) == r2);
            assert forall|i: int| 0 <= i < ix0.len() implies 0 <= #[trigger] ix0[i] < r2.len() && r2[ix0[i]]
                == a0[i] by {
                assert(r[ix0[i]] == a0[i]);
                assert(a0.contains(a0[i]));
                ls.drop_last().lemma_filter_contains_rev(|l: Seq<char>| plain_prose_line(l), a0[i]);
                assert(plain_prose_line(a0[i]));
            }
            if plain_prose_line(x) {
                let ix = ix0.push(r.len() as int);
                assert(r2 == r.push(x));
                assert forall|i: int| 0 <= i < ix.len() implies 0 <= #[trigger] ix[i] < r2.len() && r2[ix[i]]
                    == a0.push(x)[i] by {
                    if i < ix0.len() {
                        assert(ix[i] == ix0[i]);
                    }
                }
                assert forall|i: int, j: int| 0 <= i < j < ix.len() implies #[trigger] ix[i] < #[trigger] ix[j] by {
                    if j < ix0.len() {
                        assert(ix[i] == ix0[i] && ix[j] == ix0[j]);
                    } else {
                        assert(ix[i] == ix0[i]);
                    }
                }
                ix
            } else {
                ix0
            }
        }
    }
}

/// Law of the prose-aware compressor. Every line it keeps is non-blank. For
/// code (any extension but `md`, `markdown`, `mdx` or none) no kept line is
/// a `//` comment. For prose, every line of the input that is non-blank and
/// whose trim is not made only of `}`, `;` and `)` is kept unchanged, in the
/// order of the input (a line made only of closing characters may have a
/// closing token glued onto it).
pub proof fn law_prose_aware_compress(content: Seq<char>, ext: Option<Seq<char>>)
    ensures
        prose_aware_compress_spec(content, ext) == join(prose_aware_kept(content, ext), "\n"@),
        forall|i: int| 0 <= i < prose_aware_kept(content, ext).len() ==> non_blank(#[trigger] prose_aware_kept(content, ext)[i]),
        !is_prose_spec(ext) ==> forall|i: int|
            0 <= i < prose_aware_kept(content, ext).len() ==> not_line_comment(#[trigger] prose_aware_kept(content, ext)[i]),
        is_prose_spec(ext) ==> exists|ix: Seq<int>|
            #[trigger] placed_in_order(ix, plain_prose_lines(lines(content)), prose_aware_kept(content, ext)),
{
    law_stripped_lines_are_clean(content, ext);
    let ix = lemma_collapse_fold_keeps(lines(content));
    if is_prose_spec(ext) {
        assert(placed_in_order(ix, plain_prose_lines(lines(content)), prose_aware_kept(content, ext)));
    }
}

/// The lines that the prose-aware compressor joins.
pub open spec fn prose_aware_kept(content: Seq<char>, ext: Option<Seq<char>>) -> Seq<Seq<char>> {
    if is_prose_spec(ext) {
        collapse_fold(lines(content))
    } else {
        strip_fold(lines(content), is_hash_comment_ext(ext), is_markup_ext(ext), is_sql_ext(ext)).0
    }
}


/// Law of the prose fence: exactly Markdown (`md`, `markdown`, `mdx`) and a
/// missing extension count as prose.
pub proof fn law_prose_extensions(ext: Option<Seq<char>>)
    ensures
        is_prose_spec(ext) <==> (ext is None || ext == Some("md"@) || ext == Some("markdown"@) || ext == Some(
            "mdx"@,
        )),
{
}

} // verus!
