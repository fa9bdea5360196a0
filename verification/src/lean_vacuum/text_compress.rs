//! Structural text compression: comment stripping by file extension,
//! closing-brace run concatenation and blank-line collapsing.
use vstd::prelude::*;
use crate::text::{
    append_chars, contains, contains_exec, decimal, decimal_exec, eq_str, from_chars, join,
    join_exec, lines, lines_exec, opt_view, starts_with, starts_with_exec, to_chars, trim,
    trim_chars, views,
};

verus! {

// ---------------------------------------------------------------------------
// Line classes
// ---------------------------------------------------------------------------

/// A trimmed line that is one closing token: `}`, `};`, `);`, `});` or `)`.
pub open spec fn is_closer(t: Seq<char>) -> bool {
    t == "}"@ || t == "};"@ || t == ");"@ || t == "});"@ || t == ")"@
}

pub open spec fn is_brace_char(c: char) -> bool {
    c == '}' || c == ';' || c == ')'
}

/// A non-empty line made only of `}`, `;` and `)` (e.g. `}}`, `};}`, `););`).
pub open spec fn is_brace_only(t: Seq<char>) -> bool {
    t.len() > 0 && forall|i: int| 0 <= i < t.len() ==> is_brace_char(#[trigger] t[i])
}

/// Extensions whose line comments start with `#`.
pub open spec fn is_hash_comment_ext(ext: Option<Seq<char>>) -> bool {
    match ext {
        Some(e) => e == "py"@ || e == "sh"@ || e == "bash"@ || e == "zsh"@ || e == "rb"@ || e
            == "yaml"@ || e == "toml"@,
        None => false,
    }
}

/// Markup extensions whose block comments are `<!-- -->`.
pub open spec fn is_markup_ext(ext: Option<Seq<char>>) -> bool {
    match ext {
        Some(e) => e == "html"@ || e == "htm"@ || e == "xml"@ || e == "svg"@,
        None => false,
    }
}

/// The SQL extension, whose line comments start with `--`.
pub open spec fn is_sql_ext(ext: Option<Seq<char>>) -> bool {
    match ext {
        Some(e) => e == "sql"@,
        None => false,
    }
}

// ---------------------------------------------------------------------------
// Specifications
// ---------------------------------------------------------------------------

/// Adds a non-blank `line` to `result`: a closing token is trimmed and glued
/// onto the previous line when that one is made only of closing characters.
pub open spec fn brace_step(result: Seq<Seq<char>>, line: Seq<char>) -> Seq<Seq<char>> {
    let t = trim(line);
    if is_closer(t) {
        if result.len() > 0 && is_brace_only(trim(result.last())) {
            result.drop_last().push(result.last() + t)
        } else {
            result.push(t)
        }
    } else {
        result.push(line)
    }
}

/// One line of comment stripping: the kept lines and whether a block comment is open.
pub open spec fn strip_step(
    st: (Seq<Seq<char>>, bool),
    line: Seq<char>,
    hash: bool,
    markup: bool,
    sql: bool,
) -> (Seq<Seq<char>>, bool) {
    let t = trim(line);
    if t.len() == 0 {
        st
    } else if st.1 {
        (st.0, !(contains(t, "*/"@) || (markup && contains(t, "-->"@))))
    } else if starts_with(t, "/*"@) || (markup && starts_with(t, "<!--"@)) {
        (st.0, !(contains(t, "*/"@) || contains(t, "-->"@)))
    } else if starts_with(t, "//"@) && !starts_with(t, "///"@) {
        st
    } else if hash && starts_with(t, "#"@) && !starts_with(t, "#!"@) {
        st
    } else if sql && starts_with(t, "--"@) {
        st
    } else {
        (brace_step(st.0, line), false)
    }
}

pub open spec fn strip_fold(ls: Seq<Seq<char>>, hash: bool, markup: bool, sql: bool) -> (
    Seq<Seq<char>>,
    bool,
)
    decreases ls.len(),
{
    if ls.len() == 0 {
        (Seq::empty(), false)
    } else {
        strip_step(strip_fold(ls.drop_last(), hash, markup, sql), ls.last(), hash, markup, sql)
    }
}

/// What [`aggressive_compress`] returns.
pub open spec fn aggressive_compress_spec(content: Seq<char>, ext: Option<Seq<char>>) -> Seq<
    char,
> {
    join(
        strip_fold(
            lines(content),
            is_hash_comment_ext(ext),
            is_markup_ext(ext),
            is_sql_ext(ext),
        ).0,
        "\n"@,
    )
}

/// The note that replaces a long run of brace-only lines.
pub open spec fn collapsed_note(n: nat) -> Seq<char> {
    "["@ + decimal(n) + " brace-only lines collapsed]"@
}

/// Emits a pending run of closing-token lines: kept as is when the text has
/// at most 200 lines or the run at most 5, else its first two and a note.
pub open spec fn flush_run(out: Seq<Seq<char>>, run: Seq<Seq<char>>, total: nat) -> Seq<
    Seq<char>,
> {
    if run.len() == 0 {
        out
    } else if total <= 200 || run.len() <= 5 {
        out + run
    } else {
        out.push(run[0]).push(run[1]).push(collapsed_note((run.len() - 2) as nat))
    }
}

/// The scan behind [`lightweight_cleanup`]: emitted lines, whether the last
/// line read was blank, and the pending run of closing tokens.
pub open spec fn cleanup_fold(ls: Seq<Seq<char>>, total: nat) -> (
    Seq<Seq<char>>,
    bool,
    Seq<Seq<char>>,
)
    decreases ls.len(),
{
    if ls.len() == 0 {
        (Seq::empty(), false, Seq::empty())
    } else {
        let st = cleanup_fold(ls.drop_last(), total);
        let line = ls.last();
        let t = trim(line);
        if t.len() == 0 {
            let o = flush_run(st.0, st.2, total);
            (
                if st.1 {
                    o
                } else {
                    o.push(Seq::empty())
                },
                true,
                Seq::empty(),
            )
        } else if is_closer(t) {
            (st.0, false, st.2.push(t))
        } else {
            (flush_run(st.0, st.2, total).push(line), false, Seq::empty())
        }
    }
}

/// The lines that [`lightweight_cleanup`] joins.
pub open spec fn cleanup_lines(content: Seq<char>) -> Seq<Seq<char>> {
    let ls = lines(content);
    let st = cleanup_fold(ls, ls.len());
    flush_run(st.0, st.2, ls.len())
}

/// What [`lightweight_cleanup`] returns.
pub open spec fn lightweight_cleanup_spec(content: Seq<char>) -> Seq<char> {
    join(cleanup_lines(content), "\n"@)
}

// ---------------------------------------------------------------------------
// Executable code
// ---------------------------------------------------------------------------

pub fn is_closer_exec(t: &Vec<char>) -> (b: bool)
    ensures
        b == is_closer(t@),
{
    eq_str(t, "}") || eq_str(t, "};") || eq_str(t, ");") || eq_str(t, "});") || eq_str(t, ")")
}

/// Whether `line` is non-empty and made only of `}`, `;` and `)`.
pub fn is_brace_only_exec(line: &Vec<char>) -> (b: bool)
    ensures
        b == is_brace_only(line@),
{
    if line.len() == 0 {
        return false;
    }
    let mut i: usize = 0;
    while i < line.len()
        invariant
            i <= line.len(),
            forall|j: int| 0 <= j < i ==> is_brace_char(#[trigger] line@[j]),
        decreases line.len() - i,
    {
        let c = line[i];
        if !(c == '}' || c == ';' || c == ')') {
            return false;
        }
        i += 1;
    }
    true
}

/// [`brace_step`] in place.
pub fn push_with_brace_runs(result: &mut Vec<Vec<char>>, line: Vec<char>)
    requires
        trim(line@).len() > 0,
    ensures
        views(final(result)@) == brace_step(views(old(result)@), line@),
{
    let t = trim_chars(&line);
    if is_closer_exec(&t) {
        if result.len() > 0 {
            let last_trim = trim_chars(&result[result.len() - 1]);
            if is_brace_only_exec(&last_trim) {
                let ghost before = views(result@);
                let mut last = result.pop().unwrap();
                append_chars(&mut last, &t);
                result.push(last);
                assert(views(result@) =~= before.drop_last().push(before.last() + t@));
                return;
            }
        }
        let ghost before = views(result@);
        result.push(t);
        assert(views(result@) =~= before.push(t@));
    } else {
        let ghost before = views(result@);
        result.push(line);
        assert(views(result@) =~= before.push(line@));
    }
}

/// Which comment syntaxes an extension turns on: `#`, `<!-- -->`, `--`.
pub fn comment_style(ext: Option<&str>) -> (r: (bool, bool, bool))
    ensures
        r.0 == is_hash_comment_ext(opt_view(ext)),
        r.1 == is_markup_ext(opt_view(ext)),
        r.2 == is_sql_ext(opt_view(ext)),
{
    match ext {
        Some(e) => {
            let ev = to_chars(e);
            let hash = eq_str(&ev, "py") || eq_str(&ev, "sh") || eq_str(&ev, "bash") || eq_str(
                &ev,
                "zsh",
            ) || eq_str(&ev, "rb") || eq_str(&ev, "yaml") || eq_str(&ev, "toml");
            let markup = eq_str(&ev, "html") || eq_str(&ev, "htm") || eq_str(&ev, "xml")
                || eq_str(&ev, "svg");
            let sql = eq_str(&ev, "sql");
            (hash, markup, sql)
        },
        None => (false, false, false),
    }
}

/// The kept lines of [`aggressive_compress`], before joining.
pub fn strip_comment_lines(content: &Vec<char>, hash: bool, markup: bool, sql: bool) -> (r: Vec<
    Vec<char>,
>)
    ensures
        views(r@) == strip_fold(lines(content@), hash, markup, sql).0,
{
    let ls = lines_exec(content);
    let ghost lv = lines(content@);
    let mut result: Vec<Vec<char>> = Vec::new();
    let mut in_block = false;
    let end_block = to_chars("*/");
    let open_block = to_chars("/*");
    let end_markup = to_chars("-->");
    let open_markup = to_chars("<!--");
    let line_comment = to_chars("//");
    let doc_comment = to_chars("///");
    let hash_mark = to_chars("#");
    let shebang = to_chars("#!");
    let sql_mark = to_chars("--");
    let mut i: usize = 0;
    while i < ls.len()
        invariant
            i <= ls.len(),
            views(ls@) == lv,
            end_block@ == "*/"@,
            open_block@ == "/*"@,
            end_markup@ == "-->"@,
            open_markup@ == "<!--"@,
            line_comment@ == "//"@,
            doc_comment@ == "///"@,
            hash_mark@ == "#"@,
            shebang@ == "#!"@,
            sql_mark@ == "--"@,
            (views(result@), in_block) == strip_fold(lv.take(i as int), hash, markup, sql),
        decreases ls.len() - i,
    {
        assert(lv.take(i + 1).drop_last() =~= lv.take(i as int));
        assert(lv[i as int] == ls@[i as int]@);
        let line = ls[i].clone();
        let t = trim_chars(&line);
        if t.len() == 0 {
        } else if in_block {
            if contains_exec(&t, &end_block) || (markup && contains_exec(&t, &end_markup)) {
                in_block = false;
            }
        } else if starts_with_exec(&t, &open_block) || (markup && starts_with_exec(
            &t,
            &open_markup,
        )) {
            if !(contains_exec(&t, &end_block) || contains_exec(&t, &end_markup)) {
                in_block = true;
            }
        } else if starts_with_exec(&t, &line_comment) && !starts_with_exec(&t, &doc_comment) {
        } else if hash && starts_with_exec(&t, &hash_mark) && !starts_with_exec(&t, &shebang) {
        } else if sql && starts_with_exec(&t, &sql_mark) {
        } else {
            push_with_brace_runs(&mut result, line);
        }
        i += 1;
    }
    assert(lv.take(ls.len() as int) =~= lv);
    result
}

/// Removes whole comment lines by file extension and glues runs of closing
/// tokens onto the previous brace-only line.
///
/// - every extension: lines starting with `//` (but not `///`) and `/* ... */` blocks;
/// - `py`, `sh`, `bash`, `zsh`, `rb`, `yaml`, `toml`: lines starting with `#` (but not `#!`);
/// - `sql`: lines starting with `--`;
/// - `html`, `htm`, `xml`, `svg`: `<!-- ... -->` blocks.
///
/// Blank lines are dropped. A closing token (`}`, `};`, `);`, `});`, `)`) is
/// appended to the previous kept line when that line holds only `}`, `;` and `)`.
pub fn aggressive_compress(content: &str, ext: Option<&str>) -> (r: String)
    ensures
        r@ == aggressive_compress_spec(content@, opt_view(ext)),
{
    let (hash, markup, sql) = comment_style(ext);
    let c = to_chars(content);
    let kept = strip_comment_lines(&c, hash, markup, sql);
    let nl = to_chars("\n");
    let out = join_exec(&kept, &nl);
    from_chars(&out)
}

/// [`flush_run`] in place; empties `run`.
pub fn flush_brace_run(run: &mut Vec<Vec<char>>, out: &mut Vec<Vec<char>>, total: usize)
    ensures
        views(final(out)@) == flush_run(views(old(out)@), views(old(run)@), total as nat),
        final(run)@.len() == 0,
{
    if run.len() == 0 {
        return;
    }
    let ghost o0 = views(out@);
    let ghost r0 = views(run@);
    if total <= 200 || run.len() <= 5 {
        let mut i: usize = 0;
        while i < run.len()
            invariant
                i <= run.len(),
                views(run@) == r0,
                views(out@) =~= o0 + r0.take(i as int),
            decreases run.len() - i,
        {
            let x = run[i].clone();
            assert(x@ == r0[i as int]);
            let ghost before = views(out@);
            out.push(x);
            assert(views(out@) =~= before.push(x@));
            assert(r0.take(i + 1) =~= r0.take(i as int).push(r0[i as int]));
            i += 1;
        }
        assert(r0.take(run.len() as int) =~= r0);
    } else {
        out.push(run[0].clone());
        out.push(run[1].clone());
        let mut note = to_chars("[");
        let digits = decimal_exec((run.len() - 2) as u64);
        append_chars(&mut note, &digits);
        let tail = to_chars(" brace-only lines collapsed]");
        append_chars(&mut note, &tail);
        out.push(note);
        assert(views(out@) =~= o0.push(r0[0]).push(r0[1]).push(
            collapsed_note((r0.len() - 2) as nat),
        ));
    }
    *run = Vec::new();
}

/// The lines that [`lightweight_cleanup`] joins.
pub fn cleanup_line_list(content: &Vec<char>) -> (r: Vec<Vec<char>>)
    ensures
        views(r@) == cleanup_lines(content@),
{
    let ls = lines_exec(content);
    let ghost lv = lines(content@);
    let total = ls.len();
    let mut result: Vec<Vec<char>> = Vec::new();
    let mut prev_blank = false;
    let mut run: Vec<Vec<char>> = Vec::new();
    let mut i: usize = 0;
    while i < ls.len()
        invariant
            i <= ls.len() == total,
            views(ls@) == lv,
            lv.len() == total,
            (views(result@), prev_blank, views(run@)) == cleanup_fold(
                lv.take(i as int),
                total as nat,
            ),
        decreases ls.len() - i,
    {
        assert(lv.take(i + 1).drop_last() =~= lv.take(i as int));
        assert(lv[i as int] == ls@[i as int]@);
        let line = ls[i].clone();
        let t = trim_chars(&line);
        if t.len() == 0 {
            flush_brace_run(&mut run, &mut result, total);
            if !prev_blank {
                let ghost before = views(result@);
                result.push(Vec::new());
                assert(views(result@) =~= before.push(Seq::<char>::empty()));
            }
            prev_blank = true;
            assert(views(run@) =~= Seq::<Seq<char>>::empty());
        } else if is_closer_exec(&t) {
            let ghost before = views(run@);
            run.push(t);
            assert(views(run@) =~= before.push(t@));
            prev_blank = false;
        } else {
            flush_brace_run(&mut run, &mut result, total);
            let ghost before = views(result@);
            result.push(line);
            assert(views(result@) =~= before.push(line@));
            prev_blank = false;
            assert(views(run@) =~= Seq::<Seq<char>>::empty());
        }
        i += 1;
    }
    assert(lv.take(ls.len() as int) =~= lv);
    flush_brace_run(&mut run, &mut result, total);
    result
}

/// Collapses runs of blank lines to at most one blank line and, in texts of
/// more than 200 lines, runs of more than 5 closing-token lines to their
/// first two lines and a note. Comments are left alone.
pub fn lightweight_cleanup(content: &str) -> (r: String)
    ensures
        r@ == lightweight_cleanup_spec(content@),
{
    let c = to_chars(content);
    let kept = cleanup_line_list(&c);
    let nl = to_chars("\n");
    let out = join_exec(&kept, &nl);
    from_chars(&out)
}


// ---------------------------------------------------------------------------
// Blank lines
// ---------------------------------------------------------------------------

/// No two empty lines follow each other.
pub open spec fn no_double_blank(ls: Seq<Seq<char>>) -> bool {
    forall|i: int| 0 <= i && i + 1 < ls.len() ==> (#[trigger] ls[i]).len() > 0 || ls[i + 1].len() > 0
}

proof fn lemma_closer_nonempty(t: Seq<char>)
    requires
        is_closer(t),
    ensures
        t.len() > 0,
{
    reveal_strlit("}");
    reveal_strlit("};");
    reveal_strlit(");");
    reveal_strlit("});");
    reveal_strlit(")");
}

proof fn lemma_flush_run(out: Seq<Seq<char>>, run: Seq<Seq<char>>, total: nat)
    requires
        no_double_blank(out),
        forall|k: int| 0 <= k < run.len() ==> (#[trigger] run[k]).len() > 0,
    ensures
        no_double_blank(flush_run(out, run, total)),
        run.len() > 0 ==> flush_run(out, run, total).len() > 0 && flush_run(out, run, total).last().len() > 0,
        run.len() == 0 ==> flush_run(out, run, total) == out,
{
    let f = flush_run(out, run, total);
    if run.len() > 0 {
        if total <= 200 || run.len() <= 5 {
            assert forall|i: int| 0 <= i && i + 1 < f.len() implies (#[trigger] f[i]).len() > 0 || f[i + 1].len() > 0 by {
                if i + 1 >= out.len() {
                    assert(f[i + 1] == run[i + 1 - out.len()]);
                }
            }
        } else {
            reveal_strlit("[");
            let note = collapsed_note((run.len() - 2) as nat);
            assert(note.len() > 0);
            assert forall|i: int| 0 <= i && i + 1 < f.len() implies (#[trigger] f[i]).len() > 0 || f[i + 1].len() > 0 by {
                if i + 1 == out.len() {
                    assert(f[i + 1] == run[0]);
                } else if i + 1 == out.len() + 1 {
                    assert(f[i + 1] == run[1]);
                } else if i + 1 == out.len() + 2 {
                    assert(f[i + 1] == note);
                }
            }
        }
    }
}

proof fn lemma_cleanup_fold(ls: Seq<Seq<char>>, total: nat)
    ensures
        no_double_blank(cleanup_fold(ls, total).0),
        cleanup_fold(ls, total).1 ==> cleanup_fold(ls, total).2.len() == 0 && cleanup_fold(ls, total).0.len() > 0
            && cleanup_fold(ls, total).0.last().len() == 0,
        !cleanup_fold(ls, total).1 && cleanup_fold(ls, total).2.len() == 0 && cleanup_fold(ls, total).0.len() > 0
            ==> cleanup_fold(ls, total).0.last().len() > 0,
        forall|k: int|
            0 <= k < cleanup_fold(ls, total).2.len() ==> (#[trigger] cleanup_fold(ls, total).2[k]).len() > 0,
    decreases ls.len(),
{
    if ls.len() > 0 {
        lemma_cleanup_fold(ls.drop_last(), total);
        let st = cleanup_fold(ls.drop_last(), total);
        let line = ls.last();
        let t = trim(line);
        lemma_flush_run(st.0, st.2, total);
        let o = flush_run(st.0, st.2, total);
        if t.len() == 0 {
            if !st.1 {
                let o2 = o.push(Seq::<char>::empty());
                assert forall|i: int| 0 <= i && i + 1 < o2.len() implies (#[trigger] o2[i]).len() > 0 || o2[i + 1].len() > 0 by {
                    if i + 1 < o.len() {
                        assert(o2[i] == o[i]);
                        assert(o2[i + 1] == o[i + 1]);
                    } else {
                        assert(o2[i] == o[i]);
                    }
                }
            }
        } else if is_closer(t) {
            lemma_closer_nonempty(t);
            let r2 = st.2.push(t);
            assert forall|k: int| 0 <= k < r2.len() implies (#[trigger] r2[k]).len() > 0 by {
                if k < st.2.len() {
                    assert(r2[k] == st.2[k]);
                }
            }
        } else {
            assert(line.len() > 0) by {
                if line.len() == 0 {
                    assert(line == Seq::<char>::empty());
                    crate::text::lemma_trim_start_len(line);
                    crate::text::lemma_trim_end_len(crate::text::trim_start(line));
                }
            }
            let o2 = o.push(line);
            assert forall|i: int| 0 <= i && i + 1 < o2.len() implies (#[trigger] o2[i]).len() > 0 || o2[i + 1].len() > 0 by {
                if i + 1 < o.len() {
                    assert(o2[i] == o[i]);
                    assert(o2[i + 1] == o[i + 1]);
                }
            }
        }
    }
}

/// [`lightweight_cleanup`] never leaves two blank lines in a row: runs of
/// blank lines come out as one.
pub proof fn law_cleanup_never_two_blank_lines(content: Seq<char>)
    ensures
        no_double_blank(cleanup_lines(content)),
{
    let ls = lines(content);
    lemma_cleanup_fold(ls, ls.len());
    let st = cleanup_fold(ls, ls.len());
    lemma_flush_run(st.0, st.2, ls.len());
}


/// A line whose trim is not blank.
pub open spec fn non_blank(l: Seq<char>) -> bool {
    trim(l).len() > 0
}

/// A line that is not a `//` line comment (doc comments `///` are kept).
pub open spec fn not_line_comment(l: Seq<char>) -> bool {
    !(starts_with(trim(l), "//"@) && !starts_with(trim(l), "///"@))
}

/// A line whose trim starts with neither blank nor `/`.
spec fn starts_plain(l: Seq<char>) -> bool {
    trim(l).len() > 0 && trim(l)[0] != '/'
}

proof fn lemma_starts_plain(l: Seq<char>)
    requires
        starts_plain(l),
    ensures
        non_blank(l),
        not_line_comment(l),
{
    reveal_strlit("//");
    if starts_with(trim(l), "//"@) {
        assert(trim(l).subrange(0, 2)[0] == trim(l)[0]);
    }
}

/// A closing token is its own trim, and starts with `}` or `)`.
proof fn lemma_closer_trim(t: Seq<char>)
    requires
        is_closer(t),
    ensures
        starts_plain(t),
        trim(t) == t,
{
    reveal_strlit("}");
    reveal_strlit("};");
    reveal_strlit(");");
    reveal_strlit("});");
    reveal_strlit(")");
    assert(t[0] == '}' || t[0] == ')');
    assert(t.last() == '}' || t.last() == ')' || t.last() == ';');
    assert(crate::text::trim_start(t) == t);
    assert(crate::text::trim_end(t) == t);
    crate::text::lemma_trim_end_keeps_first(t);
}

/// [`brace_step`] keeps every line non-blank and free of `//` comments when
/// the added line is.
proof fn lemma_brace_step_clean(result: Seq<Seq<char>>, line: Seq<char>)
    requires
        forall|i: int| 0 <= i < result.len() ==> non_blank(#[trigger] result[i]) && not_line_comment(result[i]),
        non_blank(line),
        not_line_comment(line),
    ensures
        forall|i: int|
            0 <= i < brace_step(result, line).len() ==> non_blank(#[trigger] brace_step(result, line)[i])
                && not_line_comment(brace_step(result, line)[i]),
{
    let t = trim(line);
    let r2 = brace_step(result, line);
    if is_closer(t) {
        lemma_closer_trim(t);
        lemma_starts_plain(t);
        if result.len() > 0 && is_brace_only(trim(result.last())) {
            let g = result.last() + t;
            crate::text::lemma_trim_front(result.last(), t);
            assert(is_brace_char(trim(result.last())[0]));
            lemma_starts_plain(g);
            assert forall|i: int| 0 <= i < r2.len() implies non_blank(#[trigger] r2[i]) && not_line_comment(r2[i]) by {
                if i < result.len() - 1 {
                    assert(r2[i] == result[i]);
                } else {
                    assert(r2[i] == g);
                }
            }
        } else {
            assert forall|i: int| 0 <= i < r2.len() implies non_blank(#[trigger] r2[i]) && not_line_comment(r2[i]) by {
                if i < result.len() {
                    assert(r2[i] == result[i]);
                }
            }
        }
    } else {
        assert forall|i: int| 0 <= i < r2.len() implies non_blank(#[trigger] r2[i]) && not_line_comment(r2[i]) by {
            if i < result.len() {
                assert(r2[i] == result[i]);
            }
        }
    }
}

/// Every line kept by comment stripping is non-blank and no `//` comment.
proof fn lemma_strip_fold_clean(ls: Seq<Seq<char>>, hash: bool, markup: bool, sql: bool)
    ensures
        forall|i: int|
            0 <= i < strip_fold(ls, hash, markup, sql).0.len() ==> non_blank(
                #[trigger] strip_fold(ls, hash, markup, sql).0[i],
            ) && not_line_comment(strip_fold(ls, hash, markup, sql).0[i]),
    decreases ls.len(),
{
    if ls.len() > 0 {
        lemma_strip_fold_clean(ls.drop_last(), hash, markup, sql);
        let st = strip_fold(ls.drop_last(), hash, markup, sql);
        let line = ls.last();
        let t = trim(line);
        if t.len() > 0 && !st.1 && !(starts_with(t, "/*"@) || (markup && starts_with(t, "<!--"@))) && !(
        starts_with(t, "//"@) && !starts_with(t, "///"@)) && !(hash && starts_with(t, "#"@) && !starts_with(
            t,
            "#!"@,
        )) && !(sql && starts_with(t, "--"@)) {
            lemma_brace_step_clean(st.0, line);
        }
    }
}

/// Law of comment stripping: every line it keeps is non-blank and none is a
/// `//` line comment (`///` doc comments stay).
pub proof fn law_stripped_lines_are_clean(content: Seq<char>, ext: Option<Seq<char>>)
    ensures
        aggressive_compress_spec(content, ext) == join(
            strip_fold(lines(content), is_hash_comment_ext(ext), is_markup_ext(ext), is_sql_ext(ext)).0,
            "\n"@,
        ),
        forall|i: int|
            0 <= i < strip_fold(lines(content), is_hash_comment_ext(ext), is_markup_ext(ext), is_sql_ext(ext)).0.len()
                ==> non_blank(
                #[trigger] strip_fold(lines(content), is_hash_comment_ext(ext), is_markup_ext(ext), is_sql_ext(ext)).0[i],
            ) && not_line_comment(
                strip_fold(lines(content), is_hash_comment_ext(ext), is_markup_ext(ext), is_sql_ext(ext)).0[i],
            ),
{
    lemma_strip_fold_clean(lines(content), is_hash_comment_ext(ext), is_markup_ext(ext), is_sql_ext(ext));
}

/// [`brace_step`] keeps every line non-blank when the added line is, and
/// it changes no line but the last, and that one only when its trim is made
/// only of closing characters.
pub proof fn lemma_brace_step_shape(result: Seq<Seq<char>>, line: Seq<char>)
    requires
        forall|i: int| 0 <= i < result.len() ==> non_blank(#[trigger] result[i]),
        non_blank(line),
    ensures
        forall|i: int| 0 <= i < brace_step(result, line).len() ==> non_blank(#[trigger] brace_step(result, line)[i]),
        brace_step(result, line).len() >= result.len(),
        forall|i: int|
            0 <= i < result.len() && !is_brace_only(trim(result[i])) ==> #[trigger] brace_step(result, line)[i]
                == result[i],
        !is_brace_only(trim(line)) ==> brace_step(result, line) == result.push(line),
{
    let t = trim(line);
    let r2 = brace_step(result, line);
    if is_closer(t) {
        lemma_closer_trim(t);
        assert(is_brace_only(t)) by {
            reveal_strlit("}");
            reveal_strlit("};");
            reveal_strlit(");");
            reveal_strlit("});");
            reveal_strlit(")");
        }
        if result.len() > 0 && is_brace_only(trim(result.last())) {
            crate::text::lemma_trim_front(result.last(), t);
            assert forall|i: int| 0 <= i < r2.len() implies non_blank(#[trigger] r2[i]) by {
                if i < result.len() - 1 {
                    assert(r2[i] == result[i]);
                }
            }
        } else {
            assert forall|i: int| 0 <= i < r2.len() implies non_blank(#[trigger] r2[i]) by {
                if i < result.len() {
                    assert(r2[i] == result[i]);
                }
            }
        }
    } else {
        assert forall|i: int| 0 <= i < r2.len() implies non_blank(#[trigger] r2[i]) by {
            if i < result.len() {
                assert(r2[i] == result[i]);
            }
        }
    }
}

/// Line by line cleanup without run collapsing: a blank line becomes empty
/// and is dropped right after another blank line, a closing token is
/// replaced by its trim, every other line (comments included) is kept as
/// is. The flag tells whether the last line read was blank.
pub open spec fn line_by_line_cleanup(ls: Seq<Seq<char>>) -> (Seq<Seq<char>>, bool)
    decreases ls.len(),
{
    if ls.len() == 0 {
        (Seq::empty(), false)
    } else {
        let st = line_by_line_cleanup(ls.drop_last());
        let line = ls.last();
        let t = trim(line);
        if t.len() == 0 {
            (
                if st.1 {
                    st.0
                } else {
                    st.0.push(Seq::empty())
                },
                true,
            )
        } else if is_closer(t) {
            (st.0.push(t), false)
        } else {
            (st.0.push(line), false)
        }
    }
}

proof fn lemma_cleanup_fold_small(ls: Seq<Seq<char>>, total: nat)
    requires
        total <= 200,
    ensures
        cleanup_fold(ls, total).0 + cleanup_fold(ls, total).2 == line_by_line_cleanup(ls).0,
        cleanup_fold(ls, total).1 == line_by_line_cleanup(ls).1,
    decreases ls.len(),
{
    if ls.len() == 0 {
        assert(Seq::<Seq<char>>::empty() + Seq::<Seq<char>>::empty() =~= Seq::<Seq<char>>::empty());
    } else {
        lemma_cleanup_fold_small(ls.drop_last(), total);
        let st = cleanup_fold(ls.drop_last(), total);
        let line = ls.last();
        let t = trim(line);
        assert(flush_run(st.0, st.2, total) =~= st.0 + st.2);
        if t.len() == 0 {
            let o = st.0 + st.2;
            assert((if st.1 { o } else { o.push(Seq::empty()) }) + Seq::<Seq<char>>::empty() =~= (if st.1 { o } else {
                o.push(Seq::empty())
            }));
        } else if is_closer(t) {
            assert(st.0 + st.2.push(t) =~= (st.0 + st.2).push(t));
        } else {
            assert((st.0 + st.2).push(line) + Seq::<Seq<char>>::empty() =~= (st.0 + st.2).push(line));
        }
    }
}

/// Law of the light cleanup: on a text of at most 200 lines no run is
/// collapsed, and the cleanup is exactly [`line_by_line_cleanup`] of its
/// lines, joined with line feeds.
pub proof fn law_small_cleanup_is_line_by_line(content: Seq<char>)
    requires
        lines(content).len() <= 200,
    ensures
        cleanup_lines(content) == line_by_line_cleanup(lines(content)).0,
        lightweight_cleanup_spec(content) == join(line_by_line_cleanup(lines(content)).0, "\n"@),
{
    let ls = lines(content);
    lemma_cleanup_fold_small(ls, ls.len());
    let st = cleanup_fold(ls, ls.len());
    assert(flush_run(st.0, st.2, ls.len()) =~= st.0 + st.2);
}


/// A line that is not a `#` line comment (a `#!` line is no comment).
pub open spec fn not_hash_comment(l: Seq<char>) -> bool {
    !(starts_with(trim(l), "#"@) && !starts_with(trim(l), "#!"@))
}

proof fn lemma_starts_with_brace_char(l: Seq<char>)
    requires
        trim(l).len() > 0,
        is_brace_char(trim(l)[0]) || trim(l)[0] == '}' || trim(l)[0] == ')',
    ensures
        not_hash_comment(l),
{
    reveal_strlit("#");
    if starts_with(trim(l), "#"@) {
        assert(trim(l).subrange(0, 1)[0] == trim(l)[0]);
    }
}

proof fn lemma_brace_step_no_hash(result: Seq<Seq<char>>, line: Seq<char>)
    requires
        forall|i: int| 0 <= i < result.len() ==> not_hash_comment(#[trigger] result[i]),
        non_blank(line),
        not_hash_comment(line),
    ensures
        forall|i: int| 0 <= i < brace_step(result, line).len() ==> not_hash_comment(#[trigger] brace_step(result, line)[i]),
{
    let t = trim(line);
    let r2 = brace_step(result, line);
    if is_closer(t) {
        lemma_closer_trim(t);
        assert(t[0] == '}' || t[0] == ')') by {
            reveal_strlit("}");
            reveal_strlit("};");
            reveal_strlit(");");
            reveal_strlit("});");
            reveal_strlit(")");
        }
        lemma_starts_with_brace_char(t);
        if result.len() > 0 && is_brace_only(trim(result.last())) {
            let g = result.last() + t;
            crate::text::lemma_trim_front(result.last(), t);
            assert(is_brace_char(trim(result.last())[0]));
            lemma_starts_with_brace_char(g);
            assert forall|i: int| 0 <= i < r2.len() implies not_hash_comment(#[trigger] r2[i]) by {
                if i < result.len() - 1 {
                    assert(r2[i] == result[i]);
                } else {
                    assert(r2[i] == g);
                }
            }
        } else {
            assert forall|i: int| 0 <= i < r2.len() implies not_hash_comment(#[trigger] r2[i]) by {
                if i < result.len() {
                    assert(r2[i] == result[i]);
                }
            }
        }
    } else {
        assert forall|i: int| 0 <= i < r2.len() implies not_hash_comment(#[trigger] r2[i]) by {
            if i < result.len() {
                assert(r2[i] == result[i]);
            }
        }
    }
}

proof fn lemma_strip_fold_no_hash(ls: Seq<Seq<char>>, markup: bool, sql: bool)
    ensures
        forall|i: int|
            0 <= i < strip_fold(ls, true, markup, sql).0.len() ==> not_hash_comment(
                #[trigger] strip_fold(ls, true, markup, sql).0[i],
            ),
    decreases ls.len(),
{
    if ls.len() > 0 {
        lemma_strip_fold_no_hash(ls.drop_last(), markup, sql);
        let st = strip_fold(ls.drop_last(), true, markup, sql);
        let line = ls.last();
        let t = trim(line);
        if t.len() > 0 && !st.1 && !(starts_with(t, "/*"@) || (markup && starts_with(t, "<!--"@))) && !(
        starts_with(t, "//"@) && !starts_with(t, "///"@)) && !(starts_with(t, "#"@) && !starts_with(t, "#!"@)) && !(
        sql && starts_with(t, "--"@)) {
            lemma_brace_step_no_hash(st.0, line);
        }
    }
}

/// Law of comment stripping for `#`-comment languages (`py`, `sh`, `bash`,
/// `zsh`, `rb`, `yaml`, `toml`): no kept line is a `#` line comment (`#!`
/// lines stay).
pub proof fn law_hash_comments_are_stripped(content: Seq<char>, ext: Option<Seq<char>>)
    requires
        ext == Some("py"@) || ext == Some("sh"@) || ext == Some("bash"@) || ext == Some("zsh"@) || ext == Some("rb"@)
            || ext == Some("yaml"@) || ext == Some("toml"@),
    ensures
        aggressive_compress_spec(content, ext) == join(
            strip_fold(lines(content), is_hash_comment_ext(ext), is_markup_ext(ext), is_sql_ext(ext)).0,
            "\n"@,
        ),
        forall|i: int|
            0 <= i < strip_fold(lines(content), is_hash_comment_ext(ext), is_markup_ext(ext), is_sql_ext(ext)).0.len()
                ==> not_hash_comment(
                #[trigger] strip_fold(lines(content), is_hash_comment_ext(ext), is_markup_ext(ext), is_sql_ext(ext)).0[i],
            ),
{
    assert(is_hash_comment_ext(ext));
    lemma_strip_fold_no_hash(lines(content), is_markup_ext(ext), is_sql_ext(ext));
}

/// A line that is not a `--` line comment.
pub open spec fn not_sql_comment(l: Seq<char>) -> bool {
    !starts_with(trim(l), "--"@)
}

proof fn lemma_brace_char_not_sql(l: Seq<char>)
    requires
        trim(l).len() > 0,
        is_brace_char(trim(l)[0]) || trim(l)[0] == '}' || trim(l)[0] == ')',
    ensures
        not_sql_comment(l),
{
    reveal_strlit("--");
    if starts_with(trim(l), "--"@) {
        assert(trim(l).subrange(0, 1)[0] == trim(l)[0]);
    }
}

proof fn lemma_brace_step_no_sql(result: Seq<Seq<char>>, line: Seq<char>)
    requires
        forall|i: int| 0 <= i < result.len() ==> not_sql_comment(#[trigger] result[i]),
        non_blank(line),
        not_sql_comment(line),
    ensures
        forall|i: int| 0 <= i < brace_step(result, line).len() ==> not_sql_comment(#[trigger] brace_step(result, line)[i]),
{
    let t = trim(line);
    let r2 = brace_step(result, line);
    if is_closer(t) {
        lemma_closer_trim(t);
        assert(t[0] == '}' || t[0] == ')') by {
            reveal_strlit("}");
            reveal_strlit("};");
            reveal_strlit(");");
            reveal_strlit("});");
            reveal_strlit(")");
        }
        lemma_brace_char_not_sql(t);
        if result.len() > 0 && is_brace_only(trim(result.last())) {
            let g = result.last() + t;
            crate::text::lemma_trim_front(result.last(), t);
            assert(is_brace_char(trim(result.last())[0]));
            lemma_brace_char_not_sql(g);
            assert forall|i: int| 0 <= i < r2.len() implies not_sql_comment(#[trigger] r2[i]) by {
                if i < result.len() - 1 {
                    assert(r2[i] == result[i]);
                } else {
                    assert(r2[i] == g);
                }
            }
        } else {
            assert forall|i: int| 0 <= i < r2.len() implies not_sql_comment(#[trigger] r2[i]) by {
                if i < result.len() {
                    assert(r2[i] == result[i]);
                }
            }
        }
    } else {
        assert forall|i: int| 0 <= i < r2.len() implies not_sql_comment(#[trigger] r2[i]) by {
            if i < result.len() {
                assert(r2[i] == result[i]);
            }
        }
    }
}

proof fn lemma_strip_fold_no_sql(ls: Seq<Seq<char>>, hash: bool, markup: bool)
    ensures
        forall|i: int|
            0 <= i < strip_fold(ls, hash, markup, true).0.len() ==> not_sql_comment(
                #[trigger] strip_fold(ls, hash, markup, true).0[i],
            ),
    decreases ls.len(),
{
    if ls.len() > 0 {
        lemma_strip_fold_no_sql(ls.drop_last(), hash, markup);
        let st = strip_fold(ls.drop_last(), hash, markup, true);
        let line = ls.last();
        let t = trim(line);
        if t.len() > 0 && !st.1 && !(starts_with(t, "/*"@) || (markup && starts_with(t, "<!--"@))) && !(
        starts_with(t, "//"@) && !starts_with(t, "///"@)) && !(hash && starts_with(t, "#"@) && !starts_with(t, "#!"@))
            && !starts_with(t, "--"@) {
            lemma_brace_step_no_sql(st.0, line);
        }
    }
}

/// Law of comment stripping for SQL: no kept line is a `--` line comment.
pub proof fn law_sql_comments_are_stripped(content: Seq<char>)
    ensures
        forall|i: int|
            0 <= i < strip_fold(lines(content), is_hash_comment_ext(Some("sql"@)), is_markup_ext(Some("sql"@)), is_sql_ext(Some("sql"@))).0.len()
                ==> not_sql_comment(
                #[trigger] strip_fold(lines(content), is_hash_comment_ext(Some("sql"@)), is_markup_ext(Some("sql"@)), is_sql_ext(Some("sql"@))).0[i],
            ),
{
    assert(is_sql_ext(Some("sql"@)));
    lemma_strip_fold_no_sql(lines(content), is_hash_comment_ext(Some("sql"@)), is_markup_ext(Some("sql"@)));
}


/// Law of the comment styles and closers: `#` comments for `py`, `sh`,
/// `bash`, `zsh`, `rb`, `yaml`, `toml`; `<!-- -->` blocks for `html`, `htm`,
/// `xml`, `svg`; `--` comments for `sql`; and the closing tokens are `}`,
/// `};`, `);`, `});` and `)`.
pub proof fn law_comment_styles(ext: Option<Seq<char>>, t: Seq<char>)
    ensures
        is_hash_comment_ext(ext) <==> (ext == Some("py"@) || ext == Some("sh"@) || ext == Some("bash"@) || ext == Some(
            "zsh"@,
        ) || ext == Some("rb"@) || ext == Some("yaml"@) || ext == Some("toml"@)),
        is_markup_ext(ext) <==> (ext == Some("html"@) || ext == Some("htm"@) || ext == Some("xml"@) || ext == Some(
            "svg"@,
        )),
        is_sql_ext(ext) <==> ext == Some("sql"@),
        is_closer(t) <==> (t == "}"@ || t == "};"@ || t == ");"@ || t == "});"@ || t == ")"@),
{
}

} // verus!
