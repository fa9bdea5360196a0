//! Token-aware reading: shrink a text in stages until it fits a token budget.
use vstd::prelude::*;
use crate::text::{
    lines, join, views, trim, trim_end, starts_with, find, to_chars, from_chars, lines_exec, join_exec, trim_chars,
    trim_end_chars, starts_with_exec, find_from_exec, take_chars, append_chars, push_str_chars, decimal, decimal_exec,
};
use super::ansi_filter::{strip_ansi, strip_ansi_spec};
use super::text_compress::{lightweight_cleanup, lightweight_cleanup_spec};

verus! {

/// The number of `cl100k_base` tokens of `text`, or `None` when that
/// encoding is not compiled into `tiktoken`.
pub uninterp spec fn cl100k_tokens(text: Seq<char>) -> Option<usize>;

/// `tiktoken::get_encoding("cl100k_base")` and `CoreBpe::count` on `text`.
/// The contract claims only that the result is a function of the text.
#[verifier::external_body]
fn cl100k_count(text: &str) -> (r: Option<usize>)
    ensures
        r == cl100k_tokens(text@),
{
    match tiktoken::get_encoding("cl100k_base") {
        Some(enc) => Some(enc.count(text)),
        None => None,
    }
}

/// The token count used by smart reading: 0 for the empty text, else the
/// `cl100k_base` count, or a quarter of the UTF-8 length without it.
pub open spec fn token_count(text: Seq<char>) -> nat {
    if text.len() == 0 {
        0
    } else {
        match cl100k_tokens(text) {
            Some(n) => n as nat,
            None => ((vstd::utf8::encode_utf8(text).len() as usize) / 4) as nat,
        }
    }
}

/// The number of `cl100k_base` tokens of `text` (a quarter of its UTF-8
/// length when the encoding is unavailable; 0 when it is empty).
pub fn count_tokens(text: &str) -> (r: usize)
    ensures
        r == token_count(text@),
{
    if text.is_empty() {
        return 0;
    }
    match cl100k_count(text) {
        Some(n) => n,
        None => text.len() / 4,
    }
}

// ---------------------------------------------------------------------------
// Outline
// ---------------------------------------------------------------------------

/// The prefixes of the lines an outline keeps.
pub open spec fn outline_prefix(t: Seq<char>) -> bool {
    starts_with(t, "pub struct"@) || starts_with(t, "struct"@) || starts_with(t, "pub enum"@) || starts_with(
        t,
        "enum"@,
    ) || starts_with(t, "pub trait"@) || starts_with(t, "trait"@) || starts_with(t, "impl"@) || starts_with(
        t,
        "pub fn"@,
    ) || starts_with(t, "fn"@) || starts_with(t, "pub const"@) || starts_with(t, "pub type"@) || starts_with(
        t,
        "use "@,
    ) || starts_with(t, "mod "@)
}

/// A kept line: up to its first `{`, then ` { /* body omitted */ }`; the
/// whole line when it has no brace.
pub open spec fn outline_line(line: Seq<char>) -> Seq<char> {
    match find(line, seq!['{']) {
        Some(k) => trim_end(line.take(k)) + " { /* body omitted */ }"@,
        None => line,
    }
}

/// The outline lines of `ls`.
pub open spec fn outline_lines(ls: Seq<Seq<char>>) -> Seq<Seq<char>>
    decreases ls.len(),
{
    if ls.len() == 0 {
        Seq::empty()
    } else if outline_prefix(trim(ls.last())) {
        outline_lines(ls.drop_last()).push(outline_line(ls.last()))
    } else {
        outline_lines(ls.drop_last())
    }
}

/// What [`extract_outline_signatures`] returns.
pub open spec fn outline_signatures(code: Seq<char>) -> Seq<char> {
    let ls = lines(code);
    let out = outline_lines(ls);
    if out.len() == 0 {
        join(ls.take(if ls.len() < 50 { ls.len() as int } else { 50 }), seq!['\n'])
    } else {
        join(out, seq!['\n'])
    }
}

/// Declarations only: the lines that start (after indentation) with a
/// type, trait, impl, function, constant, type alias, `use` or `mod`, each
/// with its body replaced by `{ /* body omitted */ }`. With none, the
/// first 50 lines.
pub fn extract_outline_signatures(code: &str) -> (r: String)
    ensures
        r@ == outline_signatures(code@),
{
    let cs = to_chars(code);
    let ls = lines_exec(&cs);
    let mut pats: Vec<Vec<char>> = Vec::new();
    pats.push(to_chars("pub struct"));
    pats.push(to_chars("struct"));
    pats.push(to_chars("pub enum"));
    pats.push(to_chars("enum"));
    pats.push(to_chars("pub trait"));
    pats.push(to_chars("trait"));
    pats.push(to_chars("impl"));
    pats.push(to_chars("pub fn"));
    pats.push(to_chars("fn"));
    pats.push(to_chars("pub const"));
    pats.push(to_chars("pub type"));
    pats.push(to_chars("use "));
    pats.push(to_chars("mod "));
    proof {
        assert forall|t: Seq<char>|
            outline_prefix(t) == exists|k: int| 0 <= k < pats.len() && starts_with(t, #[trigger] pats@[k]@) by {
            if outline_prefix(t) {
                if starts_with(t, "pub struct"@) {
                    assert(starts_with(t, pats@[0]@));
                } else if starts_with(t, "struct"@) {
                    assert(starts_with(t, pats@[1]@));
                } else if starts_with(t, "pub enum"@) {
                    assert(starts_with(t, pats@[2]@));
                } else if starts_with(t, "enum"@) {
                    assert(starts_with(t, pats@[3]@));
                } else if starts_with(t, "pub trait"@) {
                    assert(starts_with(t, pats@[4]@));
                } else if starts_with(t, "trait"@) {
                    assert(starts_with(t, pats@[5]@));
                } else if starts_with(t, "impl"@) {
                    assert(starts_with(t, pats@[6]@));
                } else if starts_with(t, "pub fn"@) {
                    assert(starts_with(t, pats@[7]@));
                } else if starts_with(t, "fn"@) {
                    assert(starts_with(t, pats@[8]@));
                } else if starts_with(t, "pub const"@) {
                    assert(starts_with(t, pats@[9]@));
                } else if starts_with(t, "pub type"@) {
                    assert(starts_with(t, pats@[10]@));
                } else if starts_with(t, "use "@) {
                    assert(starts_with(t, pats@[11]@));
                } else {
                    assert(starts_with(t, pats@[12]@));
                }
            }
        }
    }
    let brace = vec!['{'];
    assert(brace@ == seq!['{']);
    let mut out: Vec<Vec<char>> = Vec::new();
    let mut i: usize = 0;
    while i < ls.len()
        invariant
            i <= ls.len(),
            views(ls@) == lines(code@),
            brace@ == seq!['{'],
            forall|t: Seq<char>|
                outline_prefix(t) == exists|k: int| 0 <= k < pats.len() && starts_with(t, #[trigger] pats@[k]@),
            views(out@) == outline_lines(views(ls@).take(i as int)),
        decreases ls.len() - i,
    {
        let line = &ls[i];
        proof {
            assert(views(ls@).take(i + 1).drop_last() =~= views(ls@).take(i as int));
            assert(views(ls@).take(i + 1).last() == line@);
        }
        let t = trim_chars(line);
        let mut keep = false;
        let mut k: usize = 0;
        while k < pats.len()
            invariant
                k <= pats.len(),
                keep == exists|q: int| 0 <= q < k && starts_with(t@, #[trigger] pats@[q]@),
            decreases pats.len() - k,
        {
            if starts_with_exec(&t, &pats[k]) {
                keep = true;
            }
            k += 1;
        }
        if keep {
            let ghost out0 = views(out@);
            proof {
                crate::text::lemma_find_from(line@, brace@, 0);
            }
            let entry = match find_from_exec(line, &brace, 0) {
                Some(idx) => {
                    let mut e = trim_end_chars(&take_chars(line, idx));
                    push_str_chars(&mut e, " { /* body omitted */ }");
                    e
                },
                None => line.clone(),
            };
            assert(entry@ =~= outline_line(line@));
            out.push(entry);
            assert(views(out@) =~= out0.push(entry@));
        }
        i += 1;
    }
    assert(views(ls@).take(ls.len() as int) =~= views(ls@));
    let nl = vec!['\n'];
    assert(nl@ == seq!['\n']);
    if out.len() == 0 {
        let n: usize = if ls.len() < 50 {
            ls.len()
        } else {
            50
        };
        let mut head: Vec<Vec<char>> = Vec::new();
        let mut k: usize = 0;
        while k < n
            invariant
                k <= n <= ls.len(),
                views(head@) == views(ls@).take(k as int),
            decreases n - k,
        {
            let ghost h0 = head@;
            let c = ls[k].clone();
            assert(c@ =~= ls@[k as int]@);
            head.push(c);
            assert(views(head@) =~= views(h0).push(ls@[k as int]@));
            assert(views(head@) =~= views(ls@).take(k + 1));
            k += 1;
        }
        from_chars(&join_exec(&head, &nl))
    } else {
        from_chars(&join_exec(&out, &nl))
    }
}

// ---------------------------------------------------------------------------
// Budget
// ---------------------------------------------------------------------------

/// The message of a text that does not fit even outlined.
pub open spec fn budget_exceeded_message(tokens: nat, budget: nat) -> Seq<char> {
    "Context Budget Exceeded: arquivo desidratado com "@ + decimal(tokens) + " tokens excede o limite estrito de "@
        + decimal(budget) + " tokens."@
}

/// The first stage that fits the budget, given the token counts of the
/// three stages: the text itself, the text with ANSI codes stripped and
/// blank lines and brace runs collapsed, and that text's outline; or the
/// error `-32010` with the outline's count.
pub open spec fn shrink_result(
    text: Seq<char>,
    budget: nat,
    initial: nat,
    cleaned: nat,
    outlined: nat,
) -> Result<Seq<char>, (i64, Seq<char>)> {
    let c = lightweight_cleanup_spec(strip_ansi_spec(text));
    if initial <= budget {
        Ok(text)
    } else if cleaned <= budget {
        Ok(c)
    } else if outlined <= budget {
        Ok(outline_signatures(c))
    } else {
        Err((-32010i64, budget_exceeded_message(outlined, budget)))
    }
}

/// The view of a smart-read result.
pub open spec fn shrink_view(r: Result<String, (i64, String)>) -> Result<Seq<char>, (i64, Seq<char>)> {
    match r {
        Ok(s) => Ok(s@),
        Err((c, m)) => Err((c, m@)),
    }
}

/// Smart reading given the token counts of its three stages (see
/// [`shrink_result`]): the text, its cleaned form and the cleaned form's
/// outline.
pub fn smart_read_with_counts(
    text: &str,
    max_tokens_budget: usize,
    initial: usize,
    cleaned_tokens: usize,
    outlined_tokens: usize,
) -> (r: Result<String, (i64, String)>)
    ensures
        shrink_view(r) == shrink_result(
            text@,
            max_tokens_budget as nat,
            initial as nat,
            cleaned_tokens as nat,
            outlined_tokens as nat,
        ),
{
    if initial <= max_tokens_budget {
        return Ok(text.to_owned());
    }
    let cleaned = lightweight_cleanup(strip_ansi(text).as_str());
    if cleaned_tokens <= max_tokens_budget {
        return Ok(cleaned);
    }
    let outlined = extract_outline_signatures(cleaned.as_str());
    if outlined_tokens <= max_tokens_budget {
        return Ok(outlined);
    }
    let mut msg = to_chars("Context Budget Exceeded: arquivo desidratado com ");
    append_chars(&mut msg, &decimal_exec(outlined_tokens as u64));
    push_str_chars(&mut msg, " tokens excede o limite estrito de ");
    append_chars(&mut msg, &decimal_exec(max_tokens_budget as u64));
    push_str_chars(&mut msg, " tokens.");
    Err((-32010, from_chars(&msg)))
}

/// Shrinks `text` to fit `max_tokens_budget` tokens: the text as it is if
/// it fits; else with ANSI codes stripped and blank lines and brace runs
/// collapsed; else that text's outline; else the error `-32010`.
pub fn smart_read_text(text: &str, max_tokens_budget: usize) -> (r: Result<String, (i64, String)>)
    ensures
        shrink_view(r) == shrink_result(
            text@,
            max_tokens_budget as nat,
            token_count(text@),
            token_count(lightweight_cleanup_spec(strip_ansi_spec(text@))),
            token_count(outline_signatures(lightweight_cleanup_spec(strip_ansi_spec(text@)))),
        ),
{
    let initial = count_tokens(text);
    let cleaned = lightweight_cleanup(strip_ansi(text).as_str());
    let cleaned_tokens = count_tokens(cleaned.as_str());
    let outlined = extract_outline_signatures(cleaned.as_str());
    let outlined_tokens = count_tokens(outlined.as_str());
    smart_read_with_counts(text, max_tokens_budget, initial, cleaned_tokens, outlined_tokens)
}


/// What smart reading returns fits the budget: whenever it answers with a
/// text, that text counts at most `max_tokens_budget` tokens.
pub proof fn law_smart_read_fits_budget(text: Seq<char>, max_tokens_budget: nat)
    ensures
        ({
            let c = lightweight_cleanup_spec(strip_ansi_spec(text));
            let o = outline_signatures(c);
            match shrink_result(text, max_tokens_budget, token_count(text), token_count(c), token_count(o)) {
                Ok(s) => token_count(s) <= max_tokens_budget,
                Err(e) => e.0 == -32010 && token_count(o) > max_tokens_budget,
            }
        }),
{
}


/// A trimmed line that opens a declaration a reader of an outline expects:
/// a struct, enum, trait, impl, function, public constant or type alias, a
/// `use` or a `mod`.
pub open spec fn starts_declaration(t: Seq<char>) -> bool {
    starts_with(t, "pub struct"@) || starts_with(t, "struct"@) || starts_with(t, "pub enum"@) || starts_with(t, "enum"@)
        || starts_with(t, "pub trait"@) || starts_with(t, "trait"@) || starts_with(t, "impl"@) || starts_with(t, "pub fn"@)
        || starts_with(t, "fn"@) || starts_with(t, "pub const"@) || starts_with(t, "pub type"@) || starts_with(t, "use "@)
        || starts_with(t, "mod "@)
}

proof fn lemma_outline_take_step(ls: Seq<Seq<char>>, m: int)
    requires
        0 <= m < ls.len(),
    ensures
        outline_lines(ls.take(m + 1)) == if outline_prefix(trim(ls[m])) {
            outline_lines(ls.take(m)).push(outline_line(ls[m]))
        } else {
            outline_lines(ls.take(m))
        },
{
    assert(ls.take(m + 1).drop_last() =~= ls.take(m));
    assert(ls.take(m + 1).last() == ls[m]);
}

proof fn lemma_outline_prefix_of(ls: Seq<Seq<char>>, m: int)
    requires
        0 <= m <= ls.len(),
    ensures
        outline_lines(ls.take(m)).len() <= outline_lines(ls).len(),
        forall|j: int|
            0 <= j < outline_lines(ls.take(m)).len() ==> #[trigger] outline_lines(ls.take(m))[j] == outline_lines(ls)[j],
    decreases ls.len() - m,
{
    if m == ls.len() {
        assert(ls.take(m) =~= ls);
    } else {
        lemma_outline_take_step(ls, m);
        lemma_outline_prefix_of(ls, m + 1);
        let a = outline_lines(ls.take(m));
        let b = outline_lines(ls.take(m + 1));
        assert forall|j: int| 0 <= j < a.len() implies #[trigger] a[j] == outline_lines(ls)[j] by {
            assert(b[j] == a[j]);
            assert(b[j] == outline_lines(ls)[j]);
        }
    }
}

/// The `i`-th line, when it opens a declaration, sits in the outline at the
/// position given by the declarations before it.
proof fn lemma_outline_position(ls: Seq<Seq<char>>, i: int)
    requires
        0 <= i < ls.len(),
        starts_declaration(trim(ls[i])),
    ensures
        outline_lines(ls.take(i)).len() < outline_lines(ls).len(),
        outline_lines(ls)[outline_lines(ls.take(i)).len() as int] == outline_line(ls[i]),
        forall|m: int| i < m <= ls.len() ==> outline_lines(ls.take(i)).len() < #[trigger] outline_lines(ls.take(m)).len(),
{
    assert(outline_prefix(trim(ls[i])));
    lemma_outline_take_step(ls, i);
    lemma_outline_prefix_of(ls, i + 1);
    let a: int = outline_lines(ls.take(i)).len() as int;
    assert(outline_lines(ls.take(i + 1))[a] == outline_line(ls[i]));
    assert forall|m: int| i < m <= ls.len() implies outline_lines(ls.take(i)).len() < #[trigger] outline_lines(
        ls.take(m),
    ).len() by {
        let lm = ls.take(m);
        lemma_outline_prefix_of(lm, i + 1);
        assert(lm.take(i + 1) =~= ls.take(i + 1));
    }
}

/// Law of the outline: every line that opens a declaration (`pub struct`,
/// `struct`, `pub enum`, `enum`, `pub trait`, `trait`, `impl`, `pub fn`,
/// `fn`, `pub const`, `pub type`, `use `, `mod `) is in the outline, its
/// body replaced by `{ /* body omitted */ }`, and these lines keep their
/// order; when the code has one, the outline is exactly these lines.
pub proof fn law_outline_keeps_every_declaration(code: Seq<char>)
    ensures
        forall|i: int|
            0 <= i < lines(code).len() && #[trigger] starts_declaration(trim(lines(code)[i])) ==> outline_lines(
                lines(code),
            ).contains(outline_line(lines(code)[i])),
        forall|i: int, j: int|
            0 <= i < j < lines(code).len() && #[trigger] starts_declaration(trim(lines(code)[i]))
                && #[trigger] starts_declaration(trim(lines(code)[j])) ==> exists|a: int, b: int|
                0 <= a < b < outline_lines(lines(code)).len() && #[trigger] outline_lines(lines(code))[a] == outline_line(
                    lines(code)[i],
                ) && #[trigger] outline_lines(lines(code))[b] == outline_line(lines(code)[j]),
        (exists|i: int| 0 <= i < lines(code).len() && #[trigger] starts_declaration(trim(lines(code)[i])))
            ==> outline_signatures(code) == join(outline_lines(lines(code)), seq!['\n']),
{
    let ls = lines(code);
    let out = outline_lines(ls);
    assert forall|i: int| 0 <= i < ls.len() && #[trigger] starts_declaration(trim(ls[i])) implies out.contains(
        outline_line(ls[i]),
    ) by {
        lemma_outline_position(ls, i);
    }
    assert forall|i: int, j: int|
        0 <= i < j < ls.len() && #[trigger] starts_declaration(trim(ls[i])) && #[trigger] starts_declaration(trim(ls[j]))
            implies exists|a: int, b: int|
        0 <= a < b < out.len() && #[trigger] out[a] == outline_line(ls[i]) && #[trigger] out[b] == outline_line(ls[j]) by {
        lemma_outline_position(ls, i);
        lemma_outline_position(ls, j);
        let a: int = outline_lines(ls.take(i)).len() as int;
        let b: int = outline_lines(ls.take(j)).len() as int;
        assert(a < b);
        assert(out[a] == outline_line(ls[i]) && out[b] == outline_line(ls[j]));
    }
    if exists|i: int| 0 <= i < ls.len() && #[trigger] starts_declaration(trim(ls[i])) {
        let i = choose|i: int| 0 <= i < ls.len() && #[trigger] starts_declaration(trim(ls[i]));
        lemma_outline_position(ls, i);
    }
}

} // verus!
