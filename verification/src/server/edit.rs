//! The surgical edit behind the `edit` and `replace` tools: the text to
//! replace must occur exactly once, and only that occurrence changes.
use vstd::prelude::*;
use crate::text::{occurs_at, find_from, lemma_find_from, to_chars, from_chars, append_chars, find_from_exec, join, decimal, decimal_exec, views};
use crate::pattern::{utf8_len, width_exec, lemma_utf8_len_mono};

verus! {

/// Why an edit was refused.
#[derive(Debug)]
pub enum EditRejection {
    /// The text to replace is empty.
    EmptyPattern,
    /// The text to replace does not occur.
    NotFound,
    /// The text to replace occurs more than once, at these byte offsets.
    Ambiguous(Vec<usize>),
}

/// The view of a refusal: a tag (0 empty, 1 not found, 2 ambiguous) and the
/// byte offsets of the occurrences.
pub open spec fn edit_rejection_view(e: EditRejection) -> (int, Seq<int>) {
    match e {
        EditRejection::EmptyPattern => (0, Seq::empty()),
        EditRejection::NotFound => (1, Seq::empty()),
        EditRejection::Ambiguous(v) => (2, v@.map_values(|b: usize| b as int)),
    }
}

/// The view of the outcome of an edit.
pub open spec fn edit_view(r: Result<String, EditRejection>) -> Result<Seq<char>, (int, Seq<int>)> {
    match r {
        Ok(s) => Ok(s@),
        Err(e) => Err(edit_rejection_view(e)),
    }
}

/// The starts of the occurrences of `p` in `s` from `i` on, left to right,
/// each search resuming after the previous occurrence (`str::match_indices`).
pub open spec fn match_starts(s: Seq<char>, p: Seq<char>, i: int) -> Seq<int>
    decreases s.len() + 1 - i,
{
    if p.len() == 0 || i < 0 {
        Seq::empty()
    } else {
        match find_from(s, p, i) {
            Some(k) => if i <= k && k + p.len() <= s.len() {
                seq![k] + match_starts(s, p, k + p.len())
            } else {
                Seq::empty()
            },
            None => Seq::empty(),
        }
    }
}

/// Character positions in `s` as UTF-8 byte offsets.
pub open spec fn byte_offsets(s: Seq<char>, ks: Seq<int>) -> Seq<int> {
    ks.map_values(|k: int| utf8_len(s.take(k)) as int)
}

/// Where `p` occurs in `s` (`str::match_indices`): for an empty `p`, at
/// every character boundary.
pub open spec fn occurrences(s: Seq<char>, p: Seq<char>) -> Seq<int> {
    if p.len() == 0 {
        Seq::new((s.len() + 1) as nat, |i: int| i)
    } else {
        match_starts(s, p, 0)
    }
}

/// The outcome of replacing the one occurrence of `p` in `s` by `new`
/// (`str::replacen(p, new, 1)`): refused when `p` does not occur (tag 1)
/// or occurs more than once (tag 2, with the byte offsets).
pub open spec fn replace_once(s: Seq<char>, p: Seq<char>, new: Seq<char>) -> Result<Seq<char>, (int, Seq<int>)> {
    let ms = occurrences(s, p);
    if ms.len() == 0 {
        Err((1, Seq::empty()))
    } else if ms.len() > 1 {
        Err((2, byte_offsets(s, ms)))
    } else {
        Ok(s.take(ms[0]) + new + s.skip(ms[0] + p.len()))
    }
}

/// The outcome of replacing `old` by `new` in `content`: refused when `old`
/// is empty (tag 0), absent or ambiguous; otherwise its one occurrence
/// replaced.
pub open spec fn surgical_edit(content: Seq<char>, old: Seq<char>, new: Seq<char>) -> Result<Seq<char>, (int, Seq<int>)> {
    if old.len() == 0 {
        Err((0, Seq::empty()))
    } else {
        replace_once(content, old, new)
    }
}

/// The refusal owed before any file is read: the text to replace may not be
/// empty.
pub fn require_old_string(old: &str) -> (r: Result<(), EditRejection>)
    ensures
        r is Ok <==> old@.len() > 0,
        r matches Err(e) ==> e is EmptyPattern,
{
    if old.is_empty() {
        Err(EditRejection::EmptyPattern)
    } else {
        Ok(())
    }
}

/// UTF-8 length of the first `k` characters of `s`.
fn prefix_bytes(s: &Vec<char>, k: usize) -> (b: usize)
    requires
        k <= s.len(),
        utf8_len(s@) <= usize::MAX,
    ensures
        b == utf8_len(s@.take(k as int)),
{
    let mut acc: usize = 0;
    let mut j: usize = 0;
    assert(s@.take(0) =~= Seq::<char>::empty());
    assert(s@.take(s.len() as int) =~= s@);
    while j < k
        invariant
            j <= k <= s.len(),
            utf8_len(s@) <= usize::MAX,
            s@.take(s.len() as int) == s@,
            acc == utf8_len(s@.take(j as int)),
        decreases k - j,
    {
        assert(s@.take(j + 1).drop_last() =~= s@.take(j as int));
        proof {
            lemma_utf8_len_mono(s@, j + 1, s.len() as int);
        }
        acc = acc + width_exec(s[j]);
        j += 1;
    }
    acc
}

/// Replaces the one occurrence of `marker` in `content` by `new`; refuses a
/// marker that does not occur or that occurs more than once (reporting the
/// byte offsets of its occurrences). An empty marker occurs at every
/// character boundary.
pub fn replace_once_exec(content: &str, marker: &str, new: &str) -> (r: Result<String, EditRejection>)
    ensures
        edit_view(r) == replace_once(content@, marker@, new@),
{
    let _total = crate::pattern::utf8_byte_len(content);
    let s = to_chars(content);
    let p = to_chars(marker);
    if p.len() == 0 {
        return replace_empty_marker(&s, new);
    }
    let mut starts: Vec<usize> = Vec::new();
    let mut from: usize = 0;
    let mut done = false;
    while !done
        invariant
            p@.len() > 0,
            from <= s.len(),
            done ==> match_starts(s@, p@, from as int) == Seq::<int>::empty(),
            match_starts(s@, p@, 0) == starts@.map_values(|k: usize| k as int) + match_starts(s@, p@, from as int),
            forall|j: int| 0 <= j < starts.len() ==> #[trigger] starts@[j] + p@.len() <= s.len(),
        decreases s.len() + 1 - from, if done { 0int } else { 1int },
    {
        proof {
            lemma_find_from(s@, p@, from as int);
        }
        match find_from_exec(&s, &p, from) {
            Some(k) => {
                let ghost before = starts@.map_values(|k: usize| k as int);
                starts.push(k);
                assert(starts@.map_values(|k: usize| k as int) =~= before + seq![k as int]);
                assert(match_starts(s@, p@, from as int) == seq![k as int] + match_starts(s@, p@, (k + p.len()) as int));
                from = k + p.len();
            },
            None => {
                done = true;
            },
        }
    }
    assert(starts@.map_values(|k: usize| k as int) + Seq::<int>::empty() =~= starts@.map_values(|k: usize| k as int));
    if starts.len() == 0 {
        return Err(EditRejection::NotFound);
    }
    if starts.len() > 1 {
        let mut offsets: Vec<usize> = Vec::new();
        let mut i: usize = 0;
        while i < starts.len()
            invariant
                i <= starts.len(),
                utf8_len(s@) <= usize::MAX,
                forall|j: int| 0 <= j < starts.len() ==> #[trigger] starts@[j] + p@.len() <= s.len(),
                offsets@.map_values(|b: usize| b as int) == byte_offsets(s@, starts@.map_values(|k: usize| k as int).take(i as int)),
            decreases starts.len() - i,
        {
            let b = prefix_bytes(&s, starts[i]);
            let ghost before = offsets@.map_values(|b: usize| b as int);
            offsets.push(b);
            assert(offsets@.map_values(|b: usize| b as int) =~= before.push(b as int));
            assert(byte_offsets(s@, starts@.map_values(|k: usize| k as int).take(i + 1)) =~= byte_offsets(
                s@,
                starts@.map_values(|k: usize| k as int).take(i as int),
            ).push(b as int));
            i += 1;
        }
        assert(starts@.map_values(|k: usize| k as int).take(starts.len() as int) =~= starts@.map_values(|k: usize| k as int));
        return Err(EditRejection::Ambiguous(offsets));
    }
    let k = starts[0];
    let mut out: Vec<char> = Vec::new();
    let mut i: usize = 0;
    while i < k
        invariant
            i <= k <= s.len(),
            out@ == s@.take(i as int),
        decreases k - i,
    {
        out.push(s[i]);
        assert(out@ =~= s@.take(i + 1));
        i += 1;
    }
    append_chars(&mut out, &to_chars(new));
    let mut j: usize = k + p.len();
    let ghost mid = out@;
    while j < s.len()
        invariant
            k + p.len() <= j <= s.len(),
            out@ == mid + s@.subrange(k + p.len(), j as int),
        decreases s.len() - j,
    {
        out.push(s[j]);
        assert(out@ =~= mid + s@.subrange(k + p.len(), j + 1));
        j += 1;
    }
    assert(s@.subrange(k + p.len(), s.len() as int) =~= s@.skip(k + p.len()));
    Ok(from_chars(&out))
}

/// Replaces the one occurrence of `old` in `content` by `new`; refuses an
/// empty `old`, an `old` that does not occur, and one that occurs more than
/// once (reporting the byte offsets of its occurrences).
pub fn plan_edit(content: &str, old: &str, new: &str) -> (r: Result<String, EditRejection>)
    ensures
        edit_view(r) == surgical_edit(content@, old@, new@),
{
    if old.is_empty() {
        return Err(EditRejection::EmptyPattern);
    }
    replace_once_exec(content, old, new)
}

/// An empty marker: it occurs once in an empty text, which becomes `new`;
/// in any other text it is ambiguous.
fn replace_empty_marker(s: &Vec<char>, new: &str) -> (r: Result<String, EditRejection>)
    requires
        utf8_len(s@) <= usize::MAX,
    ensures
        edit_view(r) == replace_once(s@, Seq::<char>::empty(), new@),
{
    let ghost ms = Seq::new((s@.len() + 1) as nat, |i: int| i);
    assert(occurrences(s@, Seq::<char>::empty()) == ms);
    if s.len() == 0 {
        assert(s@.take(0) + new@ + s@.skip(0) =~= new@);
        return Ok(from_chars(&to_chars(new)));
    }
    let mut offsets: Vec<usize> = Vec::new();
    let mut acc: usize = 0;
    let mut i: usize = 0;
    assert(s@.take(0) =~= Seq::<char>::empty());
    assert(s@.take(s.len() as int) =~= s@);
    while i < s.len()
        invariant
            i <= s.len(),
            s@.len() == s.len(),
            ms == Seq::new((s@.len() + 1) as nat, |i: int| i),
            utf8_len(s@) <= usize::MAX,
            s@.take(s.len() as int) == s@,
            acc == utf8_len(s@.take(i as int)),
            offsets@.map_values(|b: usize| b as int) == byte_offsets(s@, ms.take(i as int)),
        decreases s.len() - i,
    {
        let ghost before = offsets@.map_values(|b: usize| b as int);
        offsets.push(acc);
        assert(offsets@.map_values(|b: usize| b as int) =~= before.push(acc as int));
        assert(ms.take(i + 1) =~= ms.take(i as int).push(i as int));
        assert(byte_offsets(s@, ms.take(i + 1)) =~= byte_offsets(s@, ms.take(i as int)).push(acc as int));
        assert(s@.take(i + 1).drop_last() =~= s@.take(i as int));
        proof {
            lemma_utf8_len_mono(s@, i + 1, s.len() as int);
        }
        acc = acc + width_exec(s[i]);
        i += 1;
    }
    let ghost before = offsets@.map_values(|b: usize| b as int);
    offsets.push(acc);
    assert(offsets@.map_values(|b: usize| b as int) =~= before.push(acc as int));
    assert(ms.take(i + 1) =~= ms.take(i as int).push(i as int));
    assert(byte_offsets(s@, ms.take(i + 1)) =~= byte_offsets(s@, ms.take(i as int)).push(acc as int));
    assert(ms.take(s.len() + 1) =~= ms);
    Err(EditRejection::Ambiguous(offsets))
}

/// `format!("{:?}", offsets)` for a list of offsets.
pub open spec fn offsets_text(offsets: Seq<int>) -> Seq<char> {
    "["@ + join(offsets.map_values(|b: int| decimal(b as nat)), ", "@) + "]"@
}

impl EditRejection {
    /// The JSON-RPC error code of a refusal.
    pub fn code(&self) -> (c: i64)
        ensures
            c == (if *self is EmptyPattern { -32602i64 } else { -32001i64 }),
    {
        match self {
            EditRejection::EmptyPattern => -32602,
            _ => -32001,
        }
    }

    /// The message of a refusal.
    pub fn message(&self) -> (m: String)
        ensures
            m@ == match *self {
                EditRejection::EmptyPattern => "Parâmetro 'old_string' não pode ser vazio (Fail-Closed)"@,
                EditRejection::NotFound => "old_string não encontrada no arquivo (0 correspondências). Edição cancelada (Fail-Closed)."@,
                EditRejection::Ambiguous(v) => "old_string ambígua; encontrada "@ + decimal(v@.len()) + " vezes no arquivo nas posições "@
                    + offsets_text(v@.map_values(|b: usize| b as int)) + ". Edição cancelada (Fail-Closed)."@,
            },
    {
        match self {
            EditRejection::EmptyPattern => from_chars(&to_chars("Parâmetro 'old_string' não pode ser vazio (Fail-Closed)")),
            EditRejection::NotFound => from_chars(
                &to_chars("old_string não encontrada no arquivo (0 correspondências). Edição cancelada (Fail-Closed)."),
            ),
            EditRejection::Ambiguous(v) => {
                let mut m = to_chars("old_string ambígua; encontrada ");
                append_chars(&mut m, &decimal_exec(v.len() as u64));
                append_chars(&mut m, &to_chars(" vezes no arquivo nas posições "));
                append_chars(&mut m, &offsets_text_exec(v));
                append_chars(&mut m, &to_chars(". Edição cancelada (Fail-Closed)."));
                from_chars(&m)
            },
        }
    }

    /// The message of a refusal of the `stub_fill` tool on the file `path`.
    pub fn stub_fill_message(&self, path: &str) -> (m: String)
        ensures
            m@ == match *self {
                EditRejection::Ambiguous(v) => "Fail-Closed: stub_marker ambiguo em "@ + path@ + " ("@ + decimal(v@.len())
                    + " ocorrencias nas posicoes "@ + offsets_text(v@.map_values(|b: usize| b as int))
                    + "). Edicao cancelada."@,
                _ => "Fail-Closed: stub_marker nao encontrado em "@ + path@ + " (0 correspondencias). Edicao cancelada."@,
            },
    {
        match self {
            EditRejection::Ambiguous(v) => {
                let mut m = to_chars("Fail-Closed: stub_marker ambiguo em ");
                append_chars(&mut m, &to_chars(path));
                append_chars(&mut m, &to_chars(" ("));
                append_chars(&mut m, &decimal_exec(v.len() as u64));
                append_chars(&mut m, &to_chars(" ocorrencias nas posicoes "));
                append_chars(&mut m, &offsets_text_exec(v));
                append_chars(&mut m, &to_chars("). Edicao cancelada."));
                from_chars(&m)
            },
            _ => {
                let mut m = to_chars("Fail-Closed: stub_marker nao encontrado em ");
                append_chars(&mut m, &to_chars(path));
                append_chars(&mut m, &to_chars(" (0 correspondencias). Edicao cancelada."));
                from_chars(&m)
            },
        }
    }
}

/// `format!("{:?}", offsets)`, as characters.
fn offsets_text_exec(v: &Vec<usize>) -> (r: Vec<char>)
    ensures
        r@ == offsets_text(v@.map_values(|b: usize| b as int)),
{
    let mut parts: Vec<Vec<char>> = Vec::new();
    let mut i: usize = 0;
    while i < v.len()
        invariant
            i <= v.len(),
            views(parts@) == v@.map_values(|b: usize| b as int).take(i as int).map_values(|b: int| decimal(b as nat)),
        decreases v.len() - i,
    {
        let ghost before = views(parts@);
        let d = decimal_exec(v[i] as u64);
        parts.push(d);
        assert(views(parts@) =~= before.push(d@));
        assert(views(parts@) =~= v@.map_values(|b: usize| b as int).take(i + 1).map_values(|b: int| decimal(b as nat)));
        i += 1;
    }
    assert(v@.map_values(|b: usize| b as int).take(v.len() as int) =~= v@.map_values(|b: usize| b as int));
    let mut m = to_chars("[");
    append_chars(&mut m, &crate::text::join_exec(&parts, &to_chars(", ")));
    append_chars(&mut m, &to_chars("]"));
    m
}


/// Every start that [`match_starts`] reports is an occurrence.
proof fn lemma_match_starts_occur(s: Seq<char>, p: Seq<char>, i: int)
    ensures
        forall|j: int| 0 <= j < match_starts(s, p, i).len() ==> occurs_at(s, p, #[trigger] match_starts(s, p, i)[j]),
    decreases s.len() + 1 - i,
{
    if p.len() > 0 && i >= 0 {
        lemma_find_from(s, p, i);
        match find_from(s, p, i) {
            Some(k) => {
                if i <= k && k + p.len() <= s.len() {
                    lemma_match_starts_occur(s, p, k + p.len());
                    let rest = match_starts(s, p, k + p.len());
                    assert forall|j: int| 0 <= j < match_starts(s, p, i).len() implies occurs_at(
                        s,
                        p,
                        #[trigger] match_starts(s, p, i)[j],
                    ) by {
                        if j > 0 {
                            assert(match_starts(s, p, i)[j] == rest[j - 1]);
                        }
                    }
                }
            },
            None => {},
        }
    }
}

/// A successful edit can be undone: putting `old` back in place of the
/// inserted `new` gives the original text, character for character.
pub proof fn law_edit_can_be_undone(content: Seq<char>, old: Seq<char>, new: Seq<char>)
    requires
        surgical_edit(content, old, new) is Ok,
    ensures
        ({
            let k = occurrences(content, old)[0];
            let edited = surgical_edit(content, old, new)->Ok_0;
            edited.take(k) + old + edited.skip(k + new.len()) == content
        }),
{
    lemma_match_starts_occur(content, old, 0);
    let k = occurrences(content, old)[0];
    assert(occurs_at(content, old, k));
    let edited = content.take(k) + new + content.skip(k + old.len());
    assert(edited.take(k) =~= content.take(k));
    assert(edited.skip(k + new.len()) =~= content.skip(k + old.len()));
    assert(content.take(k) + old + content.skip(k + old.len()) =~= content);
}

} // verus!
