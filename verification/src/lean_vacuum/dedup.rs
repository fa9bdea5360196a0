//! Cross-file deduplication of 5-line blocks within a session: a block seen
//! before in another file is replaced by a marker naming where it was seen.
use vstd::prelude::*;
use dashmap::DashMap;
use rustc_hash::FxHasher;
use crate::host_cache::{
    session_cache_clear, session_cache_get, session_cache_insert, session_cache_is_empty, session_cache_new,
    session_entries, SessionView,
};
use crate::text::{
    append_chars, char_is_ws, decimal, decimal_exec, ends_with, ends_with_exec, from_chars, is_ws,
    join, join_exec, lemma_join_starts_with, lines, lines_exec, lines_state, opt_view, starts_with, strip_cr,
    to_chars, views,
};

verus! {

#[verifier::external_type_specification]
#[verifier::external_body]
pub struct ExFxHasher(FxHasher);

/// The strings written so far into an `FxHasher`, in order.
pub uninterp spec fn fx_written(h: FxHasher) -> Seq<Seq<char>>;

/// What `FxHasher::finish` returns after `items` were hashed, on a machine
/// whose pointers have `pointer_bits` bits.
pub uninterp spec fn fx_digest(items: Seq<Seq<char>>, pointer_bits: u32) -> u64;

/// `FxHasher::default`: a hasher into which nothing has been written.
#[verifier::external_body]
fn fx_new() -> (h: FxHasher)
    ensures
        fx_written(h) == Seq::<Seq<char>>::empty(),
{
    FxHasher::default()
}

/// `<str as Hash>::hash` into an `FxHasher`: records that `s` was written.
#[verifier::external_body]
fn fx_write_str(h: &mut FxHasher, s: &str)
    ensures
        fx_written(*final(h)) == fx_written(*old(h)).push(s@),
{
    std::hash::Hash::hash(s, h);
}

/// `FxHasher::finish`: the digest of everything written, for this machine's pointer width.
#[verifier::external_body]
fn fx_finish(h: &FxHasher) -> (r: u64)
    ensures
        r == fx_digest(fx_written(*h), usize::BITS),
{
    std::hash::Hasher::finish(h)
}

// ---------------------------------------------------------------------------
// Whitespace normalization
// ---------------------------------------------------------------------------

/// The scan behind `str::split_whitespace`: finished words and the current one.
pub open spec fn words_state(s: Seq<char>) -> (Seq<Seq<char>>, Seq<char>)
    decreases s.len(),
{
    if s.len() == 0 {
        (Seq::empty(), Seq::empty())
    } else {
        let st = words_state(s.drop_last());
        if is_ws(s.last()) {
            if st.1.len() > 0 {
                (st.0.push(st.1), Seq::empty())
            } else {
                (st.0, Seq::empty())
            }
        } else {
            (st.0, st.1.push(s.last()))
        }
    }
}

/// `str::split_whitespace`: the maximal runs of non-whitespace characters.
pub open spec fn words(s: Seq<char>) -> Seq<Seq<char>> {
    let st = words_state(s);
    if st.1.len() > 0 {
        st.0.push(st.1)
    } else {
        st.0
    }
}

/// A line with its words separated by single spaces.
pub open spec fn normalize_line_spec(s: Seq<char>) -> Seq<char> {
    join(words(s), " "@)
}

/// `line.split_whitespace().collect::<Vec<_>>().join(" ")`.
pub fn normalize_line(line: &Vec<char>) -> (r: Vec<char>)
    ensures
        r@ == normalize_line_spec(line@),
{
    let mut done: Vec<Vec<char>> = Vec::new();
    let mut cur: Vec<char> = Vec::new();
    let mut i: usize = 0;
    while i < line.len()
        invariant
            i <= line.len(),
            views(done@) == words_state(line@.take(i as int)).0,
            cur@ == words_state(line@.take(i as int)).1,
        decreases line.len() - i,
    {
        assert(line@.take(i + 1).drop_last() =~= line@.take(i as int));
        let c = line[i];
        if char_is_ws(c) {
            if cur.len() > 0 {
                let ghost before = views(done@);
                done.push(cur);
                assert(views(done@) =~= before.push(words_state(line@.take(i as int)).1));
            }
            cur = Vec::new();
        } else {
            cur.push(c);
        }
        i += 1;
    }
    assert(line@.take(line.len() as int) =~= line@);
    if cur.len() > 0 {
        let ghost before = views(done@);
        done.push(cur);
        assert(views(done@) =~= before.push(words_state(line@).1));
    }
    let sp = to_chars(" ");
    join_exec(&done, &sp)
}

// ---------------------------------------------------------------------------
// Block hashes
// ---------------------------------------------------------------------------

/// The normalized lines of the 5-line window of `ls` that starts at `i`.
pub open spec fn window(ls: Seq<Seq<char>>, i: int) -> Seq<Seq<char>> {
    ls.subrange(i, i + 5).map_values(|l: Seq<char>| normalize_line_spec(l))
}

/// The hash of the 5-line window of `ls` that starts at `i`.
pub open spec fn window_hash(ls: Seq<Seq<char>>, i: int) -> u64 {
    fx_digest(window(ls, i), usize::BITS)
}

/// Hashes the 5 lines that start at `start`, each normalized, with `FxHasher`.
fn hash_5_line_block(ls: &Vec<Vec<char>>, start: usize) -> (h: u64)
    requires
        start + 5 <= ls.len(),
    ensures
        h == window_hash(views(ls@), start as int),
{
    let ghost lv = views(ls@);
    let mut hasher = fx_new();
    let mut k: usize = 0;
    while k < 5
        invariant
            k <= 5,
            start + 5 <= ls.len(),
            lv == views(ls@),
            fx_written(hasher) =~= lv.subrange(start as int, start + k).map_values(
                |l: Seq<char>| normalize_line_spec(l),
            ),
        decreases 5 - k,
    {
        let norm = normalize_line(&ls[start + k]);
        let s = from_chars(&norm);
        fx_write_str(&mut hasher, s.as_str());
        k += 1;
    }
    fx_finish(&hasher)
}

// ---------------------------------------------------------------------------
// Deduplication
// ---------------------------------------------------------------------------

/// A path as printed in a marker, with `\` turned into `/`.
pub open spec fn forward_slashes(p: Seq<char>) -> Seq<char> {
    p.map_values(|c: char| if c == '\\' { '/' } else { c })
}

/// The line that stands for a hidden duplicate block.
pub open spec fn dedup_marker(path: Seq<char>, start: nat, end: nat) -> Seq<char> {
    "// [dedup: 5 lines hidden. Duplicate of "@ + forward_slashes(path) + " lines L"@ + decimal(
        start,
    ) + "-L"@ + decimal(end) + "]"@
}

/// Deduplication from line `i` on, with cache `cache`, for the file `cur`:
/// the output lines and the cache afterwards. A window whose hash is cached
/// for another file becomes one marker; a new window hash is recorded with
/// its 1-based line range.
pub open spec fn dedup_from(ls: Seq<Seq<char>>, i: int, cache: SessionView, cur: Seq<char>) -> (
    Seq<Seq<char>>,
    SessionView,
)
    decreases ls.len() - i,
{
    if i < 0 || i >= ls.len() {
        (Seq::empty(), cache)
    } else if i + 5 <= ls.len() {
        let h = window_hash(ls, i);
        if cache.contains_key(h) && cache[h].0 != cur {
            let e = cache[h];
            let rest = dedup_from(ls, i + 5, cache, cur);
            (seq![dedup_marker(e.0, e.1 as nat, e.2 as nat)] + rest.0, rest.1)
        } else if cache.contains_key(h) {
            let rest = dedup_from(ls, i + 1, cache, cur);
            (seq![ls[i]] + rest.0, rest.1)
        } else {
            let rest = dedup_from(
                ls,
                i + 1,
                cache.insert(h, (cur, (i + 1) as usize, (i + 5) as usize)),
                cur,
            );
            (seq![ls[i]] + rest.0, rest.1)
        }
    } else {
        let rest = dedup_from(ls, i + 1, cache, cur);
        (seq![ls[i]] + rest.0, rest.1)
    }
}

/// The file name used when no path is given.
pub open spec fn path_or_buffer(p: Option<Seq<char>>) -> Seq<char> {
    match p {
        Some(s) => s,
        None => "buffer"@,
    }
}

/// What [`deduplicate_blocks_session`] returns and leaves in the cache.
pub open spec fn dedup_session_spec(text: Seq<char>, cache: SessionView, cur: Seq<char>) -> (
    Seq<char>,
    SessionView,
) {
    let ls = lines(text);
    if ls.len() < 5 {
        (text, cache)
    } else {
        let r = dedup_from(ls, 0, cache, cur);
        let out = join(r.0, "\n"@);
        (
            if ends_with(text, "\n"@) && !ends_with(out, "\n"@) {
                out.push('\n')
            } else {
                out
            },
            r.1,
        )
    }
}

fn forward_slashes_exec(p: &Vec<char>) -> (r: Vec<char>)
    ensures
        r@ == forward_slashes(p@),
{
    let mut r: Vec<char> = Vec::new();
    let mut i: usize = 0;
    while i < p.len()
        invariant
            i <= p.len(),
            r@ =~= forward_slashes(p@.take(i as int)),
        decreases p.len() - i,
    {
        let c = p[i];
        r.push(if c == '\\' { '/' } else { c });
        i += 1;
    }
    assert(p@.take(p.len() as int) =~= p@);
    r
}

fn dedup_marker_exec(path: &Vec<char>, start: usize, end: usize) -> (r: Vec<char>)
    ensures
        r@ == dedup_marker(path@, start as nat, end as nat),
{
    let mut r = to_chars("// [dedup: 5 lines hidden. Duplicate of ");
    append_chars(&mut r, &forward_slashes_exec(path));
    append_chars(&mut r, &to_chars(" lines L"));
    append_chars(&mut r, &decimal_exec(start as u64));
    append_chars(&mut r, &to_chars("-L"));
    append_chars(&mut r, &decimal_exec(end as u64));
    append_chars(&mut r, &to_chars("]"));
    r
}

/// The cache only grows: every entry present before a scan is still there, unchanged.
pub proof fn lemma_dedup_keeps_entries(ls: Seq<Seq<char>>, i: int, cache: SessionView, cur: Seq<
    char,
>)
    ensures
        forall|k: u64| #[trigger]
            cache.contains_key(k) ==> dedup_from(ls, i, cache, cur).1.contains_key(k) && dedup_from(
                ls,
                i,
                cache,
                cur,
            ).1[k] == cache[k],
    decreases ls.len() - i,
{
    if i < 0 || i >= ls.len() {
    } else if i + 5 <= ls.len() {
        let h = window_hash(ls, i);
        if cache.contains_key(h) && cache[h].0 != cur {
            lemma_dedup_keeps_entries(ls, i + 5, cache, cur);
        } else if cache.contains_key(h) {
            lemma_dedup_keeps_entries(ls, i + 1, cache, cur);
        } else {
            let c2 = cache.insert(h, (cur, (i + 1) as usize, (i + 5) as usize));
            lemma_dedup_keeps_entries(ls, i + 1, c2, cur);
            assert forall|k: u64| #[trigger] cache.contains_key(k) implies c2.contains_key(k)
                && c2[k] == cache[k] by {
                assert(k != h);
            }
        }
    } else {
        lemma_dedup_keeps_entries(ls, i + 1, cache, cur);
    }
}

/// Law of the session cache: a text of at least 5 lines read first in file
/// `p1` and then in another file `p2` comes back, the second time, starting
/// with the marker that hides its first block as lines 1-5 of `p1`.
pub proof fn law_cross_file_duplicate_is_hidden(text: Seq<char>, p1: Seq<char>, p2: Seq<char>)
    requires
        lines(text).len() >= 5,
        p1 != p2,
    ensures
        starts_with(
            dedup_session_spec(text, dedup_session_spec(text, SessionView::empty(), p1).1, p2).0,
            dedup_marker(p1, 1, 5),
        ),
{
    let ls = lines(text);
    let h = window_hash(ls, 0);
    let c1 = SessionView::empty().insert(h, (p1, 1usize, 5usize));
    lemma_dedup_keeps_entries(ls, 1, c1, p1);
    let after_first = dedup_from(ls, 0, SessionView::empty(), p1).1;
    assert(after_first == dedup_from(ls, 1, c1, p1).1);
    assert(c1.contains_key(h));
    assert(after_first.contains_key(h) && after_first[h] == (p1, 1usize, 5usize));
    let second = dedup_from(ls, 0, after_first, p2);
    assert(second.0[0] == dedup_marker(p1, 1, 5));
    lemma_join_starts_with(second.0, "\n"@);
    let out = join(second.0, "\n"@);
    if ends_with(text, "\n"@) && !ends_with(out, "\n"@) {
        assert(out.push('\n').subrange(0, dedup_marker(p1, 1, 5).len() as int) =~= out.subrange(
            0,
            dedup_marker(p1, 1, 5).len() as int,
        ));
    }
}

/// Every block the cache records was first seen in file `cur`.
pub open spec fn all_from(cache: SessionView, cur: Seq<char>) -> bool {
    forall|k: u64| #[trigger] cache.contains_key(k) ==> cache[k].0 == cur
}

/// A scan over a cache that only records blocks of the current file keeps
/// every line and records only blocks of that file.
proof fn lemma_dedup_own_blocks(ls: Seq<Seq<char>>, i: int, cache: SessionView, cur: Seq<char>)
    requires
        0 <= i <= ls.len(),
        all_from(cache, cur),
    ensures
        dedup_from(ls, i, cache, cur).0 == ls.skip(i),
        all_from(dedup_from(ls, i, cache, cur).1, cur),
    decreases ls.len() - i,
{
    if i == ls.len() {
        assert(ls.skip(i) =~= Seq::<Seq<char>>::empty());
    } else {
        assert(seq![ls[i]] + ls.skip(i + 1) =~= ls.skip(i));
        if i + 5 <= ls.len() {
            let h = window_hash(ls, i);
            if cache.contains_key(h) {
                lemma_dedup_own_blocks(ls, i + 1, cache, cur);
            } else {
                let c2 = cache.insert(h, (cur, (i + 1) as usize, (i + 5) as usize));
                assert(all_from(c2, cur));
                lemma_dedup_own_blocks(ls, i + 1, c2, cur);
            }
        } else {
            lemma_dedup_own_blocks(ls, i + 1, cache, cur);
        }
    }
}

/// The text read so far by the line scan, rebuilt from the finished lines.
spec fn finished_text(done: Seq<Seq<char>>) -> Seq<char> {
    if done.len() == 0 {
        Seq::empty()
    } else {
        join(done, "\n"@) + "\n"@
    }
}

proof fn lemma_join_push(parts: Seq<Seq<char>>, x: Seq<char>)
    ensures
        finished_text(parts.push(x)) == finished_text(parts) + x + "\n"@,
{
    reveal_strlit("\n");
    assert(parts.push(x).drop_last() =~= parts);
    if parts.len() == 0 {
        assert(join(parts.push(x), "\n"@) == x);
        assert(finished_text(parts) + x + "\n"@ =~= x + "\n"@);
    } else {
        assert(join(parts.push(x), "\n"@) == join(parts, "\n"@) + "\n"@ + x);
        assert(finished_text(parts) + x + "\n"@ =~= join(parts, "\n"@) + "\n"@ + x + "\n"@);
    }
}

/// No carriage return stands right before a line feed.
spec fn no_crlf(s: Seq<char>) -> bool {
    forall|k: int| 0 <= k && k + 1 < s.len() ==> !(#[trigger] s[k] == '\r' && s[k + 1] == '\n')
}

proof fn lemma_no_crlf(s: Seq<char>)
    requires
        !crate::text::contains(s, "\r\n"@),
    ensures
        no_crlf(s),
{
    reveal_strlit("\r\n");
    crate::text::lemma_find_from(s, "\r\n"@, 0);
    assert forall|k: int| 0 <= k && k + 1 < s.len() implies !(#[trigger] s[k] == '\r' && s[k + 1] == '\n') by {
        if s[k] == '\r' && s[k + 1] == '\n' {
            assert(s.subrange(k, k + 2) =~= "\r\n"@);
            assert(crate::text::occurs_at(s, "\r\n"@, k));
        }
    }
}

/// Without a carriage return before a line feed, the line scan loses
/// nothing: the text is its finished lines, each followed by a line feed,
/// then the line being read.
proof fn lemma_lines_state_rebuild(s: Seq<char>)
    requires
        no_crlf(s),
    ensures
        s == finished_text(lines_state(s).0) + lines_state(s).1,
    decreases s.len(),
{
    reveal_strlit("\n");
    if s.len() > 0 {
        let s0 = s.drop_last();
        assert(no_crlf(s0)) by {
            assert forall|k: int| 0 <= k && k + 1 < s0.len() implies !(#[trigger] s0[k] == '\r' && s0[k + 1] == '\n') by {
                assert(s0[k] == s[k] && s0[k + 1] == s[k + 1]);
                if s[k] == '\r' && s[k + 1] == '\n' {
                }
            }
        }
        lemma_lines_state_rebuild(s0);
        let st0 = lines_state(s0);
        let c = s.last();
        assert(s =~= s0.push(c));
        if c == '\n' {
            if st0.1.len() > 0 {
                assert(st0.1.last() == s0[s0.len() - 1]);
                assert(s[s0.len() - 1] == s0[s0.len() - 1]);
                if s[s0.len() - 1] == '\r' {
                    assert(s[(s0.len() - 1) + 1] == '\n');
                }
            }
            assert(strip_cr(st0.1) == st0.1);
            lemma_join_push(st0.0, st0.1);
            assert(s =~= finished_text(st0.0) + st0.1 + "\n"@);
            assert(lines_state(s).1 =~= Seq::<char>::empty());
            assert(s =~= finished_text(lines_state(s).0) + lines_state(s).1);
        } else {
            assert(s =~= finished_text(st0.0) + st0.1.push(c));
        }
    }
}

/// Joining the lines of a text with no `\r\n` pair, and putting back
/// a final line feed the text had, gives the text back, unless it ends in
/// an empty line.
proof fn lemma_lines_join_back(text: Seq<char>)
    requires
        no_crlf(text),
        !ends_with(text, "\n\n"@),
        lines(text).len() > 0,
    ensures
        ({
            let out = join(lines(text), "\n"@);
            if ends_with(text, "\n"@) && !ends_with(out, "\n"@) {
                out.push('\n')
            } else {
                out
            }
        }) == text,
{
    reveal_strlit("\n");
    reveal_strlit("\n\n");
    lemma_lines_state_rebuild(text);
    let st = lines_state(text);
    let ls = lines(text);
    let out = join(ls, "\n"@);
    if st.1.len() > 0 {
        lemma_join_push(st.0, st.1);
        assert(ls == st.0.push(st.1));
        assert(out + "\n"@ =~= finished_text(st.0) + st.1 + "\n"@);
        assert(out =~= (out + "\n"@).drop_last());
        assert(out =~= text);
        if text.last() == '\n' {
            assert(lines_state(text).1 == Seq::<char>::empty());
        }
        assert(!ends_with(text, "\n"@)) by {
            if ends_with(text, "\n"@) {
                assert(text.subrange(text.len() - 1, text.len() as int)[0] == text.last());
            }
        }
    } else {
        assert(ls == st.0);
        assert(text =~= out + "\n"@);
        assert(ends_with(text, "\n"@)) by {
            assert(text.subrange(text.len() - 1, text.len() as int) =~= "\n"@);
        }
        if ends_with(out, "\n"@) {
            assert(out.subrange(out.len() - 1, out.len() as int)[0] == out[out.len() - 1]);
            assert(text.subrange(text.len() - 2, text.len() as int) =~= "\n\n"@);
        }
        assert(out.push('\n') =~= text);
    }
}

/// Law of the session cache: a file is never deduplicated against blocks it
/// registered itself. While every block the cache records comes from file
/// `cur` (an empty cache, as after clearing, included), a text read as `cur`
/// comes back unchanged when it has fewer than five lines, or when it holds
/// no `\r\n` line end and does not end in an empty line (on the others the
/// line split itself drops the `\r` or the last empty line); and the cache
/// still records only blocks of `cur`, so a second identical read gives the
/// text back again.
pub proof fn law_own_blocks_are_never_hidden(text: Seq<char>, cache: SessionView, cur: Seq<char>)
    requires
        all_from(cache, cur),
    ensures
        all_from(dedup_session_spec(text, cache, cur).1, cur),
        (lines(text).len() < 5 || (!crate::text::contains(text, "\r\n"@) && !ends_with(text, "\n\n"@)))
            ==> dedup_session_spec(text, cache, cur).0 == text,
{
    let ls = lines(text);
    if ls.len() >= 5 {
        lemma_dedup_own_blocks(ls, 0, cache, cur);
        assert(ls.skip(0) =~= ls);
        if !crate::text::contains(text, "\r\n"@) && !ends_with(text, "\n\n"@) {
            lemma_no_crlf(text);
            lemma_lines_join_back(text);
        }
    }
}

/// A scan over a cache that records only blocks of the current file
/// records every 5-line window it passes.
proof fn lemma_records_windows(ls: Seq<Seq<char>>, i: int, cache: SessionView, cur: Seq<char>)
    requires
        all_from(cache, cur),
        0 <= i,
    ensures
        forall|k: int|
            i <= k && k + 5 <= ls.len() ==> dedup_from(ls, i, cache, cur).1.contains_key(#[trigger] window_hash(ls, k)),
    decreases ls.len() - i,
{
    if i < ls.len() && i + 5 <= ls.len() {
        let h = window_hash(ls, i);
        if cache.contains_key(h) {
            lemma_records_windows(ls, i + 1, cache, cur);
            lemma_dedup_keeps_entries(ls, i + 1, cache, cur);
        } else {
            let c2 = cache.insert(h, (cur, (i + 1) as usize, (i + 5) as usize));
            assert(all_from(c2, cur));
            lemma_records_windows(ls, i + 1, c2, cur);
            lemma_dedup_keeps_entries(ls, i + 1, c2, cur);
            assert(c2.contains_key(h));
        }
    }
}

/// Law of the session cache: reading a text as file `p` records every one
/// of its 5-line windows (each sliding window, not only those at multiples
/// of five) under `p`, when the cache held only blocks of `p` before (an
/// empty cache included).
pub proof fn law_every_window_is_recorded(text: Seq<char>, cache: SessionView, p: Seq<char>)
    requires
        all_from(cache, p),
    ensures
        forall|k: int|
            0 <= k && k + 5 <= lines(text).len() ==> dedup_session_spec(text, cache, p).1.contains_key(
                #[trigger] window_hash(lines(text), k),
            ) && dedup_session_spec(text, cache, p).1[window_hash(lines(text), k)].0 == p,
{
    let ls = lines(text);
    if ls.len() >= 5 {
        lemma_records_windows(ls, 0, cache, p);
        lemma_dedup_own_blocks(ls, 0, cache, p);
    }
}

/// Law of the session cache: once a text was read as file `p1` (into an
/// empty cache), a text read as another file `p2` whose first five lines
/// equal, once normalised, any five consecutive lines of the first starts
/// with a marker naming `p1`.
pub proof fn law_shifted_duplicate_is_hidden(text: Seq<char>, other: Seq<char>, p1: Seq<char>, p2: Seq<char>, k: int)
    requires
        p1 != p2,
        0 <= k,
        k + 5 <= lines(text).len(),
        lines(other).len() >= 5,
        window(lines(other), 0) == window(lines(text), k),
    ensures
        exists|a: nat, b: nat|
            starts_with(
                dedup_session_spec(other, dedup_session_spec(text, SessionView::empty(), p1).1, p2).0,
                #[trigger] dedup_marker(p1, a, b),
            ),
{
    let c = dedup_session_spec(text, SessionView::empty(), p1).1;
    law_every_window_is_recorded(text, SessionView::empty(), p1);
    let h = window_hash(lines(text), k);
    assert(c.contains_key(h) && c[h].0 == p1);
    let lo = lines(other);
    assert(window_hash(lo, 0) == h);
    let e = c[h];
    let second = dedup_from(lo, 0, c, p2);
    let m = dedup_marker(e.0, e.1 as nat, e.2 as nat);
    assert(second.0[0] == m);
    lemma_join_starts_with(second.0, "\n"@);
    let out = join(second.0, "\n"@);
    if ends_with(other, "\n"@) && !ends_with(out, "\n"@) {
        assert(out.push('\n').subrange(0, m.len() as int) =~= out.subrange(0, m.len() as int));
    }
    assert(starts_with(dedup_session_spec(other, c, p2).0, dedup_marker(p1, e.1 as nat, e.2 as nat)));
}

/// A new, empty session deduplication cache.
pub fn new_session_cache() -> (m: DashMap<u64, (String, usize, usize)>)
    ensures
        session_entries(m) == SessionView::empty(),
{
    session_cache_new()
}

/// Whether the session deduplication cache holds no block.
pub fn is_session_cache_empty(cache: &DashMap<u64, (String, usize, usize)>) -> (b: bool)
    ensures
        b == (session_entries(*cache) == SessionView::empty()),
{
    session_cache_is_empty(cache)
}

/// Records that the block of hash `hash` was first seen in `file`, lines
/// `first` to `last`; other blocks keep their record.
pub fn remember_block(cache: &mut DashMap<u64, (String, usize, usize)>, hash: u64, file: String, first: usize, last: usize)
    ensures
        session_entries(*final(cache)) == session_entries(*old(cache)).insert(hash, (file@, first, last)),
{
    session_cache_insert(cache, hash, (file, first, last));
}

/// Empties the session deduplication cache.
pub fn clear_session_cache(cache: &mut DashMap<u64, (String, usize, usize)>)
    ensures
        session_entries(*final(cache)) == SessionView::empty(),
{
    session_cache_clear(cache);
}

/// Empties the session deduplication cache (alias of [`clear_session_cache`]).
pub fn clear_session_dedup_cache(cache: &mut DashMap<u64, (String, usize, usize)>)
    ensures
        session_entries(*final(cache)) == SessionView::empty(),
{
    clear_session_cache(cache);
}

/// Cross-file deduplication against the session cache. Texts of fewer than
/// 5 lines are returned as they are. Otherwise each 5-line window (lines
/// compared with their whitespace normalized) is looked up by hash: a window
/// first seen in another file is replaced by one marker line
/// `// [dedup: 5 lines hidden. Duplicate of <file> lines L<a>-L<b>]` and the
/// scan skips it; a window not seen before is recorded for this file. The
/// file is `file_path`, or `buffer` when none is given. A final newline of
/// the input is kept.
pub fn deduplicate_blocks_session(
    cache: &mut DashMap<u64, (String, usize, usize)>,
    text: &str,
    file_path: Option<&str>,
) -> (r: String)
    ensures
        (r@, session_entries(*final(cache))) == dedup_session_spec(
            text@,
            session_entries(*old(cache)),
            path_or_buffer(opt_view(file_path)),
        ),
{
    let tc = to_chars(text);
    let ls = lines_exec(&tc);
    let ghost lv = lines(text@);
    if ls.len() < 5 {
        return from_chars(&tc);
    }
    let current: String = match file_path {
        Some(p) => from_chars(&to_chars(p)),
        None => from_chars(&to_chars("buffer")),
    };
    let ghost cur = current@;
    let ghost c0 = session_entries(*cache);
    let mut result: Vec<Vec<char>> = Vec::new();
    let mut i: usize = 0;
    while i < ls.len()
        invariant
            i <= ls.len(),
            lv == views(ls@),
            cur == current@,
            dedup_from(lv, 0, c0, cur) == (
                views(result@) + dedup_from(lv, i as int, session_entries(*cache), cur).0,
                dedup_from(lv, i as int, session_entries(*cache), cur).1,
            ),
        decreases ls.len() - i,
    {
        let ghost cm = session_entries(*cache);
        let ghost before = views(result@);
        if ls.len() - i >= 5 {
            let h = hash_5_line_block(&ls, i);
            match session_cache_get(cache, h) {
                Some(entry) => {
                    if entry.0 != current {
                        let m = dedup_marker_exec(&to_chars(entry.0.as_str()), entry.1, entry.2);
                        result.push(m);
                        assert(views(result@) =~= before.push(m@));
                        assert(seq![m@] + dedup_from(lv, i + 5, cm, cur).0 =~= seq![m@]
                            + dedup_from(lv, i + 5, cm, cur).0);
                        assert(views(result@) + dedup_from(lv, i + 5, cm, cur).0 =~= before
                            + dedup_from(lv, i as int, cm, cur).0);
                        i += 5;
                        continue;
                    }
                },
                None => {
                    session_cache_insert(cache, h, (current.clone(), i + 1, i + 5));
                },
            }
        }
        let line = ls[i].clone();
        result.push(line);
        assert(views(result@) =~= before.push(lv[i as int]));
        assert(views(result@) + dedup_from(lv, i + 1, session_entries(*cache), cur).0 =~= before
            + dedup_from(lv, i as int, cm, cur).0);
        i += 1;
    }
    assert(views(result@) + dedup_from(lv, i as int, session_entries(*cache), cur).0 =~= views(
        result@,
    ));
    let nl = to_chars("\n");
    let mut out = join_exec(&result, &nl);
    if ends_with_exec(&tc, &nl) && !ends_with_exec(&out, &nl) {
        out.push('\n');
    }
    from_chars(&out)
}

/// [`deduplicate_blocks_session`] without a file path (the file is `buffer`).
pub fn deduplicate_blocks(cache: &mut DashMap<u64, (String, usize, usize)>, text: &str) -> (r:
    String)
    ensures
        (r@, session_entries(*final(cache))) == dedup_session_spec(
            text@,
            session_entries(*old(cache)),
            "buffer"@,
        ),
{
    deduplicate_blocks_session(cache, text, None)
}

} // verus!
