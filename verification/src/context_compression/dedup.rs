//! Reversible CCR compression: a text of more than 5 lines is stored in the
//! host-RAM cache under its hash and replaced by a marker; rehydration puts
//! the stored text back in place of every marker it can resolve.
use vstd::prelude::*;
use std::collections::hash_map::DefaultHasher;
use std::hash::Hasher;
use vstd::std_specs::hash::DefaultHasherAdditionalSpecFns;
use vstd::string::StringSliceAdditionalSpecFns;
use dashmap::DashMap;
use crate::host_cache::{
    ccr_cache_clear, ccr_cache_get, ccr_cache_insert, ccr_cache_new, ccr_entries, CcrView,
};
use crate::text::{
    append_chars, decimal, decimal_exec, find_from, find_from_exec, from_chars, hex, hex_exec,
    hex_value, is_ascii_digit, lines, lines_exec, occurs_at, parse_hex_u64, parse_hex_u64_exec,
    to_chars,
};

verus! {

/// Start of a CCR marker.
pub const MARKER_PREFIX: &'static str = "[SOULS CCR: ";

/// Middle of a CCR marker, between the line count and the hash.
pub const MARKER_MID: &'static str = " linhas comprimidas. Para recuperar os dados integrais brutos, invoque a ferramenta headroom_retrieve(hash=\"";

/// End of a CCR marker.
pub const MARKER_SUFFIX: &'static str = "\")]";

/// Start of a marker of the older deduplication format.
pub const LEGACY_PREFIX: &'static str = "[SOULS-DEDUP: Block Hash 0x";

/// End of a marker of the older deduplication format.
pub const LEGACY_SUFFIX: &'static str = ". Use souls_fill para resgatar se necessário]";

/// The hash that [`hash_text`] computes for `text`: `DefaultHasher` over its UTF-8 bytes.
pub open spec fn text_hash(text: &str) -> u64 {
    DefaultHasher::spec_finish(seq![text.spec_bytes()])
}

/// The `DefaultHasher` hash of the UTF-8 bytes of `text`.
pub fn hash_text(text: &str) -> (h: u64)
    ensures
        h == text_hash(text),
{
    let mut hasher = DefaultHasher::new();
    hasher.write(text.as_bytes());
    let h = hasher.finish();
    assert(hasher@ =~= seq![text.spec_bytes()]);
    h
}

/// The CCR marker for a text of `lines_count` lines stored under `hash_hex`.
pub open spec fn ccr_marker(lines_count: nat, hash_hex: Seq<char>) -> Seq<char> {
    MARKER_PREFIX@ + decimal(lines_count) + MARKER_MID@ + hash_hex + MARKER_SUFFIX@
}

/// Formats the CCR recovery marker.
pub fn ccr_marker_for(lines_count: usize, hash_hex: &str) -> (r: String)
    ensures
        r@ == ccr_marker(lines_count as nat, hash_hex@),
{
    let mut m = to_chars(MARKER_PREFIX);
    append_chars(&mut m, &decimal_exec(lines_count as u64));
    append_chars(&mut m, &to_chars(MARKER_MID));
    append_chars(&mut m, &to_chars(hash_hex));
    append_chars(&mut m, &to_chars(MARKER_SUFFIX));
    from_chars(&m)
}

/// Empties the CCR cache.
pub fn clear_ccr_cache(cache: &mut DashMap<u64, String>)
    ensures
        ccr_entries(*final(cache)) == CcrView::empty(),
{
    ccr_cache_clear(cache);
}

/// What [`compress`] returns for `text`.
pub open spec fn compress_spec(text: &str) -> Seq<char> {
    if lines(text@).len() <= 5 {
        text@
    } else {
        ccr_marker(lines(text@).len(), hex(text_hash(text) as nat))
    }
}

/// What [`compress`] leaves in the cache.
pub open spec fn compress_cache_spec(text: &str, cache: CcrView) -> CcrView {
    if lines(text@).len() <= 5 {
        cache
    } else {
        cache.insert(text_hash(text), text@)
    }
}

/// Texts of at most 5 lines are returned as they are. A longer text is stored
/// in the cache under its [`hash_text`] and replaced by its marker, which
/// gives its line count and the hash in lowercase hex.
pub fn compress(cache: &mut DashMap<u64, String>, text: &str) -> (r: String)
    ensures
        r@ == compress_spec(text),
        ccr_entries(*final(cache)) == compress_cache_spec(text, ccr_entries(*old(cache))),
{
    let chars = to_chars(text);
    let ls = lines_exec(&chars);
    if ls.len() <= 5 {
        return from_chars(&chars);
    }
    let h = hash_text(text);
    let hh = from_chars(&hex_exec(h));
    ccr_cache_insert(cache, h, from_chars(&chars));
    ccr_marker_for(ls.len(), hh.as_str())
}

// ---------------------------------------------------------------------------
// Rehydration
// ---------------------------------------------------------------------------

/// The stored text for `h`: from the CCR cache, else from the fallback store.
pub open spec fn lookup(primary: CcrView, fallback: CcrView, h: u64) -> Option<Seq<char>> {
    if primary.contains_key(h) {
        Some(primary[h])
    } else if fallback.contains_key(h) {
        Some(fallback[h])
    } else {
        None
    }
}

/// Resolves the CCR marker that starts at `abs`: the index just past its end
/// and the stored text, when the marker's hash parses and is stored.
pub open spec fn expand_marker(s: Seq<char>, abs: int, primary: CcrView, fallback: CcrView) -> Option<
    (int, Seq<char>),
> {
    match find_from(s, "hash=\""@, abs) {
        None => None,
        Some(hp) => {
            let hs = hp + 6;
            match find_from(s, seq!['"'], hs) {
                None => None,
                Some(he) => match parse_hex_u64(s.subrange(hs, he)) {
                    None => None,
                    Some(h) => match lookup(primary, fallback, h) {
                        None => None,
                        Some(orig) => match find_from(s, MARKER_SUFFIX@, abs) {
                            None => None,
                            Some(mr) => Some((mr + 3, orig)),
                        },
                    },
                },
            }
        },
    }
}

/// Resolves the legacy marker that starts at `abs`: 16 hex digits right after
/// its prefix, looked up, and its suffix searched from `abs`.
pub open spec fn expand_legacy(s: Seq<char>, abs: int, primary: CcrView, fallback: CcrView) -> Option<
    (int, Seq<char>),
> {
    let hs = abs + 27;
    if hs + 16 > s.len() {
        None
    } else {
        match parse_hex_u64(s.subrange(hs, hs + 16)) {
            None => None,
            Some(h) => match lookup(primary, fallback, h) {
                None => None,
                Some(orig) => match find_from(s, LEGACY_SUFFIX@, abs) {
                    None => None,
                    Some(sr) => Some((sr + LEGACY_SUFFIX@.len(), orig)),
                },
            },
        }
    }
}

pub proof fn lemma_find_bounds(s: Seq<char>, p: Seq<char>, i: int)
    requires
        0 <= i,
    ensures
        find_from(s, p, i) matches Some(k) ==> i <= k && k + p.len() <= s.len(),
{
    crate::text::lemma_find_from(s, p, i);
}

/// The marker-resolving pass from `cursor` on: each marker found is replaced
/// by its stored text and the search resumes right after that text; a marker
/// that does not resolve is stepped over.
pub open spec fn ccr_pass(s: Seq<char>, cursor: int, primary: CcrView, fallback: CcrView) -> Seq<
    char,
>
    decreases s.len() - cursor, 1int,
{
    if cursor < 0 || cursor > s.len() {
        s
    } else {
        match find_from(s, MARKER_PREFIX@, cursor) {
            None => s,
            Some(abs) => ccr_step(s, cursor, abs, primary, fallback),
        }
    }
}

/// One step of [`ccr_pass`], at a marker prefix found at `abs`.
pub open spec fn ccr_step(
    s: Seq<char>,
    cursor: int,
    abs: int,
    primary: CcrView,
    fallback: CcrView,
) -> Seq<char>
    decreases s.len() - cursor, 0int,
{
    if abs < cursor || cursor < 0 || cursor > s.len() || find_from(s, MARKER_PREFIX@, cursor) != Some(abs) {
        s
    } else {
        proof {
            lemma_find_bounds(s, MARKER_PREFIX@, cursor);
            lemma_find_bounds(s, MARKER_SUFFIX@, abs);
            reveal_strlit("[SOULS CCR: ");
            assert(MARKER_PREFIX@.len() == 12);
        }
        match expand_marker(s, abs, primary, fallback) {
            Some((me, orig)) => {
                if me <= s.len() && abs < me {
                    ccr_pass(s.take(abs) + orig + s.skip(me), abs + orig.len(), primary, fallback)
                } else {
                    s
                }
            },
            None => ccr_pass(s, abs + MARKER_PREFIX@.len(), primary, fallback),
        }
    }
}


/// The legacy-marker pass from `cursor` on, like [`ccr_pass`].
pub open spec fn legacy_pass(s: Seq<char>, cursor: int, primary: CcrView, fallback: CcrView) -> Seq<
    char,
>
    decreases s.len() - cursor, 1int,
{
    if cursor < 0 || cursor > s.len() {
        s
    } else {
        match find_from(s, LEGACY_PREFIX@, cursor) {
            None => s,
            Some(abs) => legacy_step(s, cursor, abs, primary, fallback),
        }
    }
}

/// One step of [`legacy_pass`], at a legacy prefix found at `abs`.
pub open spec fn legacy_step(
    s: Seq<char>,
    cursor: int,
    abs: int,
    primary: CcrView,
    fallback: CcrView,
) -> Seq<char>
    decreases s.len() - cursor, 0int,
{
    if abs < cursor || cursor < 0 || cursor > s.len() || find_from(s, LEGACY_PREFIX@, cursor) != Some(abs) {
        s
    } else {
        proof {
            lemma_find_bounds(s, LEGACY_PREFIX@, cursor);
            lemma_find_bounds(s, LEGACY_SUFFIX@, abs);
            reveal_strlit("[SOULS-DEDUP: Block Hash 0x");
            assert(LEGACY_PREFIX@.len() == 27);
        }
        match expand_legacy(s, abs, primary, fallback) {
            Some((me, orig)) => {
                if me <= s.len() && abs < me {
                    legacy_pass(s.take(abs) + orig + s.skip(me), abs + orig.len(), primary, fallback)
                } else {
                    s
                }
            },
            None => legacy_pass(s, abs + LEGACY_PREFIX@.len(), primary, fallback),
        }
    }
}

/// What [`rehydrate_ccr`] returns: CCR markers resolved first, then legacy ones.
pub open spec fn rehydrate_spec(text: Seq<char>, primary: CcrView, fallback: CcrView) -> Seq<char> {
    legacy_pass(ccr_pass(text, 0, primary, fallback), 0, primary, fallback)
}

fn lookup_exec(primary: &DashMap<u64, String>, fallback: &DashMap<u64, String>, h: u64) -> (r:
    Option<Vec<char>>)
    ensures
        match r {
            Some(v) => lookup(ccr_entries(*primary), ccr_entries(*fallback), h) == Some(v@),
            None => lookup(ccr_entries(*primary), ccr_entries(*fallback), h) is None,
        },
{
    match ccr_cache_get(primary, h) {
        Some(v) => Some(to_chars(v.as_str())),
        None => match ccr_cache_get(fallback, h) {
            Some(v) => Some(to_chars(v.as_str())),
            None => None,
        },
    }
}

fn subrange_exec(s: &Vec<char>, a: usize, b: usize) -> (r: Vec<char>)
    requires
        a <= b <= s.len(),
    ensures
        r@ == s@.subrange(a as int, b as int),
{
    let mut r: Vec<char> = Vec::new();
    let mut k = a;
    while k < b
        invariant
            a <= k <= b <= s.len(),
            r@ =~= s@.subrange(a as int, k as int),
        decreases b - k,
    {
        r.push(s[k]);
        k += 1;
    }
    r
}

/// `s[..a] + mid + s[b..]`.
fn splice_exec(s: &Vec<char>, a: usize, b: usize, mid: &Vec<char>) -> (r: Vec<char>)
    requires
        a <= b <= s.len(),
    ensures
        r@ == s@.take(a as int) + mid@ + s@.skip(b as int),
{
    let mut r = subrange_exec(s, 0, a);
    append_chars(&mut r, mid);
    let tail = subrange_exec(s, b, s.len());
    append_chars(&mut r, &tail);
    assert(s@.subrange(0, a as int) =~= s@.take(a as int));
    assert(s@.subrange(b as int, s.len() as int) =~= s@.skip(b as int));
    r
}

fn expand_marker_exec(
    s: &Vec<char>,
    abs: usize,
    primary: &DashMap<u64, String>,
    fallback: &DashMap<u64, String>,
) -> (r: Option<(usize, Vec<char>)>)
    ensures
        match r {
            Some((me, orig)) => expand_marker(
                s@,
                abs as int,
                ccr_entries(*primary),
                ccr_entries(*fallback),
            ) == Some((me as int, orig@)),
            None => expand_marker(s@, abs as int, ccr_entries(*primary), ccr_entries(*fallback))
                is None,
        },
        r matches Some((me, _)) ==> abs < me <= s.len(),
{
    let _n = s.len();
    let hash_eq = to_chars("hash=\"");
    let quote = to_chars("\"");
    let suffix = to_chars(MARKER_SUFFIX);
    proof {
        reveal_strlit("hash=\"");
        reveal_strlit("\"");
        reveal_strlit("\")]");
        assert(quote@ =~= seq!['"']);
        assert(hash_eq@.len() == 6);
        assert(suffix@.len() == 3);
        lemma_find_bounds(s@, hash_eq@, abs as int);
        lemma_find_bounds(s@, suffix@, abs as int);
    }
    match find_from_exec(s, &hash_eq, abs) {
        None => None,
        Some(hp) => {
            let hs = hp + 6;
            proof {
                lemma_find_bounds(s@, quote@, hs as int);
            }
            match find_from_exec(s, &quote, hs) {
                None => None,
                Some(he) => {
                    let hex_part = subrange_exec(s, hs, he);
                    match parse_hex_u64_exec(&hex_part) {
                        None => None,
                        Some(h) => match lookup_exec(primary, fallback, h) {
                            None => None,
                            Some(orig) => match find_from_exec(s, &suffix, abs) {
                                None => None,
                                Some(mr) => Some((mr + 3, orig)),
                            },
                        },
                    }
                },
            }
        },
    }
}

fn expand_legacy_exec(
    s: &Vec<char>,
    abs: usize,
    primary: &DashMap<u64, String>,
    fallback: &DashMap<u64, String>,
) -> (r: Option<(usize, Vec<char>)>)
    requires
        abs <= s.len(),
    ensures
        match r {
            Some((me, orig)) => expand_legacy(
                s@,
                abs as int,
                ccr_entries(*primary),
                ccr_entries(*fallback),
            ) == Some((me as int, orig@)),
            None => expand_legacy(s@, abs as int, ccr_entries(*primary), ccr_entries(*fallback))
                is None,
        },
        r matches Some((me, _)) ==> abs < me <= s.len(),
{
    let suffix = to_chars(LEGACY_SUFFIX);
    proof {
        lemma_find_bounds(s@, suffix@, abs as int);
        reveal_strlit(". Use souls_fill para resgatar se necessário]");
        assert(suffix@.len() > 0);
    }
    if s.len() < 43 || abs > s.len() - 43 {
        return None;
    }
    let hs = abs + 27;
    let hex_part = subrange_exec(s, hs, hs + 16);
    match parse_hex_u64_exec(&hex_part) {
        None => None,
        Some(h) => match lookup_exec(primary, fallback, h) {
            None => None,
            Some(orig) => match find_from_exec(s, &suffix, abs) {
                None => None,
                Some(sr) => Some((sr + suffix.len(), orig)),
            },
        },
    }
}

/// Expands markers back into the texts they stand for. A CCR marker
/// (`[SOULS CCR: ... hash="<hex>")]`) whose hash is stored in `primary` or,
/// failing that, in `fallback` is replaced by the stored text, and the search
/// goes on after it; markers that do not resolve are left as they are. Then
/// the same is done for legacy markers (`[SOULS-DEDUP: Block Hash 0x<16 hex>...`).
pub fn rehydrate_ccr(
    primary: &DashMap<u64, String>,
    fallback: &DashMap<u64, String>,
    text: &str,
) -> (r: String)
    ensures
        r@ == rehydrate_spec(text@, ccr_entries(*primary), ccr_entries(*fallback)),
{
    let ghost p = ccr_entries(*primary);
    let ghost f = ccr_entries(*fallback);
    let prefix = to_chars(MARKER_PREFIX);
    proof {
        reveal_strlit("[SOULS CCR: ");
    }
    let mut result = to_chars(text);
    let mut cursor: usize = 0;
    loop
        invariant_except_break
            cursor <= result.len(),
            prefix@ == MARKER_PREFIX@,
            prefix@.len() == 12,
            p == ccr_entries(*primary),
            f == ccr_entries(*fallback),
            ccr_pass(text@, 0, p, f) == ccr_pass(result@, cursor as int, p, f),
        ensures
            ccr_pass(text@, 0, p, f) == result@,
        decreases result@.len() - cursor,
    {
        proof {
            lemma_find_bounds(result@, prefix@, cursor as int);
        }
        match find_from_exec(&result, &prefix, cursor) {
            None => {
                break;
            },
            Some(abs) => {
                let ghost s0 = result@;
                let ghost c0 = cursor as int;
                assert(ccr_pass(s0, c0, p, f) == ccr_step(s0, c0, abs as int, p, f));
                match expand_marker_exec(&result, abs, primary, fallback) {
                    Some((me, orig)) => {
                        if me <= result.len() && abs < me {
                            let olen = orig.len();
                            result = splice_exec(&result, abs, me, &orig);
                            let _n = result.len();
                            cursor = abs + olen;
                            assert(result@.len() == abs + olen + (s0.len() - me));
                            assert(result@.len() - cursor < s0.len() - c0);
                            assert(ccr_step(s0, c0, abs as int, p, f) == ccr_pass(
                                result@,
                                cursor as int,
                                p,
                                f,
                            ));
                        } else {
                            break;
                        }
                    },
                    None => {
                        assert(abs + prefix@.len() <= s0.len());
                        cursor = abs + prefix.len();
                        assert(result@.len() - cursor < s0.len() - c0);
                        assert(ccr_step(s0, c0, abs as int, p, f) == ccr_pass(
                            result@,
                            cursor as int,
                            p,
                            f,
                        ));
                    },
                }
            },
        }
    }
    let ghost mid = result@;
    let lprefix = to_chars(LEGACY_PREFIX);
    proof {
        reveal_strlit("[SOULS-DEDUP: Block Hash 0x");
    }
    cursor = 0;
    loop
        invariant_except_break
            cursor <= result.len(),
            lprefix@ == LEGACY_PREFIX@,
            lprefix@.len() == 27,
            p == ccr_entries(*primary),
            f == ccr_entries(*fallback),
            legacy_pass(mid, 0, p, f) == legacy_pass(result@, cursor as int, p, f),
        ensures
            legacy_pass(mid, 0, p, f) == result@,
        decreases result@.len() - cursor,
    {
        proof {
            lemma_find_bounds(result@, lprefix@, cursor as int);
        }
        match find_from_exec(&result, &lprefix, cursor) {
            None => {
                break;
            },
            Some(abs) => {
                let ghost s0 = result@;
                let ghost c0 = cursor as int;
                assert(legacy_pass(s0, c0, p, f) == legacy_step(s0, c0, abs as int, p, f));
                match expand_legacy_exec(&result, abs, primary, fallback) {
                    Some((me, orig)) => {
                        if me <= result.len() && abs < me {
                            let olen = orig.len();
                            result = splice_exec(&result, abs, me, &orig);
                            let _n = result.len();
                            cursor = abs + olen;
                            assert(result@.len() == abs + olen + (s0.len() - me));
                            assert(result@.len() - cursor < s0.len() - c0);
                            assert(legacy_step(s0, c0, abs as int, p, f) == legacy_pass(
                                result@,
                                cursor as int,
                                p,
                                f,
                            ));
                        } else {
                            break;
                        }
                    },
                    None => {
                        assert(abs + lprefix@.len() <= s0.len());
                        cursor = abs + lprefix.len();
                        assert(result@.len() - cursor < s0.len() - c0);
                        assert(legacy_step(s0, c0, abs as int, p, f) == legacy_pass(
                            result@,
                            cursor as int,
                            p,
                            f,
                        ));
                    },
                }
            },
        }
    }
    from_chars(&result)
}

} // verus!

verus! {

/// `find_from` stops at the first occurrence at or after `i`.
pub proof fn lemma_find_first(s: Seq<char>, p: Seq<char>, i: int, k: int)
    requires
        0 <= i <= k,
        occurs_at(s, p, k),
        forall|j: int| i <= j < k ==> !#[trigger] occurs_at(s, p, j),
    ensures
        find_from(s, p, i) == Some(k),
    decreases k - i,
{
    if i < k {
        lemma_find_first(s, p, i + 1, k);
    }
}

/// A decimal rendering holds only ASCII digits.
pub proof fn lemma_decimal_digits(n: nat)
    ensures
        forall|i: int| 0 <= i < decimal(n).len() ==> is_ascii_digit(#[trigger] decimal(n)[i]),
    decreases n,
{
    if n >= 10 {
        lemma_decimal_digits(n / 10);
        let d = decimal(n);
        assert forall|i: int| 0 <= i < d.len() implies is_ascii_digit(#[trigger] d[i]) by {
            if i < d.len() - 1 {
                assert(d[i] == decimal(n / 10)[i]);
            }
        }
    }
}

proof fn lemma_marker_literals()
    ensures
        MARKER_PREFIX@.len() == 12,
        forall|i: int| 0 <= i < MARKER_PREFIX@.len() ==> MARKER_PREFIX@[i] != '"',
        MARKER_MID@.len() >= 6,
        forall|i: int| 0 <= i < MARKER_MID@.len() - 1 ==> MARKER_MID@[i] != '"',
        MARKER_MID@.subrange(MARKER_MID@.len() - 6, MARKER_MID@.len() as int) == "hash=\""@,
        MARKER_SUFFIX@ == seq!['"', ')', ']'],
        "hash=\""@ == seq!['h', 'a', 's', 'h', '=', '"'],
{
    reveal_strlit("[SOULS CCR: ");
    reveal_strlit(" linhas comprimidas. Para recuperar os dados integrais brutos, invoque a ferramenta headroom_retrieve(hash=\"");
    reveal_strlit("\")]");
    reveal_strlit("hash=\"");
    assert(MARKER_MID@.subrange(MARKER_MID@.len() - 6, MARKER_MID@.len() as int) =~= "hash=\""@);
}

/// Rehydrating a fresh marker gives back the text stored for its hash.
proof fn lemma_marker_expands(lc: nat, h: u64, text: Seq<char>, p: CcrView, f: CcrView)
    requires
        p.contains_key(h),
        p[h] == text,
    ensures
        ccr_pass(ccr_marker(lc, hex(h as nat)), 0, p, f) == ccr_pass(
            text,
            text.len() as int,
            p,
            f,
        ),
{
    lemma_marker_literals();
    lemma_decimal_digits(lc);
    crate::text::lemma_hex_roundtrip(h as nat);
    crate::text::lemma_parse_hex_of_hex(h);
    let pre = MARKER_PREFIX@;
    let d = decimal(lc);
    let mid = MARKER_MID@;
    let hx = hex(h as nat);
    let suf = MARKER_SUFFIX@;
    let m = ccr_marker(lc, hx);
    let a: int = (pre.len() + d.len()) as int;
    let hs: int = a + mid.len();
    let he: int = hs + hx.len();
    assert(m.len() == he + 3);
    assert forall|i: int| 0 <= i < pre.len() implies m[i] == pre[i] by {}
    assert forall|i: int| 0 <= i < d.len() implies m[pre.len() + i] == d[i] by {}
    assert forall|i: int| 0 <= i < mid.len() implies m[a + i] == mid[i] by {}
    assert forall|i: int| 0 <= i < hx.len() implies m[hs + i] == hx[i] by {}
    assert forall|i: int| 0 <= i < 3 implies m[he + i] == suf[i] by {}
    // Only two quotes up to the suffix: the last character of the middle part and the suffix's first.
    assert forall|j: int| 0 <= j < he && m[j] == '"' implies j == hs - 1 by {
        if j < pre.len() {
            assert(m[j] == pre[j]);
        } else if j < a {
            assert(m[j] == d[j - pre.len()]);
            assert(is_ascii_digit(d[j - pre.len()]));
        } else if j < hs - 1 {
            assert(m[j] == mid[j - a]);
        } else if j >= hs {
            assert(m[j] == hx[j - hs]);
            assert(hex_value(hx[j - hs]) is Some);
        }
    }
    // The marker itself starts at 0.
    assert(m.subrange(0, 12) =~= pre);
    lemma_find_first(m, pre, 0, 0);
    // `hash="` is found where the middle part ends.
    let hp = hs - 6;
    assert(m.subrange(hp, hs) =~= mid.subrange(mid.len() - 6, mid.len() as int));
    assert forall|j: int| 0 <= j < hp implies !#[trigger] occurs_at(m, "hash=\""@, j) by {
        if occurs_at(m, "hash=\""@, j) {
            assert(m.subrange(j, j + 6)[5] == m[j + 5]);
        }
    }
    lemma_find_first(m, "hash=\""@, 0, hp);
    // The closing quote is the suffix's first character.
    assert(m.subrange(he, he + 1) =~= seq!['"']);
    assert forall|j: int| hs <= j < he implies !#[trigger] occurs_at(m, seq!['"'], j) by {
        if occurs_at(m, seq!['"'], j) {
            assert(m.subrange(j, j + 1)[0] == m[j]);
        }
    }
    lemma_find_first(m, seq!['"'], hs, he);
    assert(m.subrange(hs, he) =~= hx);
    // The suffix is found at its own place: the earlier quote is followed by a hex digit.
    assert(m.subrange(he, he + 3) =~= suf);
    assert forall|j: int| 0 <= j < he implies !#[trigger] occurs_at(m, suf, j) by {
        if occurs_at(m, suf, j) {
            assert(m.subrange(j, j + 3)[0] == m[j]);
            assert(m.subrange(j, j + 3)[1] == m[j + 1]);
            assert(m[hs] == hx[0]);
        }
    }
    lemma_find_first(m, suf, 0, he);
    assert(expand_marker(m, 0, p, f) == Some((he + 3, text)));
    assert(m.take(0) + text + m.skip(he + 3) =~= text);
    assert(ccr_pass(m, 0, p, f) == ccr_step(m, 0, 0, p, f));
}

/// Law of the CCR compressor: rehydration gives back, character for
/// character, every text that [`compress`] was given, using the cache as
/// [`compress`] left it, whatever the fallback store holds. A compressed text
/// (more than five lines) may itself hold CCR marker text; a short text, which
/// is passed through uncompressed, must not. No text may hold the legacy
/// marker prefix.
pub proof fn law_rehydrate_compress_roundtrip(text: &str, cache: CcrView, fallback: CcrView)
    requires
        lines(text@).len() > 5 || !crate::text::contains(text@, MARKER_PREFIX@),
        !crate::text::contains(text@, LEGACY_PREFIX@),
    ensures
        rehydrate_spec(compress_spec(text), compress_cache_spec(text, cache), fallback) == text@,
{
    lemma_marker_literals();
    reveal_strlit("[SOULS-DEDUP: Block Hash 0x");
    let p = compress_cache_spec(text, cache);
    let t = text@;
    crate::text::lemma_find_from(t, LEGACY_PREFIX@, 0);
    if lines(t).len() > 5 {
        lemma_marker_expands(lines(t).len(), text_hash(text), t, p, fallback);
        crate::text::lemma_find_from(t, MARKER_PREFIX@, t.len() as int);
        assert(ccr_pass(t, t.len() as int, p, fallback) == t);
    } else {
        crate::text::lemma_find_from(t, MARKER_PREFIX@, 0);
    }
    assert(ccr_pass(compress_spec(text), 0, p, fallback) == t);
    assert(legacy_pass(t, 0, p, fallback) == t);
}


/// Law of rehydration: a text that holds no marker prefix, current or
/// legacy, comes back unchanged, whatever the caches hold.
pub proof fn law_rehydrate_leaves_plain_text(text: Seq<char>, primary: CcrView, fallback: CcrView)
    requires
        !crate::text::contains(text, MARKER_PREFIX@),
        !crate::text::contains(text, LEGACY_PREFIX@),
    ensures
        rehydrate_spec(text, primary, fallback) == text,
{
    crate::text::lemma_find_from(text, MARKER_PREFIX@, 0);
    crate::text::lemma_find_from(text, LEGACY_PREFIX@, 0);
    assert(ccr_pass(text, 0, primary, fallback) == text);
}


/// The cache key that a `headroom_retrieve` hash names: the text trimmed,
/// its leading `0x` dropped, read as hexadecimal.
pub open spec fn headroom_key(hash: Seq<char>) -> Option<u64> {
    parse_hex_u64(crate::text::trim_start_matches(crate::text::trim(hash), "0x"@))
}

/// The original text that a `headroom_retrieve` hash names in the host-RAM
/// cache, when the hash reads as hexadecimal and the cache holds it.
pub fn headroom_lookup(cache: &DashMap<u64, String>, hash: &str) -> (r: Option<String>)
    ensures
        match headroom_key(hash@) {
            Some(k) => match r {
                Some(v) => ccr_entries(*cache).contains_key(k) && ccr_entries(*cache)[k] == v@,
                None => !ccr_entries(*cache).contains_key(k),
            },
            None => r is None,
        },
{
    let t = crate::text::trim_chars(&to_chars(hash));
    let h = crate::text::trim_start_matches_chars(&t, &to_chars("0x"));
    match parse_hex_u64_exec(&h) {
        Some(k) => ccr_cache_get(cache, k),
        None => None,
    }
}


/// A new, empty CCR cache.
pub fn new_ccr_cache() -> (m: DashMap<u64, String>)
    ensures
        ccr_entries(m) == CcrView::empty(),
{
    ccr_cache_new()
}

/// The original text stored under `hash`, if any.
pub fn cached_original(cache: &DashMap<u64, String>, hash: u64) -> (r: Option<String>)
    ensures
        match r {
            Some(v) => ccr_entries(*cache).contains_key(hash) && ccr_entries(*cache)[hash] == v@,
            None => !ccr_entries(*cache).contains_key(hash),
        },
{
    ccr_cache_get(cache, hash)
}

/// Stores `original` under `hash`; other entries keep theirs.
pub fn store_original(cache: &mut DashMap<u64, String>, hash: u64, original: String)
    ensures
        ccr_entries(*final(cache)) == ccr_entries(*old(cache)).insert(hash, original@),
{
    ccr_cache_insert(cache, hash, original);
}


/// Law of the CCR compressor: a text of at most five lines passes through
/// unchanged and leaves the cache as it was; a longer one is stored whole in
/// the cache under its hash and replaced by a marker that starts with
/// `[SOULS CCR: ` and the text's line count.
pub proof fn law_only_long_texts_are_compressed(text: &str, cache: CcrView)
    ensures
        lines(text@).len() <= 5 ==> compress_spec(text) == text@ && compress_cache_spec(text, cache) == cache,
        lines(text@).len() > 5 ==> crate::text::starts_with(compress_spec(text), "[SOULS CCR: "@ + decimal(lines(text@).len()))
            && compress_cache_spec(text, cache).contains_key(text_hash(text)) && compress_cache_spec(text, cache)[text_hash(
            text,
        )] == text@,
{
    if lines(text@).len() > 5 {
        reveal_strlit("[SOULS CCR: ");
        let p = "[SOULS CCR: "@ + decimal(lines(text@).len());
        let m = compress_spec(text);
        assert(m == MARKER_PREFIX@ + decimal(lines(text@).len()) + MARKER_MID@ + hex(text_hash(text) as nat)
            + MARKER_SUFFIX@);
        assert(m.subrange(0, p.len() as int) =~= p);
    }
}

} // verus!
