//! Regular-expression captures (through the `regex` crate) and URL query
//! pairs (through the `url` crate), with positions turned from UTF-8 bytes
//! into characters.
use vstd::prelude::*;
use crate::text::to_chars;

verus! {

/// One capture group: where it starts (a UTF-8 byte offset) and its text.
pub type GroupView = Option<(usize, Seq<char>)>;

/// The captures of every match of `pattern` over `text`, left to right,
/// each a list of its groups (group 0 is the whole match); the error's
/// message when the pattern does not compile.
pub uninterp spec fn regex_captures(pattern: Seq<char>, text: Seq<char>) -> Result<Seq<Seq<GroupView>>, Seq<char>>;

/// The views of the groups of a list of matches.
pub open spec fn capture_views(v: Seq<Vec<Option<(usize, String)>>>) -> Seq<Seq<GroupView>> {
    v.map_values(|m: Vec<Option<(usize, String)>>| match_view(m@))
}

/// `regex::Regex::new` and `Regex::captures_iter`: every match with each of
/// its groups (start offset in bytes and text), or the message of the
/// pattern's error. The contract names the result: a function of the
/// pattern and the text.
#[verifier::external_body]
pub(crate) fn captures_all(pattern: &str, text: &str) -> (r: Result<Vec<Vec<Option<(usize, String)>>>, String>)
    ensures
        match r {
            Ok(v) => regex_captures(pattern@, text@) == Ok::<Seq<Seq<GroupView>>, Seq<char>>(capture_views(v@)),
            Err(e) => regex_captures(pattern@, text@) == Err::<Seq<Seq<GroupView>>, Seq<char>>(e@),
        },
{
    match regex::Regex::new(pattern) {
        Ok(re) => Ok(
            re.captures_iter(text).map(
                |c| c.iter().map(|g| g.map(|m| (m.start(), m.as_str().to_string()))).collect(),
            ).collect(),
        ),
        Err(e) => Err(e.to_string()),
    }
}

/// Whether `pattern` matches somewhere in `text`, or the message of the
/// pattern's error.
pub uninterp spec fn regex_matches(pattern: Seq<char>, text: Seq<char>) -> Result<bool, Seq<char>>;

/// `regex::Regex::new` and `Regex::is_match`. The contract names the
/// result: a function of the pattern and the text.
#[verifier::external_body]
pub(crate) fn matches_anywhere(pattern: &str, text: &str) -> (r: Result<bool, String>)
    ensures
        match r {
            Ok(b) => regex_matches(pattern@, text@) == Ok::<bool, Seq<char>>(b),
            Err(e) => regex_matches(pattern@, text@) == Err::<bool, Seq<char>>(e@),
        },
{
    match regex::Regex::new(pattern) {
        Ok(re) => Ok(re.is_match(text)),
        Err(e) => Err(e.to_string()),
    }
}

/// The percent-decoded query pairs of `url`, or `None` when it is not an
/// absolute URL.
pub uninterp spec fn url_query_pairs(url: Seq<char>) -> Option<Seq<(Seq<char>, Seq<char>)>>;

/// `url::Url::parse` and `Url::query_pairs`, each pair copied out. The
/// contract names the result: a function of the URL text.
#[verifier::external_body]
pub(crate) fn query_pairs_of(url: &str) -> (r: Option<Vec<(String, String)>>)
    ensures
        match r {
            Some(v) => url_query_pairs(url@) == Some(v@.map_values(|p: (String, String)| (p.0@, p.1@))),
            None => url_query_pairs(url@) is None,
        },
{
    match url::Url::parse(url) {
        Ok(u) => Some(u.query_pairs().map(|(k, v)| (k.into_owned(), v.into_owned())).collect()),
        Err(_) => None,
    }
}

/// The view of one match: each group's start and text.
pub open spec fn match_view(m: Seq<Option<(usize, String)>>) -> Seq<GroupView> {
    m.map_values(
        |g: Option<(usize, String)>|
            match g {
                Some(p) => Some((p.0, p.1@)),
                None => None,
            },
    )
}

/// Group `i` of a match, `None` past its last group.
pub open spec fn group(m: Seq<GroupView>, i: int) -> GroupView {
    if 0 <= i < m.len() {
        m[i]
    } else {
        None
    }
}

/// Group `i` of a match, copied out (`None` past its last group).
pub fn group_exec(m: &Vec<Option<(usize, String)>>, i: usize) -> (r: Option<(usize, String)>)
    ensures
        match r {
            Some(p) => group(
                match_view(m@),
                i as int,
            ) == Some((p.0, p.1@)),
            None => group(
                match_view(m@),
                i as int,
            ) is None,
        },
{
    if i < m.len() {
        match &m[i] {
            Some(p) => Some((p.0, p.1.clone())),
            None => None,
        }
    } else {
        None
    }
}

// ---------------------------------------------------------------------------
// Byte offsets
// ---------------------------------------------------------------------------

/// How many bytes UTF-8 spends on `c`.
pub open spec fn utf8_width(c: char) -> nat {
    if (c as int) < 0x80 {
        1
    } else if (c as int) < 0x800 {
        2
    } else if (c as int) < 0x10000 {
        3
    } else {
        4
    }
}

/// How many bytes UTF-8 spends on `s`.
pub open spec fn utf8_len(s: Seq<char>) -> nat
    decreases s.len(),
{
    if s.len() == 0 {
        0
    } else {
        utf8_len(s.drop_last()) + utf8_width(s.last())
    }
}

/// The character position at which byte offset `b` of `s` falls, when `b`
/// is the start of a character or the end of `s`.
pub open spec fn char_at_byte(s: Seq<char>, b: int) -> Option<int> {
    if exists|k: int| 0 <= k <= s.len() && #[trigger] utf8_len(s.take(k)) == b {
        Some(choose|k: int| 0 <= k <= s.len() && #[trigger] utf8_len(s.take(k)) == b)
    } else {
        None
    }
}

/// Every character takes at least one byte.
pub proof fn lemma_utf8_len_at_least(s: Seq<char>)
    ensures
        utf8_len(s) >= s.len(),
    decreases s.len(),
{
    if s.len() > 0 {
        lemma_utf8_len_at_least(s.drop_last());
    }
}

/// A longer prefix takes at least as many bytes.
pub proof fn lemma_utf8_len_mono(s: Seq<char>, k1: int, k2: int)
    requires
        0 <= k1 <= k2 <= s.len(),
    ensures
        utf8_len(s.take(k1)) <= utf8_len(s.take(k2)),
{
    if k1 < k2 {
        lemma_utf8_len_strict(s, k1, k2);
    }
}

/// A longer prefix takes more bytes.
pub proof fn lemma_utf8_len_strict(s: Seq<char>, k1: int, k2: int)
    requires
        0 <= k1 < k2 <= s.len(),
    ensures
        utf8_len(s.take(k1)) < utf8_len(s.take(k2)),
    decreases k2,
{
    assert(s.take(k2).drop_last() =~= s.take(k2 - 1));
    if k1 < k2 - 1 {
        lemma_utf8_len_strict(s, k1, k2 - 1);
    }
}

/// How many bytes UTF-8 spends on `c`.
pub fn width_exec(c: char) -> (w: usize)
    ensures
        w == utf8_width(c),
{
    let u = c as u32;
    proof {
        crate::sorting::lemma_char_code(c);
    }
    if u < 0x80 {
        1
    } else if u < 0x800 {
        2
    } else if u < 0x10000 {
        3
    } else {
        4
    }
}

/// The character position of byte offset `b` of `s` (see [`char_at_byte`]).
pub fn char_index_of_byte(s: &Vec<char>, b: usize) -> (r: Option<usize>)
    ensures
        match r {
            Some(k) => char_at_byte(s@, b as int) == Some(k as int),
            None => char_at_byte(s@, b as int) is None,
        },
{
    let mut acc: usize = 0;
    let mut k: usize = 0;
    assert(s@.take(0) =~= Seq::<char>::empty());
    while k < s.len() && acc < b
        invariant
            k <= s.len(),
            acc == utf8_len(s@.take(k as int)),
            acc <= b,
            forall|j: int| 0 <= j < k ==> utf8_len(s@.take(j)) < b,
        decreases s.len() - k,
    {
        assert(s@.take(k + 1).drop_last() =~= s@.take(k as int));
        let w = width_exec(s[k]);
        if w > b - acc {
            proof {
                assert forall|j: int| 0 <= j <= s@.len() implies utf8_len(s@.take(j)) != b as int by {
                    if j > k + 1 {
                        lemma_utf8_len_strict(s@, k + 1, j);
                    } else if j < k {
                    }
                }
            }
            return None;
        }
        acc = acc + w;
        k += 1;
    }
    if acc == b {
        proof {
            let k0 = k as int;
            assert(utf8_len(s@.take(k0)) == b);
            let c = choose|j: int| 0 <= j <= s@.len() && #[trigger] utf8_len(s@.take(j)) == b as int;
            if c < k0 {
                lemma_utf8_len_strict(s@, c, k0);
            } else if c > k0 {
                lemma_utf8_len_strict(s@, k0, c);
            }
        }
        Some(k)
    } else {
        proof {
            assert forall|j: int| 0 <= j <= s@.len() implies utf8_len(s@.take(j)) != b as int by {
                if j > k {
                    lemma_utf8_len_strict(s@, k as int, j);
                }
            }
        }
        None
    }
}


/// `utf8_len` read from the front: the first character's width, then the rest.
proof fn lemma_utf8_len_front(s: Seq<char>)
    requires
        s.len() > 0,
    ensures
        utf8_len(s) == utf8_width(s[0]) + utf8_len(s.drop_first()),
    decreases s.len(),
{
    if s.len() > 1 {
        lemma_utf8_len_front(s.drop_last());
        assert(s.drop_last().drop_first() =~= s.drop_first().drop_last());
        assert(s.drop_last()[0] == s[0]);
        assert(s.drop_first().last() == s.last());
    } else {
        assert(s.drop_first() =~= Seq::<char>::empty());
        assert(s.drop_last() =~= Seq::<char>::empty());
    }
}

/// The bytes of the UTF-8 encoding of `s` are `utf8_len(s)` in number.
pub proof fn lemma_encode_utf8_len(s: Seq<char>)
    ensures
        vstd::utf8::encode_utf8(s).len() == utf8_len(s),
    decreases s.len(),
{
    if s.len() > 0 {
        lemma_encode_utf8_len(s.drop_first());
        lemma_utf8_len_front(s);
        let c = s[0];
        crate::sorting::lemma_char_code(c);
        vstd::utf8::char_is_scalar(c);
        assert(vstd::utf8::encode_scalar(c as u32).len() == utf8_width(c));
    }
}

/// The UTF-8 length of `s`, which fits in a `usize`.
pub fn utf8_byte_len(s: &str) -> (n: usize)
    ensures
        n == utf8_len(s@),
{
    let b = s.as_bytes();
    proof {
        lemma_encode_utf8_len(s@);
    }
    b.len()
}

} // verus!
