//! Removal of ANSI escape sequences from terminal output.
use vstd::prelude::*;
use crate::text::{char_is_ascii_alpha, from_chars, is_ascii_alpha, to_chars};

verus! {

/// The scan behind [`strip_ansi`]: the kept characters and whether the scan
/// is inside an escape sequence. An `ESC` opens a sequence, which the next
/// ASCII letter closes; everything from the `ESC` to that letter is dropped.
pub open spec fn strip_ansi_state(s: Seq<char>) -> (Seq<char>, bool)
    decreases s.len(),
{
    if s.len() == 0 {
        (Seq::empty(), false)
    } else {
        let st = strip_ansi_state(s.drop_last());
        let c = s.last();
        if c == '\x1b' {
            (st.0, true)
        } else if st.1 {
            (st.0, !is_ascii_alpha(c))
        } else {
            (st.0.push(c), false)
        }
    }
}

/// What [`strip_ansi`] returns for `s`.
pub open spec fn strip_ansi_spec(s: Seq<char>) -> Seq<char> {
    strip_ansi_state(s).0
}

/// Text without an `ESC` character passes through the scan unchanged.
pub proof fn lemma_strip_ansi_plain(s: Seq<char>)
    requires
        !s.contains('\x1b'),
    ensures
        strip_ansi_state(s) == (s, false),
    decreases s.len(),
{
    if s.len() > 0 {
        assert(!s.drop_last().contains('\x1b')) by {
            if s.drop_last().contains('\x1b') {
                let k = choose|k: int| 0 <= k < s.drop_last().len() && s.drop_last()[k] == '\x1b';
                assert(s[k] == '\x1b');
            }
        }
        lemma_strip_ansi_plain(s.drop_last());
        assert(s.drop_last().push(s.last()) =~= s);
    }
}

/// The output of the scan never holds an `ESC` character.
pub proof fn lemma_strip_ansi_no_escape(s: Seq<char>)
    ensures
        !strip_ansi_state(s).0.contains('\x1b'),
    decreases s.len(),
{
    if s.len() > 0 {
        lemma_strip_ansi_no_escape(s.drop_last());
        let st = strip_ansi_state(s.drop_last());
        if s.last() != '\x1b' && !st.1 {
            assert forall|k: int| 0 <= k < st.0.push(s.last()).len() implies st.0.push(
                s.last(),
            )[k] != '\x1b' by {
                if k < st.0.len() {
                    assert(st.0[k] == st.0.push(s.last())[k]);
                }
            }
        }
    }
}

/// `ix` picks the characters of `a` out of `b`, in order: `a[i]` is
/// `b[ix[i]]`, and the positions strictly increase.
pub open spec fn embeds(ix: Seq<int>, a: Seq<char>, b: Seq<char>) -> bool {
    &&& ix.len() == a.len()
    &&& forall|i: int| 0 <= i < ix.len() ==> 0 <= #[trigger] ix[i] < b.len() && a[i] == b[ix[i]]
    &&& forall|i: int, j: int| 0 <= i < j < ix.len() ==> #[trigger] ix[i] < #[trigger] ix[j]
}

/// `a` is `b` with some characters removed and none added or reordered.
pub open spec fn is_subsequence_of(a: Seq<char>, b: Seq<char>) -> bool {
    exists|ix: Seq<int>| #[trigger] embeds(ix, a, b)
}

proof fn lemma_strip_ansi_embeds(s: Seq<char>) -> (ix: Seq<int>)
    ensures
        embeds(ix, strip_ansi_state(s).0, s),
    decreases s.len(),
{
    if s.len() == 0 {
        Seq::empty()
    } else {
        let p = lemma_strip_ansi_embeds(s.drop_last());
        let st = strip_ansi_state(s.drop_last());
        let c = s.last();
        if c == '\x1b' || st.1 {
            assert forall|i: int| 0 <= i < p.len() implies 0 <= #[trigger] p[i] < s.len()
                && strip_ansi_state(s).0[i] == s[p[i]] by {
                assert(s.drop_last()[p[i]] == s[p[i]]);
            }
            p
        } else {
            let q = p.push(s.len() - 1);
            let out = st.0.push(c);
            assert(strip_ansi_state(s).0 == out);
            assert forall|i: int| 0 <= i < q.len() implies 0 <= #[trigger] q[i] < s.len() && out[i] == s[q[i]] by {
                if i < p.len() {
                    assert(q[i] == p[i]);
                    assert(s.drop_last()[p[i]] == s[p[i]]);
                }
            }
            assert forall|i: int, j: int| 0 <= i < j < q.len() implies #[trigger] q[i] < #[trigger] q[j] by {
                if j < p.len() {
                    assert(q[i] == p[i] && q[j] == p[j]);
                } else {
                    assert(q[i] == p[i]);
                }
            }
            q
        }
    }
}

/// Law of ANSI stripping: the result is the input with characters removed,
/// never added or reordered, and stripping it again changes nothing.
pub proof fn law_strip_ansi_removes_only(s: Seq<char>)
    ensures
        is_subsequence_of(strip_ansi_spec(s), s),
        strip_ansi_spec(strip_ansi_spec(s)) == strip_ansi_spec(s),
{
    let ix = lemma_strip_ansi_embeds(s);
    assert(embeds(ix, strip_ansi_spec(s), s));
    lemma_strip_ansi_no_escape(s);
    lemma_strip_ansi_plain(strip_ansi_spec(s));
}

/// Removes ANSI escape sequences (`\x1b[31m`, `\x1b[2K`, ...): from each `ESC`
/// up to and including the next ASCII letter. Text without `ESC` is copied as is.
pub fn strip_ansi(s: &str) -> (r: String)
    ensures
        r@ == strip_ansi_spec(s@),
        !r@.contains('\x1b'),
        !s@.contains('\x1b') ==> r@ == s@,
{
    proof {
        lemma_strip_ansi_no_escape(s@);
    }
    let chars = to_chars(s);
    let mut has_escape = false;
    let mut k: usize = 0;
    while k < chars.len()
        invariant
            k <= chars.len(),
            chars@ == s@,
            has_escape <==> exists|j: int| 0 <= j < k && chars@[j] == '\x1b',
        decreases chars.len() - k,
    {
        if chars[k] == '\x1b' {
            has_escape = true;
        }
        k += 1;
    }
    if !has_escape {
        proof {
            lemma_strip_ansi_plain(s@);
        }
        return from_chars(&chars);
    }
    let mut out: Vec<char> = Vec::new();
    let mut in_escape = false;
    let mut i: usize = 0;
    while i < chars.len()
        invariant
            i <= chars.len(),
            chars@ == s@,
            (out@, in_escape) == strip_ansi_state(s@.take(i as int)),
        decreases chars.len() - i,
    {
        assert(s@.take(i + 1).drop_last() =~= s@.take(i as int));
        let c = chars[i];
        if c == '\x1b' {
            in_escape = true;
        } else if in_escape {
            if char_is_ascii_alpha(c) {
                in_escape = false;
            }
        } else {
            out.push(c);
        }
        i += 1;
    }
    assert(s@.take(chars.len() as int) =~= s@);
    from_chars(&out)
}


proof fn lemma_state_plain_suffix(x: Seq<char>, y: Seq<char>, t: Seq<char>)
    requires
        strip_ansi_state(x) == (y, false),
        !t.contains('\x1b'),
    ensures
        strip_ansi_state(x + t) == (y + t, false),
    decreases t.len(),
{
    if t.len() == 0 {
        assert(x + t =~= x);
        assert(y + t =~= y);
    } else {
        assert(!t.drop_last().contains('\x1b')) by {
            if t.drop_last().contains('\x1b') {
                let k = choose|k: int| 0 <= k < t.drop_last().len() && t.drop_last()[k] == '\x1b';
                assert(t[k] == '\x1b');
            }
        }
        lemma_state_plain_suffix(x, y, t.drop_last());
        assert((x + t).drop_last() =~= x + t.drop_last());
        assert((x + t).last() == t.last());
        assert(t.contains(t.last()));
        assert((y + t.drop_last()).push(t.last()) =~= y + t);
    }
}

proof fn lemma_state_inside_sequence(x: Seq<char>, y: Seq<char>, p: Seq<char>)
    requires
        strip_ansi_state(x) == (y, true),
        forall|i: int| 0 <= i < p.len() ==> p[i] != '\x1b' && !is_ascii_alpha(#[trigger] p[i]),
    ensures
        strip_ansi_state(x + p) == (y, true),
    decreases p.len(),
{
    if p.len() == 0 {
        assert(x + p =~= x);
    } else {
        lemma_state_inside_sequence(x, y, p.drop_last());
        assert((x + p).drop_last() =~= x + p.drop_last());
        assert((x + p).last() == p[p.len() - 1]);
    }
}

/// Law of ANSI stripping: an escape sequence (an `ESC`, then any characters
/// that are neither `ESC` nor an ASCII letter, then the ASCII letter that
/// ends it) between two texts without `ESC` is removed whole, and nothing
/// else is touched; e.g. `a\x1b[1;31mb` becomes `ab`.
pub proof fn law_escape_sequence_is_removed(a: Seq<char>, params: Seq<char>, letter: char, b: Seq<char>)
    requires
        !a.contains('\x1b'),
        !b.contains('\x1b'),
        forall|i: int| 0 <= i < params.len() ==> params[i] != '\x1b' && !is_ascii_alpha(#[trigger] params[i]),
        is_ascii_alpha(letter),
    ensures
        strip_ansi_spec(a + seq!['\x1b'] + params + seq![letter] + b) == a + b,
{
    lemma_strip_ansi_plain(a);
    let x1 = a + seq!['\x1b'];
    assert(x1.drop_last() =~= a);
    assert(strip_ansi_state(x1) == (a, true));
    lemma_state_inside_sequence(x1, a, params);
    let x2 = x1 + params;
    let x3 = x2 + seq![letter];
    assert(x3.drop_last() =~= x2);
    assert(letter != '\x1b') by {
        assert(!is_ascii_alpha('\x1b'));
    }
    assert(strip_ansi_state(x3) == (a, false));
    lemma_state_plain_suffix(x3, a, b);
    assert(a + seq!['\x1b'] + params + seq![letter] + b =~= x3 + b);
}

} // verus!
