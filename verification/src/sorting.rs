//! The order in which `String` and `(String, String)` keep their values in a
//! `BTreeSet`: lexicographic by code point (UTF-8 byte order agrees with it),
//! and ordered sets of names held as strictly sorted vectors.
use vstd::prelude::*;
use crate::text::to_chars;

verus! {

/// `a` and `b` agree before position `i`, and `a` is smaller there: either it
/// ends at `i` while `b` goes on, or its character at `i` has a lower code point.
pub open spec fn lex_lt_at(a: Seq<char>, b: Seq<char>, i: int) -> bool {
    &&& 0 <= i <= a.len()
    &&& i <= b.len()
    &&& a.take(i) == b.take(i)
    &&& i < b.len()
    &&& (i == a.len() || (a[i] as int) < (b[i] as int))
}

/// Lexicographic order of character sequences.
pub open spec fn lex_lt(a: Seq<char>, b: Seq<char>) -> bool {
    exists|i: int| lex_lt_at(a, b, i)
}

/// The views of a sequence of strings.
pub open spec fn names(v: Seq<String>) -> Seq<Seq<char>> {
    v.map_values(|s: String| s@)
}

/// Each name comes strictly before the next: sorted, and no name twice.
pub open spec fn strictly_sorted(s: Seq<Seq<char>>) -> bool {
    forall|i: int, j: int| 0 <= i < j < s.len() ==> #[trigger] lex_lt(s[i], s[j])
}

/// Order of pairs of names: by the first, then by the second.
pub open spec fn pair_lt(a: (Seq<char>, Seq<char>), b: (Seq<char>, Seq<char>)) -> bool {
    lex_lt(a.0, b.0) || (a.0 == b.0 && lex_lt(a.1, b.1))
}

/// The views of a sequence of pairs of strings.
pub open spec fn pair_names(v: Seq<(String, String)>) -> Seq<(Seq<char>, Seq<char>)> {
    v.map_values(|p: (String, String)| (p.0@, p.1@))
}

/// Each pair comes strictly before the next.
pub open spec fn pairs_strictly_sorted(s: Seq<(Seq<char>, Seq<char>)>) -> bool {
    forall|i: int, j: int| 0 <= i < j < s.len() ==> #[trigger] pair_lt(s[i], s[j])
}

/// No sequence comes before itself.
pub proof fn lemma_lex_irreflexive(a: Seq<char>)
    ensures
        !lex_lt(a, a),
{
}

/// The order is transitive.
pub proof fn lemma_lex_transitive(a: Seq<char>, b: Seq<char>, c: Seq<char>)
    requires
        lex_lt(a, b),
        lex_lt(b, c),
    ensures
        lex_lt(a, c),
{
    let i = choose|i: int| lex_lt_at(a, b, i);
    let j = choose|j: int| lex_lt_at(b, c, j);
    if i < j {
        assert(b.take(j).take(i) == b.take(i));
        assert(c.take(j).take(i) == c.take(i));
        assert(b.take(j)[i] == b[i]);
        assert(c.take(j)[i] == c[i]);
        assert(lex_lt_at(a, c, i));
    } else if j < i {
        assert(a.take(i).take(j) == a.take(j));
        assert(b.take(i).take(j) == b.take(j));
        assert(a.take(i)[j] == a[j]);
        assert(b.take(i)[j] == b[j]);
        assert(lex_lt_at(a, c, j));
    } else {
        assert(lex_lt_at(a, c, i));
    }
}

proof fn lemma_lex_total_from(a: Seq<char>, b: Seq<char>, k: int)
    requires
        0 <= k <= a.len(),
        k <= b.len(),
        a.take(k) == b.take(k),
        a != b,
    ensures
        lex_lt(a, b) || lex_lt(b, a),
    decreases a.len() - k,
{
    if k == a.len() && k == b.len() {
        assert(a == a.take(k));
        assert(b == b.take(k));
    } else if k == a.len() {
        assert(lex_lt_at(a, b, k));
    } else if k == b.len() {
        assert(lex_lt_at(b, a, k));
    } else if a[k] != b[k] {
        if (a[k] as int) < (b[k] as int) {
            assert(lex_lt_at(a, b, k));
        } else {
            assert(lex_lt_at(b, a, k));
        }
    } else {
        assert(a.take(k + 1) == a.take(k).push(a[k]));
        assert(b.take(k + 1) == b.take(k).push(b[k]));
        lemma_lex_total_from(a, b, k + 1);
    }
}

/// Two different sequences are ordered one way or the other.
pub proof fn lemma_lex_total(a: Seq<char>, b: Seq<char>)
    requires
        a != b,
    ensures
        lex_lt(a, b) || lex_lt(b, a),
{
    assert(a.take(0) =~= b.take(0));
    lemma_lex_total_from(a, b, 0);
}

/// At most one of two sequences comes before the other.
pub proof fn lemma_lex_asymmetric(a: Seq<char>, b: Seq<char>)
    requires
        lex_lt(a, b),
    ensures
        !lex_lt(b, a),
{
    if lex_lt(b, a) {
        lemma_lex_transitive(a, b, a);
        lemma_lex_irreflexive(a);
    }
}

/// The pair order is transitive.
pub proof fn lemma_pair_transitive(
    a: (Seq<char>, Seq<char>),
    b: (Seq<char>, Seq<char>),
    c: (Seq<char>, Seq<char>),
)
    requires
        pair_lt(a, b),
        pair_lt(b, c),
    ensures
        pair_lt(a, c),
{
    if lex_lt(a.0, b.0) && lex_lt(b.0, c.0) {
        lemma_lex_transitive(a.0, b.0, c.0);
    } else if lex_lt(a.0, b.0) {
    } else if lex_lt(b.0, c.0) {
    } else {
        lemma_lex_transitive(a.1, b.1, c.1);
    }
}

/// Two different pairs are ordered one way or the other; a pair does not
/// come before itself.
pub proof fn lemma_pair_total(a: (Seq<char>, Seq<char>), b: (Seq<char>, Seq<char>))
    ensures
        !pair_lt(a, a),
        a != b ==> pair_lt(a, b) || pair_lt(b, a),
        pair_lt(a, b) ==> !pair_lt(b, a),
{
    lemma_lex_irreflexive(a.0);
    lemma_lex_irreflexive(a.1);
    if a.0 != b.0 {
        lemma_lex_total(a.0, b.0);
        if lex_lt(a.0, b.0) {
            lemma_lex_asymmetric(a.0, b.0);
        } else {
            lemma_lex_asymmetric(b.0, a.0);
        }
    } else if a.1 != b.1 {
        lemma_lex_total(a.1, b.1);
        if lex_lt(a.1, b.1) {
            lemma_lex_asymmetric(a.1, b.1);
        } else {
            lemma_lex_asymmetric(b.1, a.1);
        }
    }
}

/// A character's code as a `u32` is its code point.
pub proof fn lemma_char_code(c: char)
    ensures
        (c as u32) as int == c as int,
{
    let x: int = c as int;
    assert(0 <= x < 0x1_0000_0000);
    assert((x as u32) as int == x);
}

/// Whether `a` comes strictly before `b` (`a < b` on `String`).
pub fn name_lt(a: &String, b: &String) -> (r: bool)
    ensures
        r == lex_lt(a@, b@),
{
    let ca = to_chars(a.as_str());
    let cb = to_chars(b.as_str());
    let mut i: usize = 0;
    while i < ca.len() && i < cb.len() && ca[i] == cb[i]
        invariant
            i <= ca.len(),
            i <= cb.len(),
            ca@ == a@,
            cb@ == b@,
            ca@.take(i as int) == cb@.take(i as int),
        decreases ca.len() - i,
    {
        assert(ca@.take(i + 1) == ca@.take(i as int).push(ca@[i as int]));
        assert(cb@.take(i + 1) == cb@.take(i as int).push(cb@[i as int]));
        i += 1;
    }
    if i == cb.len() {
        proof {
            if lex_lt(a@, b@) {
                let j = choose|j: int| lex_lt_at(a@, b@, j);
                if j < i as int {
                    assert(ca@.take(i as int)[j] == ca@[j]);
                    assert(cb@.take(i as int)[j] == cb@[j]);
                }
            }
        }
        false
    } else if i == ca.len() {
        assert(lex_lt_at(a@, b@, i as int));
        true
    } else {
        let r = (ca[i] as u32) < (cb[i] as u32);
        proof {
            lemma_char_code(ca@[i as int]);
            lemma_char_code(cb@[i as int]);
            if r {
                assert(lex_lt_at(a@, b@, i as int));
            } else if lex_lt(a@, b@) {
                let j = choose|j: int| lex_lt_at(a@, b@, j);
                if j < i as int {
                    assert(ca@.take(i as int)[j] == ca@[j]);
                    assert(cb@.take(i as int)[j] == cb@[j]);
                } else if j > i as int {
                    assert(ca@.take(j)[i as int] == ca@[i as int]);
                    assert(cb@.take(j)[i as int] == cb@[i as int]);
                }
            }
        }
        r
    }
}

/// Whether the pair `a` comes strictly before the pair `b`.
pub fn pair_name_lt(a: &(String, String), b: &(String, String)) -> (r: bool)
    ensures
        r == pair_lt((a.0@, a.1@), (b.0@, b.1@)),
{
    if name_lt(&a.0, &b.0) {
        true
    } else if a.0 == b.0 {
        name_lt(&a.1, &b.1)
    } else {
        false
    }
}

/// Whether some element of `v` equals `s`.
pub fn contains_name(v: &Vec<String>, s: &String) -> (r: bool)
    ensures
        r == names(v@).contains(s@),
{
    let mut i: usize = 0;
    while i < v.len()
        invariant
            i <= v.len(),
            forall|k: int| 0 <= k < i ==> v@[k]@ != s@,
        decreases v.len() - i,
    {
        if v[i] == *s {
            assert(names(v@)[i as int] == s@);
            return true;
        }
        i += 1;
    }
    proof {
        if names(v@).contains(s@) {
            let k = choose|k: int| 0 <= k < names(v@).len() && names(v@)[k] == s@;
            assert(v@[k]@ == s@);
        }
    }
    false
}

/// Adds `s` to the ordered set of names `v` (as `BTreeSet::insert` does):
/// the result is strictly sorted and holds the old names and `s`.
pub fn insert_name(v: &mut Vec<String>, s: String)
    requires
        strictly_sorted(names(old(v)@)),
    ensures
        strictly_sorted(names(final(v)@)),
        names(final(v)@).to_set() == names(old(v)@).to_set().insert(s@),
{
    let ghost old_names = names(v@);
    let mut i: usize = 0;
    while i < v.len() && name_lt(&v[i], &s)
        invariant
            i <= v.len(),
            v@ == old(v)@,
            old_names == names(v@),
            strictly_sorted(old_names),
            forall|k: int| 0 <= k < i ==> lex_lt(#[trigger] old_names[k], s@),
        decreases v.len() - i,
    {
        i += 1;
    }
    if i < v.len() && v[i] == s {
        assert(old_names[i as int] == s@);
        assert(old_names.to_set().insert(s@) =~= old_names.to_set());
        return;
    }
    proof {
        if i < v.len() {
            lemma_lex_total(s@, old_names[i as int]);
        }
    }
    v.insert(i, s);
    proof {
        let nn = names(v@);
        assert(nn =~= old_names.insert(i as int, s@));
        assert forall|a: int, b: int| 0 <= a < b < nn.len() implies #[trigger] lex_lt(
            nn[a],
            nn[b],
        ) by {
            if b < i {
            } else if a < i && b == i {
            } else if a < i && b > i {
                assert(lex_lt(old_names[a], s@));
                assert(lex_lt(s@, old_names[i as int]));
                if b - 1 > i {
                    assert(lex_lt(old_names[i as int], old_names[b - 1]));
                    lemma_lex_transitive(s@, old_names[i as int], old_names[b - 1]);
                }
                lemma_lex_transitive(old_names[a], s@, old_names[b - 1]);
            } else if a == i {
                if b - 1 > i {
                    assert(lex_lt(old_names[i as int], old_names[b - 1]));
                    lemma_lex_transitive(s@, old_names[i as int], old_names[b - 1]);
                }
            } else {
                assert(lex_lt(old_names[a - 1], old_names[b - 1]));
            }
        }
        assert forall|x: Seq<char>| #[trigger] nn.to_set().contains(x) == old_names.to_set().insert(
            s@,
        ).contains(x) by {
            if nn.contains(x) {
                let k = choose|k: int| 0 <= k < nn.len() && nn[k] == x;
                if k < i {
                    assert(old_names[k] == x);
                } else if k > i {
                    assert(old_names[k - 1] == x);
                }
            }
            if old_names.contains(x) {
                let k = choose|k: int| 0 <= k < old_names.len() && old_names[k] == x;
                if k < i {
                    assert(nn[k] == x);
                } else {
                    assert(nn[k + 1] == x);
                }
            }
            if x == s@ {
                assert(nn[i as int] == x);
            }
        }
        assert(nn.to_set() =~= old_names.to_set().insert(s@));
    }
}

/// Adds the pair `p` to the ordered set of pairs `v` (as `BTreeSet::insert`
/// does): the result is strictly sorted and holds the old pairs and `p`.
pub fn insert_pair(v: &mut Vec<(String, String)>, p: (String, String))
    requires
        pairs_strictly_sorted(pair_names(old(v)@)),
    ensures
        pairs_strictly_sorted(pair_names(final(v)@)),
        pair_names(final(v)@).to_set() == pair_names(old(v)@).to_set().insert((p.0@, p.1@)),
{
    let ghost old_names = pair_names(v@);
    let ghost pv = (p.0@, p.1@);
    let mut i: usize = 0;
    while i < v.len() && pair_name_lt(&v[i], &p)
        invariant
            i <= v.len(),
            v@ == old(v)@,
            old_names == pair_names(v@),
            pv == (p.0@, p.1@),
            pairs_strictly_sorted(old_names),
            forall|k: int| 0 <= k < i ==> pair_lt(#[trigger] old_names[k], pv),
        decreases v.len() - i,
    {
        i += 1;
    }
    if i < v.len() && v[i].0 == p.0 && v[i].1 == p.1 {
        assert(old_names[i as int] == pv);
        assert(old_names.to_set().insert(pv) =~= old_names.to_set());
        return;
    }
    proof {
        if i < v.len() {
            lemma_pair_total(pv, old_names[i as int]);
        }
    }
    v.insert(i, p);
    proof {
        let nn = pair_names(v@);
        assert(nn =~= old_names.insert(i as int, pv));
        assert forall|a: int, b: int| 0 <= a < b < nn.len() implies #[trigger] pair_lt(
            nn[a],
            nn[b],
        ) by {
            if b < i {
            } else if a < i && b == i {
            } else if a < i && b > i {
                if b - 1 > i {
                    assert(pair_lt(old_names[i as int], old_names[b - 1]));
                    lemma_pair_transitive(pv, old_names[i as int], old_names[b - 1]);
                }
                lemma_pair_transitive(old_names[a], pv, old_names[b - 1]);
            } else if a == i {
                if b - 1 > i {
                    assert(pair_lt(old_names[i as int], old_names[b - 1]));
                    lemma_pair_transitive(pv, old_names[i as int], old_names[b - 1]);
                }
            } else {
                assert(pair_lt(old_names[a - 1], old_names[b - 1]));
            }
        }
        assert forall|x: (Seq<char>, Seq<char>)| #[trigger] nn.to_set().contains(x)
            == old_names.to_set().insert(pv).contains(x) by {
            if nn.contains(x) {
                let k = choose|k: int| 0 <= k < nn.len() && nn[k] == x;
                if k < i {
                    assert(old_names[k] == x);
                } else if k > i {
                    assert(old_names[k - 1] == x);
                }
            }
            if old_names.contains(x) {
                let k = choose|k: int| 0 <= k < old_names.len() && old_names[k] == x;
                if k < i {
                    assert(nn[k] == x);
                } else {
                    assert(nn[k + 1] == x);
                }
            }
            if x == pv {
                assert(nn[i as int] == x);
            }
        }
        assert(nn.to_set() =~= old_names.to_set().insert(pv));
    }
}

} // verus!
