//! The shape of a plain path: an optional leading `/` and non-empty
//! segments separated by single slashes, none of them `.` or `..`, none
//! holding a backslash or a colon. Every platform splits such a path the
//! same way, which lets contracts speak of its components.
use vstd::prelude::*;

verus! {

/// The scan behind splitting at `/`: the finished parts and the current one.
pub open spec fn slash_split_state(s: Seq<char>) -> (Seq<Seq<char>>, Seq<char>)
    decreases s.len(),
{
    if s.len() == 0 {
        (Seq::empty(), Seq::empty())
    } else {
        let st = slash_split_state(s.drop_last());
        if s.last() == '/' {
            (st.0.push(st.1), Seq::empty())
        } else {
            (st.0, st.1.push(s.last()))
        }
    }
}

/// `s.split('/')`: the parts between slashes, empty ones included.
pub open spec fn slash_parts(s: Seq<char>) -> Seq<Seq<char>> {
    slash_split_state(s).0.push(slash_split_state(s).1)
}

/// The path starts at the root.
pub open spec fn is_rooted(s: Seq<char>) -> bool {
    s.len() > 0 && s[0] == '/'
}

/// The segments of a path: the parts after the root slash, if any.
pub open spec fn path_segments(s: Seq<char>) -> Seq<Seq<char>> {
    if is_rooted(s) {
        slash_parts(s).drop_first()
    } else {
        slash_parts(s)
    }
}

/// A segment that every platform reads as one normal component.
pub open spec fn plain_segment(c: Seq<char>) -> bool {
    c.len() > 0 && c != seq!['.'] && c != seq!['.', '.'] && !c.contains('\\') && !c.contains(':')
}

/// A path made of an optional root and at least one plain segment.
pub open spec fn plain_path(s: Seq<char>) -> bool {
    path_segments(s).len() > 0 && forall|i: int|
        0 <= i < path_segments(s).len() ==> plain_segment(#[trigger] path_segments(s)[i])
}

/// The components of a plain path: `None` for the root, then each segment.
pub open spec fn plain_components(s: Seq<char>) -> Seq<Option<Seq<char>>> {
    (if is_rooted(s) {
        seq![None]
    } else {
        Seq::empty()
    }) + path_segments(s).map_values(|c: Seq<char>| Some(c))
}

/// What removing the plain path `root` from the front of the plain path
/// `file` leaves, component by component: the empty path when both are
/// the same, the text after `root` and its slash when `root`'s components
/// start `file`'s, else nothing.
pub open spec fn plain_strip(file: Seq<char>, root: Seq<char>) -> Option<Seq<char>> {
    let cf = plain_components(file);
    let cr = plain_components(root);
    if cr.len() <= cf.len() && cf.take(cr.len() as int) == cr {
        if cr.len() == cf.len() {
            Some(Seq::empty())
        } else {
            Some(file.skip(root.len() as int + 1))
        }
    } else {
        None
    }
}

} // verus!
