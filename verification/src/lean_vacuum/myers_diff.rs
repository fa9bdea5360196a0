//! Line diffs: the changes between two texts as `+n: line` / `-n: line`
//! entries and a summary footer.
use vstd::prelude::*;
use similar::{ChangeTag, TextDiff};
use crate::text::{
    join, views, decimal, to_chars, from_chars, append_chars, push_str_chars, join_exec, decimal_exec,
    decimal_u128_exec, eq_str,
};

verus! {

/// The kind of a line change.
pub enum ChangeKind {
    Equal,
    Delete,
    Insert,
}

/// One line of a diff: its kind, its index in the old and in the new text,
/// and the line.
pub struct LineChange {
    pub kind: ChangeKind,
    pub old_index: Option<usize>,
    pub new_index: Option<usize>,
    pub value: String,
}

/// Counters of a diff.
pub struct MyersDiffStats {
    pub additions: usize,
    pub deletions: usize,
    pub unchanged: bool,
}

/// The view of a line change.
pub open spec fn change_view(c: LineChange) -> (ChangeKind, Option<usize>, Option<usize>, Seq<char>) {
    (c.kind, c.old_index, c.new_index, c.value@)
}

/// The views of a list of line changes.
pub open spec fn change_views(v: Seq<LineChange>) -> Seq<(ChangeKind, Option<usize>, Option<usize>, Seq<char>)> {
    v.map_values(|c: LineChange| change_view(c))
}

/// The line changes that `similar`'s Myers diff of the lines of `before`
/// and `after` reports, in order.
pub uninterp spec fn line_changes(before: Seq<char>, after: Seq<char>) -> Seq<
    (ChangeKind, Option<usize>, Option<usize>, Seq<char>),
>;

/// `similar::TextDiff::from_lines` and `iter_all_changes`, each change
/// copied out with its tag, indices and text. The contract names the
/// result: a function of the two texts.
#[verifier::external_body]
fn diff_lines(before: &str, after: &str) -> (r: Vec<LineChange>)
    ensures
        change_views(r@) == line_changes(before@, after@),
{
    TextDiff::from_lines(before, after).iter_all_changes().map(
        |c| LineChange {
            kind: match c.tag() {
                ChangeTag::Equal => ChangeKind::Equal,
                ChangeTag::Delete => ChangeKind::Delete,
                ChangeTag::Insert => ChangeKind::Insert,
            },
            old_index: c.old_index(),
            new_index: c.new_index(),
            value: c.value().to_string(),
        },
    ).collect()
}

/// `s` without its trailing line feeds (`trim_end_matches('\n')`).
pub open spec fn strip_newlines(s: Seq<char>) -> Seq<char>
    decreases s.len(),
{
    if s.len() > 0 && s.last() == '\n' {
        strip_newlines(s.drop_last())
    } else {
        s
    }
}

/// The entry of a change, if it has one: `+n: line` for an insertion,
/// `-n: line` for a deletion, `n` the new index (else the old one) plus one.
pub open spec fn change_entry(c: (ChangeKind, Option<usize>, Option<usize>, Seq<char>)) -> Option<Seq<char>> {
    let line_no = match c.2 {
        Some(i) => Some(i),
        None => c.1,
    };
    match c.0 {
        ChangeKind::Insert => match line_no {
            Some(i) => Some(seq!['+'] + decimal((i + 1) as nat) + seq![':', ' '] + strip_newlines(c.3)),
            None => None,
        },
        ChangeKind::Delete => match line_no {
            Some(i) => Some(seq!['-'] + decimal((i + 1) as nat) + seq![':', ' '] + strip_newlines(c.3)),
            None => None,
        },
        ChangeKind::Equal => None,
    }
}

/// The entries, additions and deletions of a list of changes.
pub open spec fn diff_fold(cs: Seq<(ChangeKind, Option<usize>, Option<usize>, Seq<char>)>) -> (Seq<Seq<char>>, nat, nat)
    decreases cs.len(),
{
    if cs.len() == 0 {
        (Seq::empty(), 0, 0)
    } else {
        let prev = diff_fold(cs.drop_last());
        let c = cs.last();
        let entries = match change_entry(c) {
            Some(e) => prev.0.push(e),
            None => prev.0,
        };
        (entries, prev.1 + (if c.0 is Insert {
            1nat
        } else {
            0nat
        }), prev.2 + (if c.0 is Delete {
            1nat
        } else {
            0nat
        }))
    }
}

/// The report of a list of changes and its counters: the entries and a
/// `diff +a/-d lines` footer after a blank line, or `(no changes)`.
pub open spec fn diff_report(cs: Seq<(ChangeKind, Option<usize>, Option<usize>, Seq<char>)>) -> (Seq<char>, nat, nat, bool) {
    let f = diff_fold(cs);
    if f.0.len() == 0 {
        ("(no changes)"@, 0, 0, true)
    } else {
        (
            join(f.0.push("\ndiff +"@ + decimal(f.1) + "/-"@ + decimal(f.2) + " lines"@), seq!['\n']),
            f.1,
            f.2,
            false,
        )
    }
}

/// The view of a report and its counters.
pub open spec fn report_view(r: (String, MyersDiffStats)) -> (Seq<char>, nat, nat, bool) {
    (r.0@, r.1.additions as nat, r.1.deletions as nat, r.1.unchanged)
}

fn strip_newlines_exec(s: &str) -> (r: Vec<char>)
    ensures
        r@ == strip_newlines(s@),
{
    let mut v = to_chars(s);
    while v.len() > 0 && v[v.len() - 1] == '\n'
        invariant
            strip_newlines(v@) == strip_newlines(s@),
        decreases v.len(),
    {
        v.pop();
    }
    v
}

/// The report of a list of line changes (see [`diff_report`]).
pub fn format_line_changes(changes: &Vec<LineChange>) -> (r: (String, MyersDiffStats))
    ensures
        report_view(r) == diff_report(change_views(changes@)),
{
    let ghost cv = change_views(changes@);
    let mut entries: Vec<Vec<char>> = Vec::new();
    let mut additions: usize = 0;
    let mut deletions: usize = 0;
    let mut i: usize = 0;
    while i < changes.len()
        invariant
            i <= changes.len(),
            cv == change_views(changes@),
            views(entries@) == diff_fold(cv.take(i as int)).0,
            additions as nat == diff_fold(cv.take(i as int)).1,
            deletions as nat == diff_fold(cv.take(i as int)).2,
            additions + deletions <= i,
        decreases changes.len() - i,
    {
        let c = &changes[i];
        proof {
            assert(cv.take(i + 1).drop_last() =~= cv.take(i as int));
            assert(cv.take(i + 1).last() == change_view(*c));
        }
        let line_no = match c.new_index {
            Some(k) => Some(k),
            None => c.old_index,
        };
        let ghost e0 = views(entries@);
        match c.kind {
            ChangeKind::Insert => {
                additions += 1;
                if let Some(n) = line_no {
                    let mut e: Vec<char> = Vec::new();
                    e.push('+');
                    append_chars(&mut e, &decimal_u128_exec(n as u128 + 1));
                    e.push(':');
                    e.push(' ');
                    append_chars(&mut e, &strip_newlines_exec(c.value.as_str()));
                    assert(e@ =~= change_entry(change_view(*c)).unwrap());
                    entries.push(e);
                    assert(views(entries@) =~= e0.push(e@));
                }
            },
            ChangeKind::Delete => {
                deletions += 1;
                if let Some(n) = line_no {
                    let mut e: Vec<char> = Vec::new();
                    e.push('-');
                    append_chars(&mut e, &decimal_u128_exec(n as u128 + 1));
                    e.push(':');
                    e.push(' ');
                    append_chars(&mut e, &strip_newlines_exec(c.value.as_str()));
                    assert(e@ =~= change_entry(change_view(*c)).unwrap());
                    entries.push(e);
                    assert(views(entries@) =~= e0.push(e@));
                }
            },
            ChangeKind::Equal => {},
        }
        i += 1;
    }
    assert(cv.take(changes.len() as int) =~= cv);
    if entries.len() == 0 {
        proof {
            reveal_strlit("(no changes)");
        }
        return ("(no changes)".to_owned(), MyersDiffStats { additions: 0, deletions: 0, unchanged: true });
    }
    let mut footer = to_chars("\ndiff +");
    append_chars(&mut footer, &decimal_exec(additions as u64));
    push_str_chars(&mut footer, "/-");
    append_chars(&mut footer, &decimal_exec(deletions as u64));
    push_str_chars(&mut footer, " lines");
    let ghost e0 = views(entries@);
    entries.push(footer);
    assert(views(entries@) =~= e0.push(footer@));
    let nl = vec!['\n'];
    assert(nl@ == seq!['\n']);
    (from_chars(&join_exec(&entries, &nl)), MyersDiffStats { additions, deletions, unchanged: false })
}

/// The report of two equal texts.
pub open spec fn unchanged_report() -> (Seq<char>, nat, nat, bool) {
    ("(no changes)"@, 0, 0, true)
}

/// The line diff of `before` and `after` with its counters: `(no changes)`
/// for equal texts, else the report of `similar`'s Myers diff of their
/// lines (see [`format_line_changes`]).
pub fn myers_diff_with_stats(before: &str, after: &str) -> (r: (String, MyersDiffStats))
    ensures
        report_view(r) == (if before@ == after@ {
            unchanged_report()
        } else {
            diff_report(line_changes(before@, after@))
        }),
{
    if eq_str(&to_chars(before), after) {
        return ("(no changes)".to_owned(), MyersDiffStats { additions: 0, deletions: 0, unchanged: true });
    }
    let changes = diff_lines(before, after);
    format_line_changes(&changes)
}

/// The line diff of `before` and `after` (see [`myers_diff_with_stats`]).
pub fn myers_diff(before: &str, after: &str) -> (r: String)
    ensures
        r@ == (if before@ == after@ {
            unchanged_report()
        } else {
            diff_report(line_changes(before@, after@))
        }).0,
{
    myers_diff_with_stats(before, after).0
}

} // verus!
