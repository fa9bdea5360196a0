//! Compaction of command output: keep the error blocks and the summaries.
use vstd::prelude::*;
use crate::text::{
    contains, starts_with, trim, lines, join, views, to_chars, from_chars, lines_exec, join_exec, trim_chars,
    contains_exec, starts_with_exec,
};

verus! {

/// A line that opens or continues an error report.
pub open spec fn is_error_line(t: Seq<char>) -> bool {
    contains(t, "error:"@) || contains(t, "error[E"@) || contains(t, "FAILED"@) || contains(t, "panicked at"@)
        || contains(t, "stack backtrace:"@) || starts_with(t, "--> "@) || contains(t, ".rs:"@)
}

/// A line that closes an error block.
pub open spec fn ends_error_block(t: Seq<char>) -> bool {
    t.len() == 0 || starts_with(t, "warning:"@) || starts_with(t, "Compiling "@) || starts_with(t, "Finished "@)
}

/// A summary line, kept outside error blocks.
pub open spec fn is_summary_line(t: Seq<char>) -> bool {
    contains(t, "summary"@) || contains(t, "test result:"@)
}

/// The kept lines and whether an error block is open, after `ls`.
pub open spec fn log_fold(ls: Seq<Seq<char>>) -> (Seq<Seq<char>>, bool)
    decreases ls.len(),
{
    if ls.len() == 0 {
        (Seq::empty(), false)
    } else {
        let prev = log_fold(ls.drop_last());
        let line = ls.last();
        let t = trim(line);
        if is_error_line(t) {
            (prev.0.push(line), true)
        } else if prev.1 {
            if ends_error_block(t) {
                (prev.0, false)
            } else {
                (prev.0.push(line), true)
            }
        } else if is_summary_line(t) {
            (prev.0.push(line), false)
        } else {
            (prev.0, false)
        }
    }
}

/// What [`compress_cmd_logs`] returns: the kept lines joined by line feeds,
/// or, when none is kept, the last 20 lines.
pub open spec fn compress_cmd_logs_spec(raw: Seq<char>) -> Seq<char> {
    let ls = lines(raw);
    let kept = log_fold(ls).0;
    if kept.len() == 0 {
        join(ls.skip(if ls.len() > 20 { ls.len() - 20 } else { 0 }), seq!['\n'])
    } else {
        join(kept, seq!['\n'])
    }
}

/// Keeps the lines of command output that matter: error blocks (from a line
/// with `error:`, `error[E`, `FAILED`, `panicked at`, `stack backtrace:`, a
/// `--> ` location or a `.rs:` position, up to an empty, `warning:`,
/// `Compiling ` or `Finished ` line) and summary lines. With nothing kept,
/// the last 20 lines.
pub fn compress_cmd_logs(raw: &str) -> (r: String)
    ensures
        r@ == compress_cmd_logs_spec(raw@),
{
    let cs = to_chars(raw);
    let ls = lines_exec(&cs);
    let e1 = to_chars("error:");
    let e2 = to_chars("error[E");
    let e3 = to_chars("FAILED");
    let e4 = to_chars("panicked at");
    let e5 = to_chars("stack backtrace:");
    let e6 = to_chars("--> ");
    let e7 = to_chars(".rs:");
    let w1 = to_chars("warning:");
    let w2 = to_chars("Compiling ");
    let w3 = to_chars("Finished ");
    let s1 = to_chars("summary");
    let s2 = to_chars("test result:");
    let mut kept: Vec<Vec<char>> = Vec::new();
    let mut in_block = false;
    let mut i: usize = 0;
    while i < ls.len()
        invariant
            i <= ls.len(),
            views(ls@) == lines(raw@),
            e1@ == "error:"@,
            e2@ == "error[E"@,
            e3@ == "FAILED"@,
            e4@ == "panicked at"@,
            e5@ == "stack backtrace:"@,
            e6@ == "--> "@,
            e7@ == ".rs:"@,
            w1@ == "warning:"@,
            w2@ == "Compiling "@,
            w3@ == "Finished "@,
            s1@ == "summary"@,
            s2@ == "test result:"@,
            views(kept@) == log_fold(views(ls@).take(i as int)).0,
            in_block == log_fold(views(ls@).take(i as int)).1,
        decreases ls.len() - i,
    {
        let line = &ls[i];
        let t = trim_chars(line);
        proof {
            assert(views(ls@).take(i + 1).drop_last() =~= views(ls@).take(i as int));
            assert(views(ls@).take(i + 1).last() == line@);
        }
        let err = contains_exec(&t, &e1) || contains_exec(&t, &e2) || contains_exec(&t, &e3) || contains_exec(&t, &e4)
            || contains_exec(&t, &e5) || starts_with_exec(&t, &e6) || contains_exec(&t, &e7);
        let ghost kept0 = kept@;
        if err {
            in_block = true;
            kept.push(line.clone());
            assert(views(kept@) =~= views(kept0).push(line@));
        } else if in_block {
            let ends = t.len() == 0 || starts_with_exec(&t, &w1) || starts_with_exec(&t, &w2) || starts_with_exec(&t, &w3);
            if ends {
                in_block = false;
            } else {
                kept.push(line.clone());
                assert(views(kept@) =~= views(kept0).push(line@));
            }
        } else if contains_exec(&t, &s1) || contains_exec(&t, &s2) {
            kept.push(line.clone());
            assert(views(kept@) =~= views(kept0).push(line@));
        }
        i += 1;
    }
    assert(views(ls@).take(ls.len() as int) =~= views(ls@));
    let nl = vec!['\n'];
    assert(nl@ == seq!['\n']);
    if kept.len() == 0 {
        let start: usize = if ls.len() > 20 {
            ls.len() - 20
        } else {
            0
        };
        let mut tail: Vec<Vec<char>> = Vec::new();
        let mut k: usize = start;
        while k < ls.len()
            invariant
                start <= k <= ls.len(),
                views(tail@) == views(ls@).subrange(start as int, k as int),
            decreases ls.len() - k,
        {
            let ghost t0 = tail@;
            let c = ls[k].clone();
            assert(c@ =~= ls@[k as int]@);
            tail.push(c);
            assert(views(tail@) =~= views(t0).push(ls@[k as int]@));
            assert(views(tail@) =~= views(ls@).subrange(start as int, k + 1));
            k += 1;
        }
        assert(views(ls@).subrange(start as int, ls.len() as int) =~= views(ls@).skip(start as int));
        from_chars(&join_exec(&tail, &nl))
    } else {
        from_chars(&join_exec(&kept, &nl))
    }
}

} // verus!
