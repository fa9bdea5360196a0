use souls_lean::lean_vacuum::myers_diff::{
    format_line_changes, myers_diff, myers_diff_with_stats, ChangeKind, LineChange,
};

#[test]
fn myers_diff_no_changes() {
    let out = myers_diff("a\nb\nc", "a\nb\nc");
    assert_eq!(out, "(no changes)");
}

#[test]
fn myers_diff_single_insertion() {
    let out = myers_diff("a\nb", "a\nx\nb");
    assert!(out.contains("+2: x"), "expected insertion marker, got: {out}");
    assert!(out.contains("+1/-0 lines"), "expected footer, got: {out}");
}

#[test]
fn myers_diff_deletion_and_insertion() {
    let out = myers_diff("a\nb\nc", "a\nX\nc");
    assert!(out.contains("-2: b"), "expected deletion marker, got: {out}");
    assert!(out.contains("+2: X"), "expected insertion marker, got: {out}");
    assert!(out.contains("+1/-1 lines"), "expected footer, got: {out}");
}

#[test]
fn myers_diff_with_stats_counts_correctly() {
    let (text, stats) = myers_diff_with_stats("a\nb\nc\nd", "a\nB\nc\nd\ne");
    assert!(!stats.unchanged, "should not be unchanged");
    assert!(stats.additions >= 1, "expected >=1 insert, got: {}", stats.additions);
    assert!(stats.deletions >= 1, "expected >=1 delete, got: {}", stats.deletions);
    assert!(text.contains("+"), "expected + marker: {text}");
    assert!(text.contains("-"), "expected - marker: {text}");
    assert!(text.contains("lines"), "expected footer: {text}");
}

#[test]
fn myers_diff_empty_strings() {
    assert_eq!(myers_diff("", ""), "(no changes)");
    assert_eq!(myers_diff("", "x"), "+1: x\n\ndiff +1/-0 lines");
}

#[test]
fn format_line_changes_exact_report() {
    let ch = |kind, o, n, v: &str| LineChange { kind, old_index: o, new_index: n, value: v.to_string() };
    let changes = vec![
        ch(ChangeKind::Equal, Some(0), Some(0), "a\n"),
        ch(ChangeKind::Delete, Some(1), None, "b\n"),
        ch(ChangeKind::Insert, None, Some(1), "B\n\n"),
    ];
    let (text, stats) = format_line_changes(&changes);
    assert_eq!(text, "-2: b\n+2: B\n\ndiff +1/-1 lines");
    assert_eq!((stats.additions, stats.deletions, stats.unchanged), (1, 1, false));
    let (t0, s0) = format_line_changes(&vec![ch(ChangeKind::Equal, Some(0), Some(0), "a")]);
    assert_eq!(t0, "(no changes)");
    assert!(s0.unchanged);
}
