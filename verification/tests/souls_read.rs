use souls_lean::context::souls_read::{
    aggressive_compress, collapse_brace_runs_only, compress_to_lean, is_brace_only, is_prose, lightweight_cleanup,
};

#[test]
fn souls_read_aggressive_compress_strips_rust_line_comments() {
    let raw = "fn main() {\n    // debug print\n    println!(\"hi\");\n}";
    let out = aggressive_compress(raw, Some("rs"));
    assert!(!out.contains("// debug print"), "comment not stripped: {out}");
    assert!(out.contains("fn main()"), "code lost: {out}");
}

#[test]
fn souls_read_aggressive_compress_strips_python_comments_but_preserves_shebang() {
    let raw = "#!/usr/bin/env python3\n# debug\nimport os\n";
    let out = aggressive_compress(raw, Some("py"));
    assert!(out.contains("#!/usr/bin/env python3"), "shebang lost: {out}");
    assert!(!out.contains("# debug"), "comment not stripped: {out}");
    assert!(out.contains("import os"));
}

#[test]
fn souls_read_aggressive_compress_strips_sql_comments() {
    let raw = "-- debug comment\nSELECT 2;\n";
    let out = aggressive_compress(raw, Some("sql"));
    assert!(!out.contains("-- debug comment"), "comment not stripped: {out}");
    assert!(out.contains("SELECT 2"), "code lost: {out}");
}

#[test]
fn souls_read_aggressive_compress_collapses_long_brace_runs() {
    let raw = "}\n}\n}\n}\n";
    let out = aggressive_compress(raw, Some("rs"));
    let line_count = out.lines().count();
    assert_eq!(line_count, 1, "expected 1 collapsed line, got {line_count}: {out}");
    assert!(out.contains("}}}}"), "expected 4-brace concatenation: {out}");
}

#[test]
fn souls_read_lightweight_cleanup_collapses_consecutive_blank_lines() {
    let raw = "a\n\n\n\n\nb";
    let out = lightweight_cleanup(raw);
    assert_eq!(out, "a\n\nb");
}

#[test]
fn souls_read_lightweight_cleanup_preserves_code_with_brace_run() {
    let raw = "fn a() {\n}\nfn b() {\n}\n";
    let out = lightweight_cleanup(raw);
    assert!(out.contains("fn a()"));
    assert!(out.contains("}"));
}

#[test]
fn aggressive_compress_preserves_markdown_headers() {
    let raw = "# Título\n## Subtítulo\n- item 1\n- item 2\n```rust\nfn main() {}\n```\n";
    let out = aggressive_compress(raw, Some("md"));
    assert!(out.contains("# Título"), "Cabeçalho H1 perdido: {out}");
    assert!(out.contains("## Subtítulo"), "Cabeçalho H2 perdido: {out}");
    assert!(out.contains("- item 1"), "Bullet perdido: {out}");
    assert!(out.contains("- item 2"), "Bullet perdido: {out}");
    assert!(out.contains("fn main()"), "Fenced code perdido: {out}");
}

#[test]
fn aggressive_compress_preserves_prose_with_none_ext() {
    let raw = "# Capítulo\n// nota de revisão\n- bullet point\n```\nbloco fenced\n```\n";
    let out = aggressive_compress(raw, None);
    assert!(out.contains("# Capítulo"), "H1 perdido: {out}");
    assert!(out.contains("// nota de revisão"), "// prosa strippada: {out}");
    assert!(out.contains("- bullet point"), "Bullet strippado: {out}");
    assert!(out.contains("bloco fenced"), "Fenced code perdido: {out}");
}

#[test]
fn aggressive_compress_preserves_markdown_alias() {
    let raw = "# H1\n- bullet\n// comment-style\n";
    let out = aggressive_compress(raw, Some("markdown"));
    assert!(out.contains("# H1"), "H1 perdido: {out}");
    assert!(out.contains("- bullet"), "Bullet perdido: {out}");
    assert!(out.contains("// comment-style"), "// perdido: {out}");
}

#[test]
fn aggressive_compress_still_strips_rust_when_ext_is_rs() {
    let raw = "// debug print\nfn main() {}\n/* block comment */\nlet x = 1;\n";
    let out = aggressive_compress(raw, Some("rs"));
    assert!(!out.contains("// debug print"), "Rust comment não strippado: {out}");
    assert!(!out.contains("/* block comment */"), "Rust block comment não strippado: {out}");
    assert!(out.contains("fn main()"), "Código Rust perdido: {out}");
    assert!(out.contains("let x = 1;"), "Código Rust perdido: {out}");
}

#[test]
fn prose_fence_exact_values() {
    assert!(is_prose(None));
    assert!(is_prose(Some("mdx")));
    assert!(!is_prose(Some("rs")));
    assert_eq!(collapse_brace_runs_only("# h\n\n}\n}\n"), "# h\n}}");
    assert_eq!(compress_to_lean("\x1b[1m# T\x1b[0m\n\n\n// keep\n", Some("md")), "# T\n// keep");
}

#[test]
fn brace_only_lines_are_closers() {
    assert!(is_brace_only("}"));
    assert!(is_brace_only("});"));
    assert!(is_brace_only(")};"));
    assert!(!is_brace_only(""));
    assert!(!is_brace_only("} else {"));
}

#[test]
fn code_compression_drops_comments_and_blank_lines() {
    let out = aggressive_compress("fn a() {\n    // note\n\n    x();\n}\n", Some("rs"));
    assert_eq!(out, "fn a() {\n    x();\n}");
}

#[test]
fn prose_compression_keeps_comments_in_order() {
    let out = aggressive_compress("# T\n\n// keep\n}}\n}\n", Some("md"));
    assert_eq!(out, "# T\n// keep\n}}}");
}

#[test]
fn small_cleanup_works_line_by_line() {
    assert_eq!(lightweight_cleanup("a\n   \n\n  }  \nb"), "a\n\n}\nb");
}
