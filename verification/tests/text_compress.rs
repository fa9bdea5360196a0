use souls_lean::lean_vacuum::text_compress::{aggressive_compress, lightweight_cleanup};
use souls_lean::lean_vacuum::{compress_to_lean, read_size_check, MAX_READ_BYTES};

#[test]
fn text_compress_aggressive_compress_strips_rust_line_comments() {
    let raw = "fn main() {\n    // debug print\n    println!(\"hi\");\n}";
    let out = aggressive_compress(raw, Some("rs"));
    assert!(!out.contains("// debug print"), "comment not stripped: {out}");
    assert!(out.contains("fn main()"), "code lost: {out}");
}

#[test]
fn text_compress_aggressive_compress_strips_python_comments_but_preserves_shebang() {
    let raw = "#!/usr/bin/env python3\n# debug\nimport os\n";
    let out = aggressive_compress(raw, Some("py"));
    assert!(out.contains("#!/usr/bin/env python3"), "shebang lost: {out}");
    assert!(!out.contains("# debug"), "comment not stripped: {out}");
    assert!(out.contains("import os"));
}

#[test]
fn text_compress_aggressive_compress_strips_sql_comments() {
    let raw = "-- debug comment\nSELECT 2;\n";
    let out = aggressive_compress(raw, Some("sql"));
    assert!(!out.contains("-- debug comment"), "comment not stripped: {out}");
    assert!(out.contains("SELECT 2"), "code lost: {out}");
}

#[test]
fn text_compress_aggressive_compress_collapses_long_brace_runs() {
    let raw = "}\n}\n}\n}\n";
    let out = aggressive_compress(raw, Some("rs"));
    let line_count = out.lines().count();
    assert_eq!(line_count, 1, "expected 1 collapsed line, got {line_count}: {out}");
    assert!(out.contains("}}}}"), "expected 4-brace concatenation: {out}");
}

#[test]
fn text_compress_lightweight_cleanup_collapses_consecutive_blank_lines() {
    let raw = "a\n\n\n\n\nb";
    let out = lightweight_cleanup(raw);
    assert_eq!(out, "a\n\nb");
}

#[test]
fn text_compress_lightweight_cleanup_preserves_code_with_brace_run() {
    let raw = "fn a() {\n}\nfn b() {\n}\n";
    let out = lightweight_cleanup(raw);
    assert!(out.contains("fn a()"));
    assert!(out.contains("}"));
}

#[test]
fn compress_to_lean_removes_ansi_and_comments() {
    let raw = "\x1b[31mERROR\x1b[0m\n// debug print\nreal line\n";
    let out = compress_to_lean(raw, Some("rs"));
    assert!(!out.contains("\x1b[31m"), "ANSI should be stripped: {out}");
    assert!(!out.contains("// debug print"), "comment not stripped: {out}");
    assert!(out.contains("real line"), "code lost: {out}");
}

#[test]
fn aggressive_compress_exact_output_with_block_comment_and_braces() {
    let raw = "fn f() {\n  /* start\n  still comment */\n  let x = 1;\n  }\n}\n\n);\n";
    let out = aggressive_compress(raw, Some("rs"));
    assert_eq!(out, "fn f() {\n  let x = 1;\n}});");
}

#[test]
fn aggressive_compress_keeps_doc_comments_and_markup_blocks() {
    let out = aggressive_compress("/// doc\n<!-- c\nx -->\ny\n", Some("html"));
    assert_eq!(out, "/// doc\ny");
}

#[test]
fn aggressive_compress_hash_lines_kept_for_rust() {
    let out = aggressive_compress("# not a comment here\n", Some("rs"));
    assert_eq!(out, "# not a comment here");
}

#[test]
fn lightweight_cleanup_collapses_long_brace_run_in_long_text() {
    let mut raw = String::new();
    for i in 0..200 {
        raw.push_str(&format!("line {i}\n"));
    }
    for _ in 0..7 {
        raw.push_str("}\n");
    }
    let out = lightweight_cleanup(&raw);
    assert!(out.ends_with("line 199\n}\n}\n[5 brace-only lines collapsed]"), "{out}");
}

#[test]
fn lightweight_cleanup_keeps_crlf_free_lines_and_drops_trailing_blank() {
    assert_eq!(lightweight_cleanup("a\r\nb\r\n\r\n\r\nc"), "a\nb\n\nc");
    assert_eq!(lightweight_cleanup(""), "");
}

#[test]
fn read_size_check_refuses_files_over_five_megabytes() {
    assert_eq!(MAX_READ_BYTES, 5 * 1024 * 1024);
    assert!(read_size_check(0).is_ok());
    assert!(read_size_check(MAX_READ_BYTES).is_ok());
    assert_eq!(
        read_size_check(MAX_READ_BYTES + 1).unwrap_err(),
        "Arquivo excede o limite rígido de 5242880 bytes (5242881 bytes reais). O Saco a Vácuo nativo do SODA recusa payloads >5MB para proteger a VRAM."
    );
}
