use souls_lean::lean_vacuum::souls_symbol::{
    byte_offset_to_line_col, classify_kind, count_unbalanced_quotes, is_in_comment_or_string,
    is_valid_identifier, SymbolError, SymbolKind,
};

#[test]
fn is_valid_identifier_accepts_canonical_forms() {
    for s in ["TestCore", "_internal", "fn_name", "Class123", "def_func"] {
        assert!(is_valid_identifier(s), "{s} must be a valid identifier");
    }
}

#[test]
fn is_valid_identifier_rejects_invalid() {
    for s in ["", "1abc", "foo-bar", "foo bar", "foo.bar", "foo::bar"] {
        assert!(!is_valid_identifier(s), "{s} must be rejected");
    }
}

#[test]
fn is_in_comment_or_string_detects_line_comment() {
    let line = "// fn TargetCommented()";
    assert!(is_in_comment_or_string(line, 20));
}

#[test]
fn is_in_comment_or_string_detects_block_comment_same_line() {
    let line = "/* fn TargetCommented() */";
    assert!(is_in_comment_or_string(line, 10));
}

#[test]
fn is_in_comment_or_string_detects_string_literal() {
    let line = r#"let s = "fn Ghost"; foo"#;
    assert!(is_in_comment_or_string(line, 12));
}

#[test]
fn is_in_comment_or_string_allows_real_declaration() {
    let line = "fn TargetActive() {}";
    assert!(!is_in_comment_or_string(line, 4));
}

#[test]
fn is_in_comment_or_string_closed_block_and_quoted_slashes() {
    // The block closes before the match: code.
    assert!(!is_in_comment_or_string("/* x */ fn Real()", 11));
    // `//` inside a string is no comment.
    assert!(!is_in_comment_or_string(r#"let u = "//"; fn Real()"#, 17));
}

#[test]
fn classify_kind_distinguishes_struct_fn_class() {
    assert_eq!(classify_kind("pub struct TestCore;", "TestCore"), SymbolKind::Struct);
    assert_eq!(classify_kind("fn TargetActive() {}", "TargetActive"), SymbolKind::Fn);
    assert_eq!(classify_kind("class MyClass:", "MyClass"), SymbolKind::Class);
    assert_eq!(classify_kind("def my_func():", "my_func"), SymbolKind::Def);
}

#[test]
fn classify_kind_ignores_case_and_falls_back() {
    assert_eq!(classify_kind("STRUCT Foo", "foo"), SymbolKind::Struct);
    assert_eq!(classify_kind("let x = 1;", "x"), SymbolKind::Unknown);
}

#[test]
fn byte_offset_to_line_col_works_for_multiline() {
    let content = "line 0\nline 1 with Target\nline 2";
    let offset = content.find("Target").unwrap();
    let (line, col, _text) = byte_offset_to_line_col(content, offset);
    assert_eq!(line, 2, "Target on line 2 (1-indexed)");
    assert_eq!(col, 13, "column 13 after 'line 1 with '");
}

#[test]
fn byte_offset_to_line_col_returns_line_text() {
    let content = "a\r\nbb fn X\r\nc";
    let (line, col, text) = byte_offset_to_line_col(content, 6);
    assert_eq!((line, col), (2, 4));
    assert_eq!(text, "bb fn X");
    let (l0, c0, t0) = byte_offset_to_line_col("", 0);
    assert_eq!((l0, c0, t0.as_str()), (1, 1, ""));
}

#[test]
fn count_unbalanced_quotes_skips_escapes() {
    assert_eq!(count_unbalanced_quotes(r#"a "b" 'c' `d`"#), 6);
    assert_eq!(count_unbalanced_quotes(r#"\" \' x"#), 0);
    assert_eq!(count_unbalanced_quotes("\\"), 0);
}

#[test]
fn symbol_kind_names_and_error_messages() {
    assert_eq!(SymbolKind::Struct.as_str(), "struct");
    assert_eq!(SymbolKind::Fn.as_str(), "fn");
    assert_eq!(SymbolKind::Class.as_str(), "class");
    assert_eq!(SymbolKind::Def.as_str(), "def");
    assert_eq!(SymbolKind::Unknown.as_str(), "unknown");
    assert_eq!(SymbolError::InvalidInput("bad".to_string()).message(), "INVALID_INPUT: bad");
    assert_eq!(SymbolError::Io("disk".to_string()).message(), "IO_ERROR: disk");
}

use souls_lean::lean_vacuum::souls_symbol::resolve_symbol;

fn file(p: &str, c: &str) -> (String, String) {
    (p.to_string(), c.to_string())
}

#[test]
fn resolve_symbol_rejects_empty_name() {
    let err = resolve_symbol(&vec![], "").err().unwrap();
    assert!(matches!(err, SymbolError::InvalidInput(_)));
}

#[test]
fn resolve_symbol_rejects_invalid_identifier() {
    let err = resolve_symbol(&vec![], "1foo").err().unwrap();
    assert!(matches!(err, SymbolError::InvalidInput(_)));
}

#[test]
fn resolve_symbol_returns_none_for_empty_workspace() {
    let result = resolve_symbol(&vec![], "TestCore").ok().unwrap();
    assert!(result.is_none());
}

#[test]
fn resolve_symbol_skips_comments_and_strings() {
    let files = vec![
        file("a.rs", "// fn Target()\nlet s = \"fn Target\";\n"),
        file("b.rs", "mod x;\n  pub fn Target() {}\n"),
        file("c.rs", "fn Target() {}\n"),
    ];
    let loc = resolve_symbol(&files, "Target").ok().unwrap().unwrap();
    assert_eq!(loc.file, "b.rs");
    assert_eq!((loc.line, loc.col), (2, 7));
    assert_eq!(loc.kind, SymbolKind::Fn);
}

#[test]
fn resolve_symbol_reports_byte_columns() {
    let files = vec![file("é.py", "x = 'é'; def run():\n")];
    let loc = resolve_symbol(&files, "run").ok().unwrap().unwrap();
    assert_eq!((loc.line, loc.col), (1, 11));
    assert_eq!(loc.kind, SymbolKind::Def);
    let long = "a".repeat(257);
    match resolve_symbol(&vec![], &long).err().unwrap() {
        SymbolError::InvalidInput(m) => assert_eq!(m, "nome do símbolo excede 256 chars (257 recebidos)"),
        _ => panic!("expected invalid input"),
    }
}

#[test]
fn byte_offset_to_line_col_counts_bytes() {
    let content = "é\nxé T";
    let offset = content.find('T').unwrap();
    assert_eq!(offset, 7);
    let (line, col, text) = byte_offset_to_line_col(content, offset);
    assert_eq!(line, 2);
    assert_eq!(col, 5);
    assert_eq!(text, "xé T");
    let (l_end, c_end, t_end) = byte_offset_to_line_col(content, 100);
    assert_eq!((l_end, c_end, t_end.as_str()), (2, 98, "xé T"));
}

#[test]
fn is_in_comment_or_string_reads_byte_columns() {
    assert!(is_in_comment_or_string("é // x", 6));
    assert!(!is_in_comment_or_string("é fn x", 3));
    assert!(!is_in_comment_or_string("é // x", 3));
}
