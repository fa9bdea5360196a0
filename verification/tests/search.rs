use souls_lean::lean_vacuum::search::{format_lean_notation, SearchMatch};

#[test]
fn test_search_lean_notation_formatting() {
    let matches = vec![(
        "src-tauri/src/bin/souls_mcp_server.rs".to_string(),
        vec![
            SearchMatch { line_number: 42, line_text: "fn run_inference()".to_string() },
            SearchMatch {
                line_number: 112,
                line_text: "let gguf_meta = parse_gguf_metadata_zero_copy(model_path);".to_string(),
            },
            SearchMatch {
                line_number: 132,
                line_text: "let gguf_meta = parse_gguf_metadata_zero_copy(model_path);".to_string(),
            },
        ],
    )];

    let output = format_lean_notation(&matches);

    assert!(output.contains("@src-tauri/src/bin/souls_mcp_server.rs"));
    assert!(output.contains("L42: fn run_inference()"));
    assert!(output.contains("L112, L132: let gguf_meta = parse_gguf_metadata_zero_copy(model_path);"));
}

#[test]
fn format_lean_notation_exact_output() {
    let m = |n: usize, t: &str| SearchMatch { line_number: n, line_text: t.to_string() };
    let matches = vec![
        ("a.rs".to_string(), vec![m(1, "x"), m(2, "x"), m(3, "y"), m(9, "x")]),
        ("b.rs".to_string(), vec![m(7, "z")]),
    ];
    assert_eq!(format_lean_notation(&matches), "@a.rs\nL1, L2: x\nL3: y\nL9: x\n@b.rs\nL7: z");
    assert_eq!(format_lean_notation(&vec![]), "");
}

use souls_lean::lean_vacuum::search::{is_toxic_search_dir, match_lines, search_report};

#[test]
fn match_lines_numbers_and_trims_hits() {
    let found = match_lines("fn a() {}\n  let x = a();\nfn b() {}\n", r"fn \w+").ok().unwrap();
    let got: Vec<(usize, String)> = found.iter().map(|m| (m.line_number, m.line_text.clone())).collect();
    assert_eq!(got, vec![(1, "fn a() {}".to_string()), (3, "fn b() {}".to_string())]);
    let err = match_lines("x", "(").err().unwrap();
    assert!(err.starts_with("Regex inválida '(': "), "{err}");
}

#[test]
fn search_report_notes_empty_results() {
    assert_eq!(search_report("zz", &vec![]), "Nenhum resultado encontrado para a busca 'zz'.");
    let hits = vec![("a.rs".to_string(), vec![SearchMatch { line_number: 2, line_text: "x".into() }])];
    assert_eq!(search_report("x", &hits), "@a.rs\nL2: x");
}

#[test]
fn lean_search_skips_toxic_directories() {
    assert!(is_toxic_search_dir(".idea"));
    assert!(is_toxic_search_dir("target"));
    assert!(!is_toxic_search_dir("src"));
    assert!(!is_toxic_search_dir(".github"));
}
