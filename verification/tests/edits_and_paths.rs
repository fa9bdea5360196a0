use souls_lean::server::edit::{plan_edit, replace_once_exec, require_old_string, EditRejection};
use souls_lean::server::firewall::{firewall_verdict, path_firewall, PathRejection};
use souls_lean::server::markdown::{format_dir_nodes, TreeNode};
use souls_lean::server::symbol_search::{is_skipped_by_symbol_walk, search_line_hits, symbol_line_hits};
use souls_lean::server::tree::{directory_node, file_node, is_hidden_tree_entry, sort_tree_nodes};

fn offsets(r: &Result<String, EditRejection>) -> Vec<usize> {
    match r {
        Err(EditRejection::Ambiguous(v)) => v.clone(),
        _ => panic!("expected an ambiguous edit"),
    }
}

#[test]
fn firewall_blocks_env_file() {
    let r = path_firewall(".env");
    match &r {
        Err(PathRejection::SensitiveName(n)) => assert_eq!(n, ".env"),
        _ => panic!("expected a sensitive name"),
    }
    let e = r.unwrap_err();
    assert_eq!(e.code(), -32602);
    assert_eq!(
        e.message(".env"),
        "Firewall de Caminhos: segmento sensivel '.env' no caminho bloqueado para edicao (L7)"
    );
}

#[test]
fn firewall_blocks_database_extension() {
    match path_firewall("malicious.db") {
        Err(PathRejection::SensitiveExtension(n)) => assert_eq!(n, "malicious.db"),
        _ => panic!("expected a sensitive extension"),
    }
}

#[test]
fn firewall_blocks_sensitive_directory_in_path() {
    match path_firewall("keys.db/inner.txt") {
        Err(PathRejection::SensitiveExtension(n)) => assert_eq!(n, "keys.db"),
        _ => panic!("expected a sensitive extension"),
    }
}

#[test]
fn firewall_compares_in_lower_case() {
    match path_firewall("home/ID_RSA") {
        Err(PathRejection::SensitiveName(n)) => assert_eq!(n, "ID_RSA"),
        _ => panic!("expected a sensitive name"),
    }
}

#[test]
fn firewall_blocks_traversal() {
    let r = path_firewall("src/../secrets.txt");
    assert!(matches!(r, Err(PathRejection::Traversal)));
    assert_eq!(
        r.unwrap_err().message("src/../secrets.txt"),
        "Directory traversal bloqueado pelo Firewall: src/../secrets.txt"
    );
}

#[test]
fn firewall_refuses_blank_path() {
    let r = path_firewall("   ");
    assert!(matches!(r, Err(PathRejection::Empty)));
    assert_eq!(r.unwrap_err().message("   "), "Caminho de arquivo não pode ser vazio");
}

#[test]
fn firewall_lets_source_files_through() {
    assert!(path_firewall("src/main.rs").is_ok());
    assert!(path_firewall("  docs/guide.md  ").is_ok());
}

#[test]
fn firewall_verdict_reads_the_given_components() {
    let comps = vec![None, Some("a".to_string()), Some(".ENV".to_string())];
    match firewall_verdict("/a/.ENV", &comps) {
        Err(PathRejection::SensitiveName(n)) => assert_eq!(n, ".ENV"),
        _ => panic!("expected a sensitive name"),
    }
    let clean = vec![Some("a".to_string()), Some("b.rs".to_string())];
    assert!(firewall_verdict("a/b.rs", &clean).is_ok());
}

#[test]
fn edit_replaces_single_occurrence() {
    assert_eq!(plan_edit("hello SOULS world", "SOULS", "SOULS").unwrap(), "hello SOULS world");
    assert_eq!(plan_edit("hello SOULS world", "SOULS", "Rust").unwrap(), "hello Rust world");
}

#[test]
fn edit_refuses_missing_text() {
    let r = plan_edit("foo bar baz", "NONEXISTENT", "REPLACED");
    assert!(matches!(r, Err(EditRejection::NotFound)));
    let e = r.unwrap_err();
    assert_eq!(e.code(), -32001);
    assert_eq!(
        e.message(),
        "old_string não encontrada no arquivo (0 correspondências). Edição cancelada (Fail-Closed)."
    );
}

#[test]
fn edit_refuses_ambiguous_text_with_positions() {
    let r = plan_edit("aXbXc", "X", "Y");
    assert_eq!(offsets(&r), vec![1, 3]);
    assert_eq!(
        r.unwrap_err().message(),
        "old_string ambígua; encontrada 2 vezes no arquivo nas posições [1, 3]. Edição cancelada (Fail-Closed)."
    );
}

#[test]
fn edit_positions_are_byte_offsets() {
    let r = plan_edit("éXéX", "X", "Y");
    assert_eq!(offsets(&r), vec![2, 5]);
}

#[test]
fn edit_occurrences_do_not_overlap() {
    assert_eq!(plan_edit("aaa", "aa", "b").unwrap(), "ba");
    assert_eq!(offsets(&plan_edit("aaaa", "aa", "b")), vec![0, 2]);
}

#[test]
fn edit_refuses_empty_old_string() {
    let r = plan_edit("abc", "", "x");
    assert!(matches!(r, Err(EditRejection::EmptyPattern)));
    let e = r.unwrap_err();
    assert_eq!(e.code(), -32602);
    assert_eq!(e.message(), "Parâmetro 'old_string' não pode ser vazio (Fail-Closed)");
    assert!(require_old_string("").is_err());
    assert!(require_old_string("x").is_ok());
}

#[test]
fn empty_marker_occurs_at_every_boundary() {
    assert_eq!(replace_once_exec("", "", "payload").unwrap(), "payload");
    assert_eq!(offsets(&replace_once_exec("ab", "", "x")), vec![0, 1, 2]);
}

#[test]
fn stub_fill_messages() {
    let missing = replace_once_exec("fn a() {}", "// STUB", "x").unwrap_err();
    assert_eq!(
        missing.stub_fill_message("lib.rs"),
        "Fail-Closed: stub_marker nao encontrado em lib.rs (0 correspondencias). Edicao cancelada."
    );
    let twice = replace_once_exec("S S", "S", "x").unwrap_err();
    assert_eq!(
        twice.stub_fill_message("lib.rs"),
        "Fail-Closed: stub_marker ambiguo em lib.rs (2 ocorrencias nas posicoes [0, 2]). Edicao cancelada."
    );
    assert_eq!(replace_once_exec("a // STUB b", "// STUB", "x()").unwrap(), "a x() b");
}

#[test]
fn tree_hides_build_and_dependency_directories() {
    assert!(is_hidden_tree_entry("target"));
    assert!(is_hidden_tree_entry("node_modules"));
    assert!(is_hidden_tree_entry(".git"));
    assert!(is_hidden_tree_entry(".souls_cache"));
    assert!(!is_hidden_tree_entry("src"));
    assert!(!is_hidden_tree_entry(".github"));
}

#[test]
fn tree_folds_lone_directories() {
    let c = directory_node("c".to_string(), vec![]);
    let b = directory_node("b".to_string(), vec![c]);
    let a = directory_node("a".to_string(), vec![b]);
    assert_eq!(a.name, "a/b/c");
    assert!(a.children.is_empty());
    let src_a = directory_node(
        "a".to_string(),
        sort_tree_nodes(vec![file_node("main.rs".to_string()), directory_node("b".to_string(), vec![])]),
    );
    let src = directory_node("src".to_string(), vec![src_a]);
    assert_eq!(src.name, "src/a");
    let out = format_dir_nodes(&sort_tree_nodes(vec![a, src]), "");
    assert_eq!(out, "├── a/b/c/\n└── src/a/\n    ├── b/\n    └── main.rs\n");
}

#[test]
fn tree_lists_directories_first_then_by_name() {
    let nodes: Vec<TreeNode> = vec![
        file_node("z.rs".to_string()),
        directory_node("b".to_string(), vec![file_node("x".to_string()), file_node("y".to_string())]),
        file_node("a.rs".to_string()),
        directory_node("a".to_string(), vec![]),
        file_node("B.rs".to_string()),
    ];
    let names: Vec<String> = sort_tree_nodes(nodes).into_iter().map(|n| n.name).collect();
    assert_eq!(names, vec!["a", "b", "B.rs", "a.rs", "z.rs"]);
}

#[test]
fn symbol_search_finds_whole_words() {
    let content = "fn foo() {}\nlet foobar = 1;\n  foo();\n";
    let hits = symbol_line_hits(content, "foo", 0);
    assert_eq!(hits, vec![(1, "fn foo() {}".to_string()), (3, "foo();".to_string())]);
}

#[test]
fn symbol_search_matches_the_symbol_literally() {
    let hits = symbol_line_hits("axb\na.b\n", "a.b", 0);
    assert_eq!(hits, vec![(2, "a.b".to_string())]);
}

#[test]
fn symbol_search_stops_at_the_limit() {
    let content = "x\nx\nx\n";
    assert_eq!(symbol_line_hits(content, "x", 0).len(), 3);
    assert_eq!(symbol_line_hits(content, "x", 48).len(), 2);
    assert_eq!(symbol_line_hits(content, "x", 49).len(), 1);
    assert_eq!(symbol_line_hits(content, "x", 60).len(), 1);
}

#[test]
fn symbol_walk_skips_hidden_and_build_directories() {
    assert!(is_skipped_by_symbol_walk(".git"));
    assert!(is_skipped_by_symbol_walk("target"));
    assert!(is_skipped_by_symbol_walk("node_modules"));
    assert!(!is_skipped_by_symbol_walk("src"));
}

#[test]
fn search_hits_follow_the_pattern() {
    let content = "alpha\n  foo bar\nbeta foooo\n";
    assert_eq!(
        search_line_hits(content, "fo+", 0),
        vec![(2, "foo bar".to_string()), (3, "beta foooo".to_string())]
    );
    assert!(search_line_hits(content, "(", 0).is_empty());
    assert_eq!(search_line_hits(content, "fo+", 99).len(), 1);
    assert_eq!(search_line_hits(content, "fo+", 98).len(), 2);
}

#[test]
fn edit_then_reverse_edit_restores_text() {
    let original = "fn a() { old_call(); }";
    let edited = plan_edit(original, "old_call", "new_call").unwrap();
    assert_eq!(edited, "fn a() { new_call(); }");
    assert_eq!(plan_edit(&edited, "new_call", "old_call").unwrap(), original);
}

#[test]
fn firewall_checks_every_level_and_traversal() {
    let comps = vec![Some("a".to_string()), Some("keys.PEM".to_string()), Some("x.txt".to_string())];
    match firewall_verdict("a/keys.PEM/x.txt", &comps) {
        Err(PathRejection::SensitiveExtension(n)) => assert_eq!(n, "keys.PEM"),
        _ => panic!("expected a sensitive extension"),
    }
    let up = vec![Some("a".to_string()), None, Some("b".to_string())];
    assert!(matches!(firewall_verdict("a/../b", &up), Err(PathRejection::Traversal)));
}
