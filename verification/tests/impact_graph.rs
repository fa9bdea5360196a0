use souls_lean::ast::impact::{
    blast_radius, canonicalize_path, impact_report, relative_form_of, rust_file_imports, to_forward_slashes,
};
use souls_lean::ast::repo_impact::{
    bfs_reverse, repo_impact, repo_impact_from_ram, transpose_graph, RepoImpactError, DEFAULT_MAX_DEPTH,
    MAX_DEPTH_CEILING, MAX_FILES_SCAN,
};

fn s(x: &str) -> String {
    x.to_string()
}

fn entry(k: &str, vs: &[&str]) -> (String, Vec<String>) {
    (s(k), vs.iter().map(|v| s(v)).collect())
}

fn neighbours<'a>(g: &'a [(String, Vec<String>)], k: &str) -> Option<&'a Vec<String>> {
    g.iter().find(|e| e.0 == k).map(|e| &e.1)
}

#[test]
fn test_blast_radius_dag_bfs() {
    let graph = vec![entry("A.rs", &["B.rs"]), entry("B.rs", &["C.rs"]), entry("C.rs", &[])];

    let affected = blast_radius(&graph, "C.rs");
    assert_eq!(affected, vec!["B.rs".to_string(), "A.rs".to_string()]);

    let affected_a = blast_radius(&graph, "A.rs");
    assert!(affected_a.is_empty(), "A.rs has no importers");

    let affected_ghost = blast_radius(&graph, "ghost.rs");
    assert!(affected_ghost.is_empty());
}

#[test]
fn blast_radius_orders_by_depth_then_name_and_cuts_cycles() {
    // z and a import t directly; m imports z; t imports m (a cycle back).
    let graph = vec![
        entry("z.rs", &["t.rs"]),
        entry("a.rs", &["t.rs"]),
        entry("m.rs", &["z.rs"]),
        entry("t.rs", &["m.rs"]),
    ];
    assert_eq!(blast_radius(&graph, "t.rs"), vec![s("a.rs"), s("z.rs"), s("m.rs")]);
}

#[test]
fn impact_report_gives_max_depth() {
    let graph = vec![entry("A.rs", &["B.rs"]), entry("B.rs", &["C.rs"]), entry("C.rs", &[])];
    let r = impact_report(&graph, "C.rs");
    assert_eq!(r.target, "C.rs");
    assert_eq!(r.affected, vec![s("B.rs"), s("A.rs")]);
    assert_eq!(r.depth, 2);
    let leaf = impact_report(&graph, "A.rs");
    assert_eq!(leaf.depth, 0);
    assert!(leaf.affected.is_empty());
}

#[test]
fn canonicalize_path_strips_root_and_uses_forward_slashes() {
    assert_eq!(canonicalize_path("/repo", "/repo/src/lib.rs"), "src/lib.rs");
    assert_eq!(canonicalize_path("/other", "/repo/src/lib.rs"), "/repo/src/lib.rs");
    assert_eq!(to_forward_slashes("a\\b\\c.rs"), "a/b/c.rs");
    assert_eq!(relative_form_of("x\\y.rs", None), "x/y.rs");
    assert_eq!(relative_form_of("ignored", Some(s("p\\q.rs"))), "p/q.rs");
}

#[test]
fn unit_transpose_graph_inverts_edges() {
    let g = vec![entry("a.rs", &["b.rs"]), entry("c.rs", &["b.rs"])];
    let t = transpose_graph(&g);
    assert!(neighbours(&t, "b.rs").unwrap().contains(&s("a.rs")));
    assert!(neighbours(&t, "b.rs").unwrap().contains(&s("c.rs")));
}

#[test]
fn transpose_graph_sorts_keys_and_importers() {
    let g = vec![entry("z.rs", &["b.rs", "a.rs"]), entry("c.rs", &["b.rs"]), entry("y.rs", &[])];
    let t = transpose_graph(&g);
    assert_eq!(t, vec![entry("a.rs", &["z.rs"]), entry("b.rs", &["c.rs", "z.rs"])]);
}

#[test]
fn unit_bfs_reverse_cuts_cycle_in_o1() {
    // Transposed graph: a -> b, b -> a (a cycle).
    let t = vec![entry("a.rs", &["b.rs"]), entry("b.rs", &["a.rs"])];
    let (nodes, _edges, depth) = bfs_reverse(&t, "a.rs", 10);
    assert_eq!(nodes.len(), 1, "B appears exactly once (cycle deduplicated)");
    assert_eq!(depth, 1, "cycle cut at depth 1");
}

#[test]
fn bfs_reverse_respects_depth_and_records_edges() {
    // Transposed chain D <- C <- B <- A.
    let t = vec![entry("D.rs", &["C.rs"]), entry("C.rs", &["B.rs"]), entry("B.rs", &["A.rs"])];
    let (nodes, edges, depth) = bfs_reverse(&t, "D.rs", 1);
    assert_eq!(nodes, vec![s("C.rs")]);
    assert_eq!(depth, 1);
    // Edges reach one step past the depth: C -> D and B -> C.
    let pairs: Vec<(String, String)> = edges.iter().map(|e| (e.from.clone(), e.to.clone())).collect();
    assert_eq!(pairs, vec![(s("B.rs"), s("C.rs")), (s("C.rs"), s("D.rs"))]);
}

#[test]
fn repo_impact_chain_and_depth_clamp() {
    // A imports B, B imports C.
    let g = vec![entry("A.rs", &["B.rs"]), entry("B.rs", &["C.rs"]), entry("C.rs", &[])];
    let r = repo_impact(&g, "C.rs", 3);
    assert_eq!(r.target_file, "C.rs");
    assert_eq!(r.total_impacted_files, 2);
    assert_eq!(r.max_depth_reached, 2);
    assert_eq!(r.impact_graph.nodes, vec![s("A.rs"), s("B.rs")]);
    // Depth 0 is brought up to 1.
    let r1 = repo_impact(&g, "C.rs", 0);
    assert_eq!(r1.impact_graph.nodes, vec![s("B.rs")]);
    assert_eq!(r1.max_depth_reached, 1);
    assert_eq!(DEFAULT_MAX_DEPTH, 3);
    assert_eq!(MAX_DEPTH_CEILING, 10);
    assert_eq!(MAX_FILES_SCAN, 50_000);
}

#[test]
fn repo_impact_from_ram_collects_callers() {
    // Each entry: a node and its callers.
    let g = vec![entry("f", &["g", "h"]), entry("g", &["k"]), entry("k", &["f"])];
    let r = repo_impact_from_ram(&g, "f", 2);
    assert_eq!(r.target_file, "f");
    assert_eq!(r.impact_graph.nodes, vec![s("g"), s("h"), s("k")]);
    assert_eq!(r.total_impacted_files, 3);
    assert_eq!(r.max_depth_reached, 2);
    let pairs: Vec<(String, String)> =
        r.impact_graph.edges.iter().map(|e| (e.from.clone(), e.to.clone())).collect();
    assert_eq!(pairs, vec![(s("g"), s("f")), (s("h"), s("f")), (s("k"), s("g"))]);
    let wide = repo_impact_from_ram(&g, "a\\b", 200);
    assert_eq!(wide.target_file, "a/b");
    assert_eq!(wide.total_impacted_files, 0);
    assert_eq!(wide.max_depth_reached, 0);
}

#[test]
fn repo_impact_error_messages() {
    assert_eq!(RepoImpactError::InvalidPath(s("x")).message(), "caminho inválido: x");
    assert_eq!(RepoImpactError::TargetNotFound(s("y")).message(), "arquivo-alvo não encontrado: y");
    assert_eq!(RepoImpactError::Io(s("z")).message(), "falha de I/O ao varrer repositório: z");
}

#[test]
fn rust_file_imports_name_graph_keys() {
    let content = "use crate::cognition::lean_vacuum;\nmod routes;\n  use super::x;\nuse std::fmt;\n";
    assert_eq!(
        rust_file_imports(content),
        vec!["cognition/lean_vacuum.rs".to_string(), "routes.rs".to_string(), "x.rs".to_string()]
    );
    assert_eq!(rust_file_imports("use crate::a::b::;\n"), vec!["a/b.rs".to_string()]);
    assert!(rust_file_imports("fn main() {}").is_empty());
}

#[test]
fn repo_impact_from_ram_of_an_unknown_symbol_is_empty() {
    let g = vec![entry("f", &["g"])];
    let r = repo_impact_from_ram(&g, "zzz", 3);
    assert!(r.impact_graph.nodes.is_empty());
    assert!(r.impact_graph.edges.is_empty());
    assert_eq!(r.total_impacted_files, 0);
    assert_eq!(r.max_depth_reached, 0);
}
