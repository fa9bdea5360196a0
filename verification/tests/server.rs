use souls_lean::lean_vacuum::dedup::{new_session_cache, remember_block};
use souls_lean::server::dispatch::{session_action, session_status, unknown_session_action_error, SessionAction};
use souls_lean::server::dispatch::{mcp_action, route_tool, tool_panic_error, tool_timeout_error, unknown_method_error, unknown_tool_error, McpAction, ToolId};
use souls_lean::server::logs::compress_cmd_logs;
use souls_lean::server::markdown::{
    drift_detected, escape_markdown_cell, extract_rust_outline_signatures, format_dir_nodes,
    format_duckduckgo_results_markdown, format_time_markdown, DuckDuckGoItem, RepoDriftCandidate, TreeNode,
};
use souls_lean::server::router::normalize_tool_name;

#[test]
fn test_normalize_tool_name_triad_and_nesting() {
    assert_eq!(normalize_tool_name("souls_mcp.ctx_mem_search"), "mem_search");
    assert_eq!(normalize_tool_name("souls_mcp.souls_read"), "read");
    assert_eq!(normalize_tool_name("ctx_souls_delta_diff"), "delta_diff");
    assert_eq!(normalize_tool_name("souls_heatmap"), "heatmap");
    assert_eq!(normalize_tool_name("ctx_repo_heatmap"), "repo_heatmap");
    assert_eq!(normalize_tool_name("souls_repo_impact"), "repo_impact");
    assert_eq!(normalize_tool_name("ctx_repo_impact"), "repo_impact");
    assert_eq!(normalize_tool_name("read"), "read");
}

#[test]
fn test_normalize_tool_name_edit_replace_aliases() {
    assert_eq!(normalize_tool_name("souls_edit"), "edit");
    assert_eq!(normalize_tool_name("ctx_edit"), "edit");
    assert_eq!(normalize_tool_name("souls_mcp.edit"), "edit");
    assert_eq!(normalize_tool_name("edit"), "edit");
    assert_eq!(normalize_tool_name("souls_replace"), "replace");
    assert_eq!(normalize_tool_name("ctx_replace"), "replace");
    assert_eq!(normalize_tool_name("souls_mcp.replace"), "replace");
    assert_eq!(normalize_tool_name("replace"), "replace");
}

#[test]
fn normalize_tool_name_maps_thinking_aliases() {
    assert_eq!(normalize_tool_name("souls_core_think"), "thinking");
    assert_eq!(normalize_tool_name("sequential_thinking"), "thinking");
    assert_eq!(normalize_tool_name("ctx_sequentialthinking"), "thinking");
    assert_eq!(normalize_tool_name(""), "");
    assert_eq!(normalize_tool_name("souls_"), "");
}

#[test]
fn compress_cmd_logs_keeps_error_blocks_and_summaries() {
    let raw = "   Compiling foo v0.1.0\nerror[E0308]: mismatched types\n  --> src/lib.rs:3:5\n   |\n\nwarning: unused\ntest result: ok. 3 passed\nnoise";
    let out = compress_cmd_logs(raw);
    assert_eq!(
        out,
        "error[E0308]: mismatched types\n  --> src/lib.rs:3:5\n   |\ntest result: ok. 3 passed"
    );
}

#[test]
fn compress_cmd_logs_falls_back_to_last_20_lines() {
    let lines: Vec<String> = (1..=25).map(|i| format!("line {i}")).collect();
    let raw = lines.join("\n");
    let out = compress_cmd_logs(&raw);
    assert_eq!(out, lines[5..].join("\n"));
    assert_eq!(compress_cmd_logs(""), "");
}

#[test]
fn format_time_markdown_shows_epoch() {
    assert_eq!(
        format_time_markdown(1_700_000_000),
        "### Status Temporal do Sistema SOULS\n\n- **Epoch:** `1700000000` s\n- **Status:** Sincronizado nativamente via std::time"
    );
    assert!(format_time_markdown(-5).contains("`-5` s"));
}

#[test]
fn format_duckduckgo_results_markdown_lists_hits() {
    let items = vec![
        DuckDuckGoItem { title: "Rust".into(), url: "https://rust-lang.org".into(), snippet: "A language".into() },
        DuckDuckGoItem { title: "Verus".into(), url: "https://verus.rs".into(), snippet: String::new() },
    ];
    let out = format_duckduckgo_results_markdown("rust", &items);
    assert_eq!(
        out,
        "### Resultados da Busca Web (DuckDuckGo)\n\n**Query:** `rust`\n**Resultados:** 2\n\n\
1. **[Rust](https://rust-lang.org)**\n   - **URL:** `https://rust-lang.org`\n   - **Snippet:** A language\n\n\
2. **[Verus](https://verus.rs)**\n   - **URL:** `https://verus.rs`\n   - **Snippet:** Sem snippet disponível."
    );
    let empty = format_duckduckgo_results_markdown("q", &[]);
    assert_eq!(empty, "### Resultados da Busca Web (DuckDuckGo)\n\n**Query:** `q`\n**Resultados:** 0");
}

#[test]
fn escape_markdown_cell_is_single_line() {
    assert_eq!(escape_markdown_cell("a|b\r\nc"), "a\\|b c");
    assert_eq!(escape_markdown_cell(""), "");
}

#[test]
fn format_dir_nodes_draws_tree() {
    let nodes = vec![
        TreeNode {
            name: "src/cognition".into(),
            is_dir: true,
            children: vec![
                TreeNode { name: "mod.rs".into(), is_dir: false, children: vec![] },
                TreeNode { name: "lib.rs".into(), is_dir: false, children: vec![] },
            ],
        },
        TreeNode { name: "Cargo.toml".into(), is_dir: false, children: vec![] },
    ];
    let out = format_dir_nodes(&nodes, "");
    assert_eq!(
        out,
        "├── src/cognition/\n│   ├── mod.rs\n│   └── lib.rs\n└── Cargo.toml\n"
    );
    assert_eq!(format_dir_nodes(&[], "  "), "");
}

#[test]
fn extract_rust_outline_signatures_keeps_items_and_methods() {
    let code = "use std::fmt;\npub struct Foo {\n    x: u8,\n}\nimpl Foo {\n    pub fn new() -> Self { Foo { x: 0 } }\n    fn helper(&self) {\n    }\n}\nfn free() {}\n";
    assert_eq!(
        extract_rust_outline_signatures(code),
        "pub struct Foo {\nimpl Foo {\n    pub fn new() -> Self\n    fn helper(&self)"
    );
    assert_eq!(extract_rust_outline_signatures("a\nb"), "a\nb");
}

#[test]
fn drift_detected_compares_versions() {
    let c = RepoDriftCandidate { repo_url: "u".into(), repo_version: "v1".into(), online_version: None };
    assert!(drift_detected(&c, "v2"));
    assert!(!drift_detected(&c, "v1"));
}

#[test]
fn route_tool_resolves_prefixes_and_aliases() {
    assert_eq!(route_tool("souls_mcp.souls_read"), Some(ToolId::Read));
    assert_eq!(route_tool("ctx_delta"), Some(ToolId::DeltaDiff));
    assert_eq!(route_tool("sqlite_query"), Some(ToolId::DbQuery));
    assert_eq!(route_tool("souls_semantic_search"), Some(ToolId::SemanticSearch));
    assert_eq!(route_tool("sequential_thinking"), Some(ToolId::Thinking));
    assert_eq!(route_tool("create_entities"), Some(ToolId::MemCreateEntities));
    assert_eq!(route_tool("impact"), Some(ToolId::RepoImpact));
    assert_eq!(route_tool("nope"), None);
}

#[test]
fn mcp_action_classifies_messages() {
    assert_eq!(mcp_action(true, "initialize"), McpAction::Initialize);
    assert_eq!(mcp_action(true, "ping"), McpAction::Ping);
    assert_eq!(mcp_action(true, "tools/list"), McpAction::ListTools);
    assert_eq!(mcp_action(true, "tools/call"), McpAction::CallTool);
    assert_eq!(mcp_action(false, "tools/call"), McpAction::Ignore);
    assert_eq!(mcp_action(false, "notifications/initialized"), McpAction::Ignore);
    assert_eq!(mcp_action(true, "notifications/initialized"), McpAction::Ignore);
    assert_eq!(mcp_action(true, "resources/list"), McpAction::UnknownMethod);
    let e = unknown_method_error("resources/list");
    assert_eq!(e.code, -32601);
    assert_eq!(e.message, "Método MCP desconhecido: 'resources/list'");
    assert_eq!(unknown_tool_error().message, "Ferramenta MCP desconhecida");
    assert_eq!(tool_timeout_error().code, -32000);
    assert_eq!(tool_panic_error().code, -32603);
}

#[test]
fn session_tool_actions_and_status() {
    assert_eq!(session_action("clear"), SessionAction::Clear);
    assert_eq!(session_action("reset"), SessionAction::Clear);
    assert_eq!(session_action("status"), SessionAction::Status);
    assert_eq!(session_action("drop"), SessionAction::Unknown);
    assert_eq!(unknown_session_action_error("drop").message, "Ação de sessão desconhecida 'drop'");
    let mut cache = new_session_cache();
    assert_eq!(session_status(&cache), ("Sessão ativa. Elementos no cache de deduplicação: 0".to_string(), 0));
    remember_block(&mut cache, 7, "a.rs".to_string(), 1, 5);
    remember_block(&mut cache, 9, "b.rs".to_string(), 2, 6);
    assert_eq!(session_status(&cache).1, 2);
}

#[test]
fn escaped_cell_reads_back_with_line_breaks_flattened() {
    let r = escape_markdown_cell("a|b\nc\r");
    assert_eq!(r, "a\\|b c");
    assert_eq!(r.replace("\\|", "|"), "a|b\nc\r".replace('\n', " ").replace('\r', ""));
}
