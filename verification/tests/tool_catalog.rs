use souls_lean::server::dispatch::route_tool;
use souls_lean::server::tools::{tool_catalog, ToolSpec, TOOL_COUNT};

fn find<'a>(tools: &'a [ToolSpec], name: &str) -> Option<&'a ToolSpec> {
    tools.iter().find(|t| t.name == name)
}

fn find_desc(tools: &[ToolSpec], name: &str) -> Option<String> {
    find(tools, name).map(|t| t.description.clone())
}

#[test]
fn tools_list_returns_unprefixed_names() {
    let tools = tool_catalog();
    let tool_names: Vec<&str> = tools.iter().map(|t| t.name.as_str()).collect();
    for n in [
        "get_ast", "read", "search", "tree", "outline", "sub_agent", "handoff", "knowledge", "fill", "multi_read",
        "headroom_retrieve", "session", "mem_create_entities", "mem_create_relations", "mem_add_observations",
        "mem_search", "mem_open_nodes", "mem_read_graph", "mem_delete_entities", "mem_delete_observations",
        "mem_delete_relations", "thinking",
    ] {
        assert!(tool_names.contains(&n), "{n} must be listed");
    }
    for n in ["souls_get_ast", "souls_read", "souls_multi_read", "souls_stub_fill", "souls_fill", "souls_impact", "ctx_impact"] {
        assert!(!tool_names.contains(&n), "{n} must not be listed");
    }
    assert!(!tool_names.iter().any(|n| n.starts_with("ctx_")));
    assert!(!tool_names.iter().any(|n| n.starts_with("tool_")));
    assert!(!tool_names.iter().any(|n| n.starts_with("mcp_")));
}

#[test]
fn test_tools_list_includes_headroom_retrieve() {
    let tools = tool_catalog();
    assert!(tools.iter().any(|t| t.name == "headroom_retrieve"));
}

#[test]
fn tools_list_respects_32_120_tetos() {
    let tools = tool_catalog();
    assert!(!tools.is_empty());
    for t in &tools {
        assert!(t.name.chars().count() <= 32, "{}", t.name);
        assert!(t.description.chars().count() <= 120, "{}", t.description);
    }
}

#[test]
fn tools_list_cura_3_falsos_verdes() {
    let tools = tool_catalog();
    let multi_read_desc = find_desc(&tools, "multi_read").expect("multi_read deve existir");
    assert!(!multi_read_desc.contains("not_implemented_yet"));
    assert!(multi_read_desc.contains("CCR lossless"));
    let shell_desc = find_desc(&tools, "shell").expect("shell deve existir");
    assert!(!shell_desc.contains("not_implemented_yet"));
    assert!(!shell_desc.contains("sandbox_audit_pending"));
    assert!(shell_desc.contains("Tokio"));
    let symbol_desc = find_desc(&tools, "symbol").expect("symbol deve existir");
    assert!(!symbol_desc.contains("not_implemented_yet"));
    assert!(!symbol_desc.contains("Pendente"));
    assert!(symbol_desc.contains("Regex") && symbol_desc.contains("Wasmtime"));
    for tool in ["callers", "callees", "metrics", "execute"] {
        let desc = find_desc(&tools, tool).expect("tool deve existir");
        assert!(!desc.contains("not_implemented_yet"), "{tool}");
    }
    let desc_execute = find_desc(&tools, "execute").expect("execute deve existir");
    assert!(!desc_execute.contains("not_implemented_yet"));
    assert!(!desc_execute.contains("sandbox_audit_pending"));
    for tool in ["get_ast", "fetch_web", "sys_time", "web_search", "repo_meta", "sqlite_query"] {
        let desc = find_desc(&tools, tool).expect("tool deve existir");
        assert!(!desc.contains("Cânone SOULS") && !desc.contains("Canone SOULS"), "{tool}");
    }
}

#[test]
fn tools_list_fill_unico_sem_duplicata() {
    let tools = tool_catalog();
    assert_eq!(tools.iter().filter(|t| t.name == "fill").count(), 1);
    assert_eq!(tools.iter().filter(|t| t.name == "souls_stub_fill").count(), 0);
}

#[test]
fn test_tools_list_includes_edit_and_replace() {
    let tools = tool_catalog();
    let edit = find(&tools, "edit").expect("tool 'edit' deve estar catalogada");
    assert_eq!(
        edit.description,
        "Aplica edições cirúrgicas baseadas em casamento exato de blocos (Search and Replace) com proteção de travamento."
    );
    assert_eq!(edit.description.chars().count(), 112);
    for a in ["path", "old_string", "new_string"] {
        assert!(edit.required.iter().any(|v| v == a));
    }
    assert!(edit.optional.iter().any(|v| v == "verify_ast"));
    let replace = find(&tools, "replace").expect("tool 'replace' deve estar catalogada");
    assert_eq!(
        replace.description,
        "Substitui blocos textuais extensos sob verificação sintática e com rollback atômico em caso de falha de TDD."
    );
    assert_eq!(replace.description.chars().count(), 108);
    for a in ["path", "old_string", "new_string"] {
        assert!(replace.required.iter().any(|v| v == a));
    }
    assert!(replace.optional.iter().any(|v| v == "verify_ast"));
}

#[test]
fn catalogue_names_are_unique_and_route() {
    let tools = tool_catalog();
    assert_eq!(tools.len(), TOOL_COUNT);
    for (i, a) in tools.iter().enumerate() {
        for b in &tools[i + 1..] {
            assert_ne!(a.name, b.name);
        }
        if a.name != "souls_summon_tool" {
            assert!(route_tool(&a.name).is_some(), "{} must route", a.name);
        }
    }
    assert!(route_tool("souls_summon_tool").is_none());
}
