//! The MCP request loop's decisions: what a JSON-RPC message asks for, and
//! which tool a `tools/call` name selects.
use vstd::prelude::*;
use dashmap::DashMap;
use crate::text::{to_chars, from_chars, append_chars, eq_str, decimal, decimal_exec};
use crate::host_cache::{session_entries, session_cache_len};
use crate::server::router::{normalized_tool_name, normalize_tool_name};
use crate::server::sqlite::{ToolError, error_view};

verus! {

/// What the server does with a JSON-RPC message.
#[derive(PartialEq, Eq, Structural, Debug)]
pub enum McpAction {
    /// No answer: a notification.
    Ignore,
    /// Answer with the server's capabilities.
    Initialize,
    /// Answer with an empty result.
    Ping,
    /// Answer with the list of tools.
    ListTools,
    /// Run a tool and answer with its result.
    CallTool,
    /// Answer that the method is unknown.
    UnknownMethod,
}

/// The action for a message with (or without) an id and this method (the
/// empty text when it has none): messages without an id other than
/// `notifications/initialized` get no answer, nor does that notification.
pub open spec fn mcp_action_of(has_id: bool, method: Seq<char>) -> McpAction {
    if !has_id && method != "notifications/initialized"@ {
        McpAction::Ignore
    } else if method == "initialize"@ {
        McpAction::Initialize
    } else if method == "notifications/initialized"@ {
        McpAction::Ignore
    } else if method == "ping"@ {
        McpAction::Ping
    } else if method == "tools/list"@ {
        McpAction::ListTools
    } else if method == "tools/call"@ {
        McpAction::CallTool
    } else {
        McpAction::UnknownMethod
    }
}

/// What the server does with a message.
pub fn mcp_action(has_id: bool, method: &str) -> (r: McpAction)
    ensures
        r == mcp_action_of(has_id, method@),
{
    let m = to_chars(method);
    if !has_id && !eq_str(&m, "notifications/initialized") {
        McpAction::Ignore
    } else if eq_str(&m, "initialize") {
        McpAction::Initialize
    } else if eq_str(&m, "notifications/initialized") {
        McpAction::Ignore
    } else if eq_str(&m, "ping") {
        McpAction::Ping
    } else if eq_str(&m, "tools/list") {
        McpAction::ListTools
    } else if eq_str(&m, "tools/call") {
        McpAction::CallTool
    } else {
        McpAction::UnknownMethod
    }
}

/// The error answered to an unknown method.
pub fn unknown_method_error(method: &str) -> (e: ToolError)
    ensures
        error_view(e) == (-32601i64, "Método MCP desconhecido: '"@ + method@ + "'"@),
{
    let mut m = to_chars("Método MCP desconhecido: '");
    append_chars(&mut m, &to_chars(method));
    append_chars(&mut m, &to_chars("'"));
    ToolError { code: -32601, message: from_chars(&m) }
}

/// The error answered when a tool runs past the time limit.
pub fn tool_timeout_error() -> (e: ToolError)
    ensures
        error_view(e) == (-32000i64, "Timeout de execução: ferramenta MCP excedeu o limite termodinâmico de 30 segundos no servidor souls_mcp"@),
{
    ToolError {
        code: -32000,
        message: from_chars(&to_chars("Timeout de execução: ferramenta MCP excedeu o limite termodinâmico de 30 segundos no servidor souls_mcp")),
    }
}

/// The error answered when a tool panicked.
pub fn tool_panic_error() -> (e: ToolError)
    ensures
        error_view(e) == (-32603i64, "Internal error: Tool panicked in worker thread"@),
{
    ToolError { code: -32603, message: from_chars(&to_chars("Internal error: Tool panicked in worker thread")) }
}

/// The error answered for a tool name that selects no tool.
pub fn unknown_tool_error() -> (e: ToolError)
    ensures
        error_view(e) == (-32601i64, "Ferramenta MCP desconhecida"@),
{
    ToolError { code: -32601, message: from_chars(&to_chars("Ferramenta MCP desconhecida")) }
}

/// The tools of the server.
#[derive(PartialEq, Eq, Structural, Debug, Clone, Copy)]
pub enum ToolId {
    RepoAst,
    WebFetch,
    SysTime,
    WebSearch,
    RepoMeta,
    DbQuery,
    SubAgent,
    Handoff,
    Knowledge,
    Edit,
    Replace,
    Fill,
    StubFill,
    Read,
    DeltaDiff,
    Tree,
    Outline,
    SmartRead,
    Search,
    Compress,
    Dedup,
    HeadroomRetrieve,
    Session,
    MultiRead,
    Symbol,
    Callers,
    Callees,
    ExportSession,
    AnalyzeSession,
    MergeSessions,
    SemanticSearch,
    Metrics,
    Intent,
    Execute,
    Shell,
    MemCreateEntities,
    MemCreateRelations,
    MemAddObservations,
    MemSearch,
    MemOpenNodes,
    MemReadGraph,
    MemDeleteEntities,
    MemDeleteObservations,
    MemDeleteRelations,
    Thinking,
    Heatmap,
    RepoHeatmap,
    RepoImpact,
    Routes,
    Feedback,
}

/// The tool a canonical name (see [`normalized_tool_name`]) selects, its
/// aliases included.
pub open spec fn tool_of(n: Seq<char>) -> Option<ToolId> {
    if n == "get_ast"@ || n == "repo_ast"@ {
        Some(ToolId::RepoAst)
    } else if n == "fetch_web"@ || n == "web_fetch"@ {
        Some(ToolId::WebFetch)
    } else if n == "sys_time"@ {
        Some(ToolId::SysTime)
    } else if n == "web_search"@ {
        Some(ToolId::WebSearch)
    } else if n == "repo_meta"@ {
        Some(ToolId::RepoMeta)
    } else if n == "sqlite_query"@ || n == "db_query"@ {
        Some(ToolId::DbQuery)
    } else if n == "sub_agent"@ {
        Some(ToolId::SubAgent)
    } else if n == "handoff"@ {
        Some(ToolId::Handoff)
    } else if n == "knowledge"@ {
        Some(ToolId::Knowledge)
    } else if n == "edit"@ {
        Some(ToolId::Edit)
    } else if n == "replace"@ {
        Some(ToolId::Replace)
    } else if n == "fill"@ || n == "ccr_fill"@ {
        Some(ToolId::Fill)
    } else if n == "stub_fill"@ {
        Some(ToolId::StubFill)
    } else if n == "read"@ {
        Some(ToolId::Read)
    } else if n == "delta_diff"@ || n == "delta"@ {
        Some(ToolId::DeltaDiff)
    } else if n == "tree"@ {
        Some(ToolId::Tree)
    } else if n == "outline"@ {
        Some(ToolId::Outline)
    } else if n == "smart_read"@ {
        Some(ToolId::SmartRead)
    } else if n == "search"@ {
        Some(ToolId::Search)
    } else if n == "compress"@ {
        Some(ToolId::Compress)
    } else if n == "dedup"@ {
        Some(ToolId::Dedup)
    } else if n == "headroom_retrieve"@ {
        Some(ToolId::HeadroomRetrieve)
    } else if n == "session"@ {
        Some(ToolId::Session)
    } else if n == "multi_read"@ {
        Some(ToolId::MultiRead)
    } else if n == "symbol"@ {
        Some(ToolId::Symbol)
    } else if n == "callers"@ {
        Some(ToolId::Callers)
    } else if n == "callees"@ {
        Some(ToolId::Callees)
    } else if n == "export_session"@ {
        Some(ToolId::ExportSession)
    } else if n == "analyze_session"@ {
        Some(ToolId::AnalyzeSession)
    } else if n == "merge_sessions"@ {
        Some(ToolId::MergeSessions)
    } else if n == "souls_semantic_search"@ || n == "semantic_search"@ {
        Some(ToolId::SemanticSearch)
    } else if n == "metrics"@ {
        Some(ToolId::Metrics)
    } else if n == "intent"@ {
        Some(ToolId::Intent)
    } else if n == "execute"@ {
        Some(ToolId::Execute)
    } else if n == "shell"@ {
        Some(ToolId::Shell)
    } else if n == "mem_create_entities"@ || n == "create_entities"@ {
        Some(ToolId::MemCreateEntities)
    } else if n == "mem_create_relations"@ || n == "create_relations"@ {
        Some(ToolId::MemCreateRelations)
    } else if n == "mem_add_observations"@ || n == "add_observations"@ {
        Some(ToolId::MemAddObservations)
    } else if n == "mem_search"@ || n == "search_graph"@ {
        Some(ToolId::MemSearch)
    } else if n == "mem_open_nodes"@ || n == "open_nodes"@ {
        Some(ToolId::MemOpenNodes)
    } else if n == "mem_read_graph"@ || n == "read_graph"@ {
        Some(ToolId::MemReadGraph)
    } else if n == "mem_delete_entities"@ || n == "delete_entities"@ {
        Some(ToolId::MemDeleteEntities)
    } else if n == "mem_delete_observations"@ || n == "delete_observations"@ {
        Some(ToolId::MemDeleteObservations)
    } else if n == "mem_delete_relations"@ || n == "delete_relations"@ {
        Some(ToolId::MemDeleteRelations)
    } else if n == "thinking"@ {
        Some(ToolId::Thinking)
    } else if n == "heatmap"@ {
        Some(ToolId::Heatmap)
    } else if n == "repo_heatmap"@ {
        Some(ToolId::RepoHeatmap)
    } else if n == "repo_impact"@ || n == "impact"@ {
        Some(ToolId::RepoImpact)
    } else if n == "routes"@ {
        Some(ToolId::Routes)
    } else if n == "feedback"@ {
        Some(ToolId::Feedback)
    } else {
        None
    }
}

fn tool_of_exec(n: &Vec<char>) -> (r: Option<ToolId>)
    ensures
        r == tool_of(n@),
{
    if eq_str(n, "get_ast") || eq_str(n, "repo_ast") {
        return Some(ToolId::RepoAst);
    }
    if eq_str(n, "fetch_web") || eq_str(n, "web_fetch") {
        return Some(ToolId::WebFetch);
    }
    if eq_str(n, "sys_time") {
        return Some(ToolId::SysTime);
    }
    if eq_str(n, "web_search") {
        return Some(ToolId::WebSearch);
    }
    if eq_str(n, "repo_meta") {
        return Some(ToolId::RepoMeta);
    }
    if eq_str(n, "sqlite_query") || eq_str(n, "db_query") {
        return Some(ToolId::DbQuery);
    }
    if eq_str(n, "sub_agent") {
        return Some(ToolId::SubAgent);
    }
    if eq_str(n, "handoff") {
        return Some(ToolId::Handoff);
    }
    if eq_str(n, "knowledge") {
        return Some(ToolId::Knowledge);
    }
    if eq_str(n, "edit") {
        return Some(ToolId::Edit);
    }
    if eq_str(n, "replace") {
        return Some(ToolId::Replace);
    }
    if eq_str(n, "fill") || eq_str(n, "ccr_fill") {
        return Some(ToolId::Fill);
    }
    if eq_str(n, "stub_fill") {
        return Some(ToolId::StubFill);
    }
    if eq_str(n, "read") {
        return Some(ToolId::Read);
    }
    if eq_str(n, "delta_diff") || eq_str(n, "delta") {
        return Some(ToolId::DeltaDiff);
    }
    if eq_str(n, "tree") {
        return Some(ToolId::Tree);
    }
    if eq_str(n, "outline") {
        return Some(ToolId::Outline);
    }
    if eq_str(n, "smart_read") {
        return Some(ToolId::SmartRead);
    }
    if eq_str(n, "search") {
        return Some(ToolId::Search);
    }
    if eq_str(n, "compress") {
        return Some(ToolId::Compress);
    }
    if eq_str(n, "dedup") {
        return Some(ToolId::Dedup);
    }
    if eq_str(n, "headroom_retrieve") {
        return Some(ToolId::HeadroomRetrieve);
    }
    if eq_str(n, "session") {
        return Some(ToolId::Session);
    }
    if eq_str(n, "multi_read") {
        return Some(ToolId::MultiRead);
    }
    if eq_str(n, "symbol") {
        return Some(ToolId::Symbol);
    }
    if eq_str(n, "callers") {
        return Some(ToolId::Callers);
    }
    if eq_str(n, "callees") {
        return Some(ToolId::Callees);
    }
    if eq_str(n, "export_session") {
        return Some(ToolId::ExportSession);
    }
    if eq_str(n, "analyze_session") {
        return Some(ToolId::AnalyzeSession);
    }
    if eq_str(n, "merge_sessions") {
        return Some(ToolId::MergeSessions);
    }
    if eq_str(n, "souls_semantic_search") || eq_str(n, "semantic_search") {
        return Some(ToolId::SemanticSearch);
    }
    if eq_str(n, "metrics") {
        return Some(ToolId::Metrics);
    }
    if eq_str(n, "intent") {
        return Some(ToolId::Intent);
    }
    if eq_str(n, "execute") {
        return Some(ToolId::Execute);
    }
    if eq_str(n, "shell") {
        return Some(ToolId::Shell);
    }
    if eq_str(n, "mem_create_entities") || eq_str(n, "create_entities") {
        return Some(ToolId::MemCreateEntities);
    }
    if eq_str(n, "mem_create_relations") || eq_str(n, "create_relations") {
        return Some(ToolId::MemCreateRelations);
    }
    if eq_str(n, "mem_add_observations") || eq_str(n, "add_observations") {
        return Some(ToolId::MemAddObservations);
    }
    if eq_str(n, "mem_search") || eq_str(n, "search_graph") {
        return Some(ToolId::MemSearch);
    }
    if eq_str(n, "mem_open_nodes") || eq_str(n, "open_nodes") {
        return Some(ToolId::MemOpenNodes);
    }
    if eq_str(n, "mem_read_graph") || eq_str(n, "read_graph") {
        return Some(ToolId::MemReadGraph);
    }
    if eq_str(n, "mem_delete_entities") || eq_str(n, "delete_entities") {
        return Some(ToolId::MemDeleteEntities);
    }
    if eq_str(n, "mem_delete_observations") || eq_str(n, "delete_observations") {
        return Some(ToolId::MemDeleteObservations);
    }
    if eq_str(n, "mem_delete_relations") || eq_str(n, "delete_relations") {
        return Some(ToolId::MemDeleteRelations);
    }
    if eq_str(n, "thinking") {
        return Some(ToolId::Thinking);
    }
    if eq_str(n, "heatmap") {
        return Some(ToolId::Heatmap);
    }
    if eq_str(n, "repo_heatmap") {
        return Some(ToolId::RepoHeatmap);
    }
    if eq_str(n, "repo_impact") || eq_str(n, "impact") {
        return Some(ToolId::RepoImpact);
    }
    if eq_str(n, "routes") {
        return Some(ToolId::Routes);
    }
    if eq_str(n, "feedback") {
        return Some(ToolId::Feedback);
    }
    None
}

/// The tool a `tools/call` name selects, once its prefixes are stripped
/// and its aliases resolved; `None` for an unknown tool.
pub fn route_tool(raw_name: &str) -> (r: Option<ToolId>)
    ensures
        r == tool_of(normalized_tool_name(raw_name@)),
{
    let n = normalize_tool_name(raw_name);
    tool_of_exec(&to_chars(n.as_str()))
}


/// What the `session` tool is asked to do.
#[derive(PartialEq, Eq, Structural, Debug, Clone, Copy)]
pub enum SessionAction {
    /// Empty the deduplication cache (`clear` or `reset`).
    Clear,
    /// Report how many blocks the cache holds (`status`, the default).
    Status,
    /// Anything else.
    Unknown,
}

/// The action a `session` request names.
pub open spec fn session_action_of(action: Seq<char>) -> SessionAction {
    if action == "clear"@ || action == "reset"@ {
        SessionAction::Clear
    } else if action == "status"@ {
        SessionAction::Status
    } else {
        SessionAction::Unknown
    }
}

/// The action a `session` request names.
pub fn session_action(action: &str) -> (r: SessionAction)
    ensures
        r == session_action_of(action@),
{
    let a = to_chars(action);
    if eq_str(&a, "clear") || eq_str(&a, "reset") {
        SessionAction::Clear
    } else if eq_str(&a, "status") {
        SessionAction::Status
    } else {
        SessionAction::Unknown
    }
}

/// The error answered to an unknown `session` action.
pub fn unknown_session_action_error(action: &str) -> (e: ToolError)
    ensures
        error_view(e) == (-32602i64, "Ação de sessão desconhecida '"@ + action@ + "'"@),
{
    let mut m = to_chars("Ação de sessão desconhecida '");
    append_chars(&mut m, &to_chars(action));
    append_chars(&mut m, &to_chars("'"));
    ToolError { code: -32602, message: from_chars(&m) }
}


/// The `session` status: how many blocks the deduplication cache holds,
/// and the sentence that reports it.
pub fn session_status(cache: &DashMap<u64, (String, usize, usize)>) -> (r: (String, usize))
    ensures
        r.1 == session_entries(*cache).dom().len(),
        r.0@ == "Sessão ativa. Elementos no cache de deduplicação: "@ + decimal(r.1 as nat),
{
    let n = session_cache_len(cache);
    let mut m = to_chars("Sessão ativa. Elementos no cache de deduplicação: ");
    append_chars(&mut m, &decimal_exec(n as u64));
    (from_chars(&m), n)
}

} // verus!
