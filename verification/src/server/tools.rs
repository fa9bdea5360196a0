//! The catalogue of tools the server offers: each tool's name, its one-line
//! description and the arguments it requires. Names are short, unique,
//! free of legacy prefixes, and each one but the late-binding
//! `souls_summon_tool` selects a tool of the dispatcher.
use vstd::prelude::*;
use crate::text::starts_with;
use crate::sorting::{lex_lt, lex_lt_at, names, lemma_lex_transitive, lemma_lex_irreflexive};
use crate::server::router::{normalized_tool_name, strip_tool_prefixes, mcp_prefix, souls_prefix, ctx_prefix};
use crate::server::dispatch::tool_of;

verus! {

/// One tool of the catalogue.
pub struct ToolSpec {
    /// The name a client calls it by.
    pub name: String,
    /// What it does, in one line.
    pub description: String,
    /// The arguments it cannot do without.
    pub required: Vec<String>,
    /// The arguments it also accepts.
    pub optional: Vec<String>,
}

/// The view of a tool: name, description, required and optional arguments.
pub open spec fn tool_view(t: ToolSpec) -> (Seq<char>, Seq<char>, Seq<Seq<char>>, Seq<Seq<char>>) {
    (t.name@, t.description@, names(t.required@), names(t.optional@))
}

/// The number of tools in the catalogue.
pub const TOOL_COUNT: usize = 51;


/// The catalogue, tool by tool.
pub open spec fn catalog() -> Seq<(Seq<char>, Seq<char>, Seq<Seq<char>>, Seq<Seq<char>>)> {
    catalog_chunk_0() + catalog_chunk_1() + catalog_chunk_2() + catalog_chunk_3() + catalog_chunk_4() + catalog_chunk_5() + catalog_chunk_6()
}

/// Tools 0 to 7 of the catalogue.
pub open spec fn catalog_chunk_0() -> Seq<(Seq<char>, Seq<char>, Seq<Seq<char>>, Seq<Seq<char>>)> {
    seq![
        ("analyze_session"@, "Processa as métricas comportamentais e de revisão de hipóteses socráticas de uma sessão na RAM."@, seq!["session_id"@], seq![]),
        ("callees"@, "Mapeia quais funções e structs são consumidos internamente pelo símbolo interrogado."@, seq!["name"@], seq![]),
        ("callers"@, "Lista os nós do grafo de dependências que invocam um determinado símbolo no workspace."@, seq!["name"@], seq![]),
        ("compress"@, "Aplica o compressor LEAN ao texto fornecido removendo comentários e reduzindo ruído. (souls_compress)"@, seq!["text"@], seq!["ext"@]),
        ("dedup"@, "Detecta e substitui blocos duplicados de 5 linhas consecutivas por marcadores de deduplicação. (souls_dedup)"@, seq!["text"@], seq![]),
        ("delta_diff"@, "Myers diff estrutural (transplantado do lean-ctx ctx_delta via crate similar)."@, seq!["before"@, "after"@], seq![]),
        ("edit"@, "Aplica edições cirúrgicas baseadas em casamento exato de blocos (Search and Replace) com proteção de travamento."@, seq!["path"@, "old_string"@, "new_string"@], seq!["verify_ast"@]),
        ("execute"@, "Execução isolada de comandos em Shadow Workspace sob jaula LPAC Win11 com Job Objects."@, seq!["command"@], seq!["args"@, "workspace_path"@, "timeout_secs"@]),
    ]
}

fn tools_chunk_0() -> (r: Vec<ToolSpec>)
    ensures
        r@.map_values(|t: ToolSpec| tool_view(t)) == catalog_chunk_0(),
{
    let r: Vec<ToolSpec> = vec![
        entry("analyze_session", "Processa as métricas comportamentais e de revisão de hipóteses socráticas de uma sessão na RAM.", vec!["session_id".to_owned()], vec![]),
        entry("callees", "Mapeia quais funções e structs são consumidos internamente pelo símbolo interrogado.", vec!["name".to_owned()], vec![]),
        entry("callers", "Lista os nós do grafo de dependências que invocam um determinado símbolo no workspace.", vec!["name".to_owned()], vec![]),
        entry("compress", "Aplica o compressor LEAN ao texto fornecido removendo comentários e reduzindo ruído. (souls_compress)", vec!["text".to_owned()], vec!["ext".to_owned()]),
        entry("dedup", "Detecta e substitui blocos duplicados de 5 linhas consecutivas por marcadores de deduplicação. (souls_dedup)", vec!["text".to_owned()], vec![]),
        entry("delta_diff", "Myers diff estrutural (transplantado do lean-ctx ctx_delta via crate similar).", vec!["before".to_owned(), "after".to_owned()], vec![]),
        entry("edit", "Aplica edições cirúrgicas baseadas em casamento exato de blocos (Search and Replace) com proteção de travamento.", vec!["path".to_owned(), "old_string".to_owned(), "new_string".to_owned()], vec!["verify_ast".to_owned()]),
        entry("execute", "Execução isolada de comandos em Shadow Workspace sob jaula LPAC Win11 com Job Objects.", vec!["command".to_owned()], vec!["args".to_owned(), "workspace_path".to_owned(), "timeout_secs".to_owned()]),
    ];
    assert(r@.map_values(|t: ToolSpec| tool_view(t)) =~~= catalog_chunk_0());
    r
}

/// Tools 8 to 15 of the catalogue.
pub open spec fn catalog_chunk_1() -> Seq<(Seq<char>, Seq<char>, Seq<Seq<char>>, Seq<Seq<char>>)> {
    seq![
        ("export_session"@, "Exporta a árvore relacional de pensamentos socráticos de uma sessão em formato estruturado (JSON/Markdown)."@, seq!["session_id"@, "format"@], seq![]),
        ("feedback"@, "Dumps FinOps de telemetria, latencia e eficiencia de token E3 a partir de logs locais de execucao."@, seq![], seq![]),
        ("fetch_web"@, "Busca URL com fallback duplo, retorna markdown limpo. Aliases: fetch_web | souls_fetch_web | web_fetch."@, seq!["url"@], seq![]),
        ("fill"@, "Reidrata e expande marcadores de compressão CCR de volta para o texto original lossless na RAM."@, seq![], seq!["text"@, "hash"@]),
        ("get_ast"@, "Extrai o blueprint AST via tree-sitter nativo. Aliases: get_ast | souls_get_ast | repo_ast."@, seq!["repo_path"@], seq![]),
        ("handoff"@, "Registra a transferência de contexto (handoff) entre subagentes no banco de estado L2 (souls_state.db)."@, seq!["handoff_id"@, "from_agent"@, "to_agent"@, "payload"@], seq!["status"@]),
        ("headroom_retrieve"@, "Recupera stub comprimido via CCR (intercept_loopback). Hash hex 16B/32ch. SSE Tokio < 1ms."@, seq!["hash"@], seq![]),
        ("heatmap"@, "Mapeia dinamicamente os caminhos quentes de acesso a arquivos locais na RAM Host usando Langevin decay."@, seq![], seq!["limit"@, "lambda"@]),
    ]
}

fn tools_chunk_1() -> (r: Vec<ToolSpec>)
    ensures
        r@.map_values(|t: ToolSpec| tool_view(t)) == catalog_chunk_1(),
{
    let r: Vec<ToolSpec> = vec![
        entry("export_session", "Exporta a árvore relacional de pensamentos socráticos de uma sessão em formato estruturado (JSON/Markdown).", vec!["session_id".to_owned(), "format".to_owned()], vec![]),
        entry("feedback", "Dumps FinOps de telemetria, latencia e eficiencia de token E3 a partir de logs locais de execucao.", vec![], vec![]),
        entry("fetch_web", "Busca URL com fallback duplo, retorna markdown limpo. Aliases: fetch_web | souls_fetch_web | web_fetch.", vec!["url".to_owned()], vec![]),
        entry("fill", "Reidrata e expande marcadores de compressão CCR de volta para o texto original lossless na RAM.", vec![], vec!["text".to_owned(), "hash".to_owned()]),
        entry("get_ast", "Extrai o blueprint AST via tree-sitter nativo. Aliases: get_ast | souls_get_ast | repo_ast.", vec!["repo_path".to_owned()], vec![]),
        entry("handoff", "Registra a transferência de contexto (handoff) entre subagentes no banco de estado L2 (souls_state.db).", vec!["handoff_id".to_owned(), "from_agent".to_owned(), "to_agent".to_owned(), "payload".to_owned()], vec!["status".to_owned()]),
        entry("headroom_retrieve", "Recupera stub comprimido via CCR (intercept_loopback). Hash hex 16B/32ch. SSE Tokio < 1ms.", vec!["hash".to_owned()], vec![]),
        entry("heatmap", "Mapeia dinamicamente os caminhos quentes de acesso a arquivos locais na RAM Host usando Langevin decay.", vec![], vec!["limit".to_owned(), "lambda".to_owned()]),
    ];
    assert(r@.map_values(|t: ToolSpec| tool_view(t)) =~~= catalog_chunk_1());
    r
}

/// Tools 16 to 23 of the catalogue.
pub open spec fn catalog_chunk_2() -> Seq<(Seq<char>, Seq<char>, Seq<Seq<char>>, Seq<Seq<char>>)> {
    seq![
        ("intent"@, "Avalia a ambiguidade, risco relacional e consistência de memória de um prompt antes do disparo de inferência."@, seq!["prompt"@], seq!["session_id"@, "memory_window"@]),
        ("knowledge"@, "Armazena ou atualiza uma entrada de conhecimento no banco de estado L2 (souls_state.db)."@, seq!["key"@, "category"@, "content"@], seq!["confidence"@]),
        ("mem_add_observations"@, "Anexa observações a entidades existentes. Triggers FTS5 mantêm observations_fts em sincronia."@, seq!["observations"@], seq![]),
        ("mem_create_entities"@, "Cria entidades no grafo cognitivo (souls_graph). Idempotente (INSERT OR IGNORE). Persistencia MPSC."@, seq!["entities"@], seq![]),
        ("mem_create_relations"@, "Cria relações direcionadas entre entidades (souls_graph). Idempotente."@, seq!["relations"@], seq![]),
        ("mem_delete_entities"@, "Remove entidades. CASCADE apaga relations e observations. Uso restrito (HITL recomendado)."@, seq!["entityNames"@], seq![]),
        ("mem_delete_observations"@, "Remove observações específicas (entity, content). Triggers FTS5 mantêm consistência."@, seq!["deletions"@], seq![]),
        ("mem_delete_relations"@, "Remove arestas do grafo."@, seq!["relations"@], seq![]),
    ]
}

fn tools_chunk_2() -> (r: Vec<ToolSpec>)
    ensures
        r@.map_values(|t: ToolSpec| tool_view(t)) == catalog_chunk_2(),
{
    let r: Vec<ToolSpec> = vec![
        entry("intent", "Avalia a ambiguidade, risco relacional e consistência de memória de um prompt antes do disparo de inferência.", vec!["prompt".to_owned()], vec!["session_id".to_owned(), "memory_window".to_owned()]),
        entry("knowledge", "Armazena ou atualiza uma entrada de conhecimento no banco de estado L2 (souls_state.db).", vec!["key".to_owned(), "category".to_owned(), "content".to_owned()], vec!["confidence".to_owned()]),
        entry("mem_add_observations", "Anexa observações a entidades existentes. Triggers FTS5 mantêm observations_fts em sincronia.", vec!["observations".to_owned()], vec![]),
        entry("mem_create_entities", "Cria entidades no grafo cognitivo (souls_graph). Idempotente (INSERT OR IGNORE). Persistencia MPSC.", vec!["entities".to_owned()], vec![]),
        entry("mem_create_relations", "Cria relações direcionadas entre entidades (souls_graph). Idempotente.", vec!["relations".to_owned()], vec![]),
        entry("mem_delete_entities", "Remove entidades. CASCADE apaga relations e observations. Uso restrito (HITL recomendado).", vec!["entityNames".to_owned()], vec![]),
        entry("mem_delete_observations", "Remove observações específicas (entity, content). Triggers FTS5 mantêm consistência.", vec!["deletions".to_owned()], vec![]),
        entry("mem_delete_relations", "Remove arestas do grafo.", vec!["relations".to_owned()], vec![]),
    ];
    assert(r@.map_values(|t: ToolSpec| tool_view(t)) =~~= catalog_chunk_2());
    r
}

/// Tools 24 to 31 of the catalogue.
pub open spec fn catalog_chunk_3() -> Seq<(Seq<char>, Seq<char>, Seq<Seq<char>>, Seq<Seq<char>>)> {
    seq![
        ("mem_open_nodes"@, "Abre entidades específicas por nome e hidrata observations via JOIN."@, seq!["names"@], seq![]),
        ("mem_read_graph"@, "Lê o grafo inteiro (entities + relations) com LIMIT defensivo (default: 500)."@, seq![], seq!["limit"@]),
        ("mem_search"@, "Busca FTS5 síncrona por MATCH em observations_fts. Retorna entidades distintas com metadata."@, seq!["query"@], seq!["limit"@]),
        ("merge_sessions"@, "Executa a fusão atômica de ramificações e fluxos de raciocínio concorrentes sob consistência eventual."@, seq!["source_session_id"@, "target_session_id"@], seq![]),
        ("metrics"@, "Consolida telemetria FinOps, tráfego de tokens, hit-rate do cache L2 e microdólares via telemetry_logs."@, seq![], seq![]),
        ("multi_read"@, "Lê múltiplos arquivos em lote na RAM de forma assíncrona aplicando compressão de contexto CCR lossless."@, seq!["paths"@], seq![]),
        ("outline"@, "Extrai assinaturas AST sem corpos de funções via sandbox Wasmtime WASI 0.2. (souls_outline)"@, seq!["file_path"@], seq![]),
        ("read"@, "Lê arquivo com TOON + SymbolMap (transplantado do lean-ctx ctx_read)."@, seq!["path"@], seq![]),
    ]
}

fn tools_chunk_3() -> (r: Vec<ToolSpec>)
    ensures
        r@.map_values(|t: ToolSpec| tool_view(t)) == catalog_chunk_3(),
{
    let r: Vec<ToolSpec> = vec![
        entry("mem_open_nodes", "Abre entidades específicas por nome e hidrata observations via JOIN.", vec!["names".to_owned()], vec![]),
        entry("mem_read_graph", "Lê o grafo inteiro (entities + relations) com LIMIT defensivo (default: 500).", vec![], vec!["limit".to_owned()]),
        entry("mem_search", "Busca FTS5 síncrona por MATCH em observations_fts. Retorna entidades distintas com metadata.", vec!["query".to_owned()], vec!["limit".to_owned()]),
        entry("merge_sessions", "Executa a fusão atômica de ramificações e fluxos de raciocínio concorrentes sob consistência eventual.", vec!["source_session_id".to_owned(), "target_session_id".to_owned()], vec![]),
        entry("metrics", "Consolida telemetria FinOps, tráfego de tokens, hit-rate do cache L2 e microdólares via telemetry_logs.", vec![], vec![]),
        entry("multi_read", "Lê múltiplos arquivos em lote na RAM de forma assíncrona aplicando compressão de contexto CCR lossless.", vec!["paths".to_owned()], vec![]),
        entry("outline", "Extrai assinaturas AST sem corpos de funções via sandbox Wasmtime WASI 0.2. (souls_outline)", vec!["file_path".to_owned()], vec![]),
        entry("read", "Lê arquivo com TOON + SymbolMap (transplantado do lean-ctx ctx_read).", vec!["path".to_owned()], vec![]),
    ];
    assert(r@.map_values(|t: ToolSpec| tool_view(t)) =~~= catalog_chunk_3());
    r
}

/// Tools 32 to 39 of the catalogue.
pub open spec fn catalog_chunk_4() -> Seq<(Seq<char>, Seq<char>, Seq<Seq<char>>, Seq<Seq<char>>)> {
    seq![
        ("replace"@, "Substitui blocos textuais extensos sob verificação sintática e com rollback atômico em caso de falha de TDD."@, seq!["path"@, "old_string"@, "new_string"@], seq!["verify_ast"@]),
        ("repo_heatmap"@, "Calcula o ranking de calor (Frecency) dos arquivos do monorepo baseando-se em modificacoes e acessos."@, seq![], seq!["repo_path"@, "limit"@, "lambda"@]),
        ("repo_impact"@, "Analisa o raio de impacto (Blast Radius) de alteracoes de arquivos via travessia reversa de dependencias."@, seq!["file_path"@], seq!["max_depth"@]),
        ("repo_meta"@, "Extrai metadados GitHub via octocrab para owner/repo. Aliases: repo_meta | souls_repo_meta."@, seq!["owner_repo"@], seq![]),
        ("routes"@, "Mapeia os contratos de endpoints ativos e a reatividade de comunicacao entre Tauri Rust e Svelte 5."@, seq![], seq!["repo_path"@]),
        ("search"@, "Busca textual compacta via regex com formatação LEAN agrupada por arquivo. (souls_search)"@, seq!["query"@], seq!["pattern"@, "path"@, "search_path"@, "max_depth"@]),
        ("semantic_search"@, "Busca híbrida local (FTS5 + LanceDB) usando fusão RRF de baixa latência e sanitização ontológica LadybugDB na RAM."@, seq!["query"@], seq!["limit"@, "stability_filter"@, "valid_from"@, "valid_to"@, "db_path"@, "vector_db_path"@]),
        ("session"@, "Gerencia o ciclo de vida da sessão SOULS/MCP e executa a limpeza/vacina de cache de RAM (souls_session)."@, seq![], seq!["action"@]),
    ]
}

fn tools_chunk_4() -> (r: Vec<ToolSpec>)
    ensures
        r@.map_values(|t: ToolSpec| tool_view(t)) == catalog_chunk_4(),
{
    let r: Vec<ToolSpec> = vec![
        entry("replace", "Substitui blocos textuais extensos sob verificação sintática e com rollback atômico em caso de falha de TDD.", vec!["path".to_owned(), "old_string".to_owned(), "new_string".to_owned()], vec!["verify_ast".to_owned()]),
        entry("repo_heatmap", "Calcula o ranking de calor (Frecency) dos arquivos do monorepo baseando-se em modificacoes e acessos.", vec![], vec!["repo_path".to_owned(), "limit".to_owned(), "lambda".to_owned()]),
        entry("repo_impact", "Analisa o raio de impacto (Blast Radius) de alteracoes de arquivos via travessia reversa de dependencias.", vec!["file_path".to_owned()], vec!["max_depth".to_owned()]),
        entry("repo_meta", "Extrai metadados GitHub via octocrab para owner/repo. Aliases: repo_meta | souls_repo_meta.", vec!["owner_repo".to_owned()], vec![]),
        entry("routes", "Mapeia os contratos de endpoints ativos e a reatividade de comunicacao entre Tauri Rust e Svelte 5.", vec![], vec!["repo_path".to_owned()]),
        entry("search", "Busca textual compacta via regex com formatação LEAN agrupada por arquivo. (souls_search)", vec!["query".to_owned()], vec!["pattern".to_owned(), "path".to_owned(), "search_path".to_owned(), "max_depth".to_owned()]),
        entry("semantic_search", "Busca híbrida local (FTS5 + LanceDB) usando fusão RRF de baixa latência e sanitização ontológica LadybugDB na RAM.", vec!["query".to_owned()], vec!["limit".to_owned(), "stability_filter".to_owned(), "valid_from".to_owned(), "valid_to".to_owned(), "db_path".to_owned(), "vector_db_path".to_owned()]),
        entry("session", "Gerencia o ciclo de vida da sessão SOULS/MCP e executa a limpeza/vacina de cache de RAM (souls_session).", vec![], vec!["action".to_owned()]),
    ];
    assert(r@.map_values(|t: ToolSpec| tool_view(t)) =~~= catalog_chunk_4());
    r
}

/// Tools 40 to 47 of the catalogue.
pub open spec fn catalog_chunk_5() -> Seq<(Seq<char>, Seq<char>, Seq<Seq<char>>, Seq<Seq<char>>)> {
    seq![
        ("shell"@, "Executa comandos de sistema assincronamente via Tokio com compressão e poda de logs de terminal."@, seq![], seq![]),
        ("smart_read"@, "Lê arquivo com medição prévia de tokens na CPU (tiktoken cl100k_base) e auto-shrink adaptativo. (souls_smart_read)"@, seq![], seq!["file_path"@, "path"@, "max_tokens_budget"@]),
        ("sqlite_query"@, "Consulta SQLite read-only nos bancos nativos. Aliases: sqlite_query | souls_sqlite_query | db_query."@, seq!["query"@], seq!["db_name"@]),
        ("stub_fill"@, "Preenche stubs de código demarcados em arquivos locais substituindo-os pelo código fornecido."@, seq!["path"@, "stub_marker"@, "code_payload"@], seq![]),
        ("sub_agent"@, "Registra ou atualiza o estado de um subagente no banco de estado L2 (souls_state.db)."@, seq!["agent_id"@, "task_name"@, "status"@], seq!["context_data"@]),
        ("souls_summon_tool"@, "Vincula dinamicamente esquemas JSON-RPC de garras adicionais no roteador MCP sob demanda."@, seq!["tool_name"@], seq![]),
        ("symbol"@, "Resolve localizacao fisica (file:line:col) via WalkDir+Regex+AST Wasmtime. (souls_symbol)"@, seq!["name"@], seq!["path"@]),
        ("sys_time"@, "Retorna data/hora local, UTC e fuso atual via chrono nativo. Aliases: sys_time | souls_sys_time."@, seq![], seq![]),
    ]
}

fn tools_chunk_5() -> (r: Vec<ToolSpec>)
    ensures
        r@.map_values(|t: ToolSpec| tool_view(t)) == catalog_chunk_5(),
{
    let r: Vec<ToolSpec> = vec![
        entry("shell", "Executa comandos de sistema assincronamente via Tokio com compressão e poda de logs de terminal.", vec![], vec![]),
        entry("smart_read", "Lê arquivo com medição prévia de tokens na CPU (tiktoken cl100k_base) e auto-shrink adaptativo. (souls_smart_read)", vec![], vec!["file_path".to_owned(), "path".to_owned(), "max_tokens_budget".to_owned()]),
        entry("sqlite_query", "Consulta SQLite read-only nos bancos nativos. Aliases: sqlite_query | souls_sqlite_query | db_query.", vec!["query".to_owned()], vec!["db_name".to_owned()]),
        entry("stub_fill", "Preenche stubs de código demarcados em arquivos locais substituindo-os pelo código fornecido.", vec!["path".to_owned(), "stub_marker".to_owned(), "code_payload".to_owned()], vec![]),
        entry("sub_agent", "Registra ou atualiza o estado de um subagente no banco de estado L2 (souls_state.db).", vec!["agent_id".to_owned(), "task_name".to_owned(), "status".to_owned()], vec!["context_data".to_owned()]),
        entry("souls_summon_tool", "Vincula dinamicamente esquemas JSON-RPC de garras adicionais no roteador MCP sob demanda.", vec!["tool_name".to_owned()], vec![]),
        entry("symbol", "Resolve localizacao fisica (file:line:col) via WalkDir+Regex+AST Wasmtime. (souls_symbol)", vec!["name".to_owned()], vec!["path".to_owned()]),
        entry("sys_time", "Retorna data/hora local, UTC e fuso atual via chrono nativo. Aliases: sys_time | souls_sys_time.", vec![], vec![]),
    ];
    assert(r@.map_values(|t: ToolSpec| tool_view(t)) =~~= catalog_chunk_5());
    r
}

/// Tools 48 to 50 of the catalogue.
pub open spec fn catalog_chunk_6() -> Seq<(Seq<char>, Seq<char>, Seq<Seq<char>>, Seq<Seq<char>>)> {
    seq![
        ("thinking"@, "Invoca o espaço de raciocínio socrático em múltiplos passos com auto-correção e ramificações de hipóteses."@, seq!["thought"@, "thoughtNumber"@, "totalThoughts"@, "nextThoughtNeeded"@], seq!["isRevision"@, "revisesThought"@, "branchFromThought"@, "branchId"@, "needsMoreThoughts"@, "hitlAuthorized"@]),
        ("tree"@, "Lente de diretórios não-bloqueante com Dot-Flattening estrito e exclusão de caminhos tóxicos. (souls_tree)"@, seq![], seq!["file_path"@, "depth"@]),
        ("web_search"@, "Busca web DuckDuckGo HTML, retorna titulos, links e snippets. Aliases: web_search | souls_web_search."@, seq!["query"@], seq!["max_results"@]),
    ]
}

fn tools_chunk_6() -> (r: Vec<ToolSpec>)
    ensures
        r@.map_values(|t: ToolSpec| tool_view(t)) == catalog_chunk_6(),
{
    let r: Vec<ToolSpec> = vec![
        entry("thinking", "Invoca o espaço de raciocínio socrático em múltiplos passos com auto-correção e ramificações de hipóteses.", vec!["thought".to_owned(), "thoughtNumber".to_owned(), "totalThoughts".to_owned(), "nextThoughtNeeded".to_owned()], vec!["isRevision".to_owned(), "revisesThought".to_owned(), "branchFromThought".to_owned(), "branchId".to_owned(), "needsMoreThoughts".to_owned(), "hitlAuthorized".to_owned()]),
        entry("tree", "Lente de diretórios não-bloqueante com Dot-Flattening estrito e exclusão de caminhos tóxicos. (souls_tree)", vec![], vec!["file_path".to_owned(), "depth".to_owned()]),
        entry("web_search", "Busca web DuckDuckGo HTML, retorna titulos, links e snippets. Aliases: web_search | souls_web_search.", vec!["query".to_owned()], vec!["max_results".to_owned()]),
    ];
    assert(r@.map_values(|t: ToolSpec| tool_view(t)) =~~= catalog_chunk_6());
    r
}


/// The name of the `i`-th tool.
pub open spec fn catalog_name(i: int) -> Seq<char> {
    catalog()[i].0
}

/// The description of the `i`-th tool.
pub open spec fn catalog_description(i: int) -> Seq<char> {
    catalog()[i].1
}

fn entry(name: &str, description: &str, required: Vec<String>, optional: Vec<String>) -> (t: ToolSpec)
    ensures
        t.name@ == name@,
        t.description@ == description@,
        t.required@ == required@,
        t.optional@ == optional@,
{
    ToolSpec { name: name.to_owned(), description: description.to_owned(), required, optional }
}

proof fn lemma_views_append(a: Seq<ToolSpec>, b: Seq<ToolSpec>)
    ensures
        (a + b).map_values(|t: ToolSpec| tool_view(t)) == a.map_values(|t: ToolSpec| tool_view(t)) + b.map_values(
            |t: ToolSpec| tool_view(t),
        ),
{
    assert((a + b).map_values(|t: ToolSpec| tool_view(t)) =~= a.map_values(|t: ToolSpec| tool_view(t)) + b.map_values(
        |t: ToolSpec| tool_view(t),
    ));
}

/// The tools the server lists, in the order it lists them. Every name is
/// at most 32 characters and every description at most 120; no two tools
/// share a name; no name starts with `ctx_`, `tool_` or `mcp_`; and every
/// name but `souls_summon_tool` selects a tool of [`tool_of`] once
/// normalised.
pub fn tool_catalog() -> (r: Vec<ToolSpec>)
    ensures
        r@.map_values(|t: ToolSpec| tool_view(t)) == catalog(),
        r.len() == TOOL_COUNT,
        forall|i: int| 0 <= i < r.len() ==> (#[trigger] r@[i]).name@.len() <= 32 && r@[i].description@.len() <= 120,
        forall|i: int, j: int| 0 <= i < j < r.len() ==> (#[trigger] r@[i]).name@ != (#[trigger] r@[j]).name@,
        forall|i: int|
            0 <= i < r.len() ==> !starts_with((#[trigger] r@[i]).name@, "ctx_"@) && !starts_with(r@[i].name@, "tool_"@)
                && !starts_with(r@[i].name@, "mcp_"@),
        forall|i: int|
            0 <= i < r.len() && (#[trigger] r@[i]).name@ != "souls_summon_tool"@ ==> tool_of(
                normalized_tool_name(r@[i].name@),
            ) is Some,
{
    let mut r: Vec<ToolSpec> = tools_chunk_0();
    let mut c1 = tools_chunk_1();
    proof {
        lemma_views_append(r@, c1@);
    }
    r.append(&mut c1);
    assert(r@.map_values(|t: ToolSpec| tool_view(t)) == catalog_chunk_0() + catalog_chunk_1());
    let mut c2 = tools_chunk_2();
    proof {
        lemma_views_append(r@, c2@);
    }
    r.append(&mut c2);
    assert(r@.map_values(|t: ToolSpec| tool_view(t)) == catalog_chunk_0() + catalog_chunk_1() + catalog_chunk_2());
    let mut c3 = tools_chunk_3();
    proof {
        lemma_views_append(r@, c3@);
    }
    r.append(&mut c3);
    assert(r@.map_values(|t: ToolSpec| tool_view(t)) == catalog_chunk_0() + catalog_chunk_1() + catalog_chunk_2() + catalog_chunk_3());
    let mut c4 = tools_chunk_4();
    proof {
        lemma_views_append(r@, c4@);
    }
    r.append(&mut c4);
    assert(r@.map_values(|t: ToolSpec| tool_view(t)) == catalog_chunk_0() + catalog_chunk_1() + catalog_chunk_2() + catalog_chunk_3() + catalog_chunk_4());
    let mut c5 = tools_chunk_5();
    proof {
        lemma_views_append(r@, c5@);
    }
    r.append(&mut c5);
    assert(r@.map_values(|t: ToolSpec| tool_view(t)) == catalog_chunk_0() + catalog_chunk_1() + catalog_chunk_2() + catalog_chunk_3() + catalog_chunk_4() + catalog_chunk_5());
    let mut c6 = tools_chunk_6();
    proof {
        lemma_views_append(r@, c6@);
    }
    r.append(&mut c6);
    assert(r@.map_values(|t: ToolSpec| tool_view(t)) == catalog_chunk_0() + catalog_chunk_1() + catalog_chunk_2() + catalog_chunk_3() + catalog_chunk_4() + catalog_chunk_5() + catalog_chunk_6());
    proof {
        assert forall|i: int| 0 <= i < r.len() implies #[trigger] r@[i].name@ == catalog_name(i)
            && r@[i].description@ == catalog_description(i) by {
            assert(r@.map_values(|t: ToolSpec| tool_view(t))[i] == tool_view(r@[i]));
        }
        law_catalog_lengths();
        law_catalog_names_distinct();
        law_catalog_no_legacy_prefix();
        law_catalog_names_route();
    }
    r
}

/// Every name of the catalogue is at most 32 characters, every
/// description at most 120.
pub proof fn law_catalog_lengths()
    ensures
        catalog().len() == TOOL_COUNT,
        forall|i: int| 0 <= i < TOOL_COUNT ==> (#[trigger] catalog_name(i)).len() <= 32 && catalog_description(i).len() <= 120,
{
    assert forall|i: int| 0 <= i < TOOL_COUNT implies (#[trigger] catalog_name(i)).len() <= 32
        && catalog_description(i).len() <= 120 by {

        if i == 0 {
            reveal_strlit("analyze_session");
            reveal_strlit("Processa as métricas comportamentais e de revisão de hipóteses socráticas de uma sessão na RAM.");
        } else if i == 1 {
            reveal_strlit("callees");
            reveal_strlit("Mapeia quais funções e structs são consumidos internamente pelo símbolo interrogado.");
        } else if i == 2 {
            reveal_strlit("callers");
            reveal_strlit("Lista os nós do grafo de dependências que invocam um determinado símbolo no workspace.");
        } else if i == 3 {
            reveal_strlit("compress");
            reveal_strlit("Aplica o compressor LEAN ao texto fornecido removendo comentários e reduzindo ruído. (souls_compress)");
        } else if i == 4 {
            reveal_strlit("dedup");
            reveal_strlit("Detecta e substitui blocos duplicados de 5 linhas consecutivas por marcadores de deduplicação. (souls_dedup)");
        } else if i == 5 {
            reveal_strlit("delta_diff");
            reveal_strlit("Myers diff estrutural (transplantado do lean-ctx ctx_delta via crate similar).");
        } else if i == 6 {
            reveal_strlit("edit");
            reveal_strlit("Aplica edições cirúrgicas baseadas em casamento exato de blocos (Search and Replace) com proteção de travamento.");
        } else if i == 7 {
            reveal_strlit("execute");
            reveal_strlit("Execução isolada de comandos em Shadow Workspace sob jaula LPAC Win11 com Job Objects.");
        } else if i == 8 {
            reveal_strlit("export_session");
            reveal_strlit("Exporta a árvore relacional de pensamentos socráticos de uma sessão em formato estruturado (JSON/Markdown).");
        } else if i == 9 {
            reveal_strlit("feedback");
            reveal_strlit("Dumps FinOps de telemetria, latencia e eficiencia de token E3 a partir de logs locais de execucao.");
        } else if i == 10 {
            reveal_strlit("fetch_web");
            reveal_strlit("Busca URL com fallback duplo, retorna markdown limpo. Aliases: fetch_web | souls_fetch_web | web_fetch.");
        } else if i == 11 {
            reveal_strlit("fill");
            reveal_strlit("Reidrata e expande marcadores de compressão CCR de volta para o texto original lossless na RAM.");
        } else if i == 12 {
            reveal_strlit("get_ast");
            reveal_strlit("Extrai o blueprint AST via tree-sitter nativo. Aliases: get_ast | souls_get_ast | repo_ast.");
        } else if i == 13 {
            reveal_strlit("handoff");
            reveal_strlit("Registra a transferência de contexto (handoff) entre subagentes no banco de estado L2 (souls_state.db).");
        } else if i == 14 {
            reveal_strlit("headroom_retrieve");
            reveal_strlit("Recupera stub comprimido via CCR (intercept_loopback). Hash hex 16B/32ch. SSE Tokio < 1ms.");
        } else if i == 15 {
            reveal_strlit("heatmap");
            reveal_strlit("Mapeia dinamicamente os caminhos quentes de acesso a arquivos locais na RAM Host usando Langevin decay.");
        } else if i == 16 {
            reveal_strlit("intent");
            reveal_strlit("Avalia a ambiguidade, risco relacional e consistência de memória de um prompt antes do disparo de inferência.");
        } else if i == 17 {
            reveal_strlit("knowledge");
            reveal_strlit("Armazena ou atualiza uma entrada de conhecimento no banco de estado L2 (souls_state.db).");
        } else if i == 18 {
            reveal_strlit("mem_add_observations");
            reveal_strlit("Anexa observações a entidades existentes. Triggers FTS5 mantêm observations_fts em sincronia.");
        } else if i == 19 {
            reveal_strlit("mem_create_entities");
            reveal_strlit("Cria entidades no grafo cognitivo (souls_graph). Idempotente (INSERT OR IGNORE). Persistencia MPSC.");
        } else if i == 20 {
            reveal_strlit("mem_create_relations");
            reveal_strlit("Cria relações direcionadas entre entidades (souls_graph). Idempotente.");
        } else if i == 21 {
            reveal_strlit("mem_delete_entities");
            reveal_strlit("Remove entidades. CASCADE apaga relations e observations. Uso restrito (HITL recomendado).");
        } else if i == 22 {
            reveal_strlit("mem_delete_observations");
            reveal_strlit("Remove observações específicas (entity, content). Triggers FTS5 mantêm consistência.");
        } else if i == 23 {
            reveal_strlit("mem_delete_relations");
            reveal_strlit("Remove arestas do grafo.");
        } else if i == 24 {
            reveal_strlit("mem_open_nodes");
            reveal_strlit("Abre entidades específicas por nome e hidrata observations via JOIN.");
        } else if i == 25 {
            reveal_strlit("mem_read_graph");
            reveal_strlit("Lê o grafo inteiro (entities + relations) com LIMIT defensivo (default: 500).");
        } else if i == 26 {
            reveal_strlit("mem_search");
            reveal_strlit("Busca FTS5 síncrona por MATCH em observations_fts. Retorna entidades distintas com metadata.");
        } else if i == 27 {
            reveal_strlit("merge_sessions");
            reveal_strlit("Executa a fusão atômica de ramificações e fluxos de raciocínio concorrentes sob consistência eventual.");
        } else if i == 28 {
            reveal_strlit("metrics");
            reveal_strlit("Consolida telemetria FinOps, tráfego de tokens, hit-rate do cache L2 e microdólares via telemetry_logs.");
        } else if i == 29 {
            reveal_strlit("multi_read");
            reveal_strlit("Lê múltiplos arquivos em lote na RAM de forma assíncrona aplicando compressão de contexto CCR lossless.");
        } else if i == 30 {
            reveal_strlit("outline");
            reveal_strlit("Extrai assinaturas AST sem corpos de funções via sandbox Wasmtime WASI 0.2. (souls_outline)");
        } else if i == 31 {
            reveal_strlit("read");
            reveal_strlit("Lê arquivo com TOON + SymbolMap (transplantado do lean-ctx ctx_read).");
        } else if i == 32 {
            reveal_strlit("replace");
            reveal_strlit("Substitui blocos textuais extensos sob verificação sintática e com rollback atômico em caso de falha de TDD.");
        } else if i == 33 {
            reveal_strlit("repo_heatmap");
            reveal_strlit("Calcula o ranking de calor (Frecency) dos arquivos do monorepo baseando-se em modificacoes e acessos.");
        } else if i == 34 {
            reveal_strlit("repo_impact");
            reveal_strlit("Analisa o raio de impacto (Blast Radius) de alteracoes de arquivos via travessia reversa de dependencias.");
        } else if i == 35 {
            reveal_strlit("repo_meta");
            reveal_strlit("Extrai metadados GitHub via octocrab para owner/repo. Aliases: repo_meta | souls_repo_meta.");
        } else if i == 36 {
            reveal_strlit("routes");
            reveal_strlit("Mapeia os contratos de endpoints ativos e a reatividade de comunicacao entre Tauri Rust e Svelte 5.");
        } else if i == 37 {
            reveal_strlit("search");
            reveal_strlit("Busca textual compacta via regex com formatação LEAN agrupada por arquivo. (souls_search)");
        } else if i == 38 {
            reveal_strlit("semantic_search");
            reveal_strlit("Busca híbrida local (FTS5 + LanceDB) usando fusão RRF de baixa latência e sanitização ontológica LadybugDB na RAM.");
        } else if i == 39 {
            reveal_strlit("session");
            reveal_strlit("Gerencia o ciclo de vida da sessão SOULS/MCP e executa a limpeza/vacina de cache de RAM (souls_session).");
        } else if i == 40 {
            reveal_strlit("shell");
            reveal_strlit("Executa comandos de sistema assincronamente via Tokio com compressão e poda de logs de terminal.");
        } else if i == 41 {
            reveal_strlit("smart_read");
            reveal_strlit("Lê arquivo com medição prévia de tokens na CPU (tiktoken cl100k_base) e auto-shrink adaptativo. (souls_smart_read)");
        } else if i == 42 {
            reveal_strlit("sqlite_query");
            reveal_strlit("Consulta SQLite read-only nos bancos nativos. Aliases: sqlite_query | souls_sqlite_query | db_query.");
        } else if i == 43 {
            reveal_strlit("stub_fill");
            reveal_strlit("Preenche stubs de código demarcados em arquivos locais substituindo-os pelo código fornecido.");
        } else if i == 44 {
            reveal_strlit("sub_agent");
            reveal_strlit("Registra ou atualiza o estado de um subagente no banco de estado L2 (souls_state.db).");
        } else if i == 45 {
            reveal_strlit("souls_summon_tool");
            reveal_strlit("Vincula dinamicamente esquemas JSON-RPC de garras adicionais no roteador MCP sob demanda.");
        } else if i == 46 {
            reveal_strlit("symbol");
            reveal_strlit("Resolve localizacao fisica (file:line:col) via WalkDir+Regex+AST Wasmtime. (souls_symbol)");
        } else if i == 47 {
            reveal_strlit("sys_time");
            reveal_strlit("Retorna data/hora local, UTC e fuso atual via chrono nativo. Aliases: sys_time | souls_sys_time.");
        } else if i == 48 {
            reveal_strlit("thinking");
            reveal_strlit("Invoca o espaço de raciocínio socrático em múltiplos passos com auto-correção e ramificações de hipóteses.");
        } else if i == 49 {
            reveal_strlit("tree");
            reveal_strlit("Lente de diretórios não-bloqueante com Dot-Flattening estrito e exclusão de caminhos tóxicos. (souls_tree)");
        } else if i == 50 {
            reveal_strlit("web_search");
            reveal_strlit("Busca web DuckDuckGo HTML, retorna titulos, links e snippets. Aliases: web_search | souls_web_search.");
        }
    }
}

proof fn lemma_not_starts_with(s: Seq<char>, p: Seq<char>, k: int)
    requires
        0 <= k < p.len(),
        k < s.len() ==> s[k] != p[k],
    ensures
        !starts_with(s, p),
{
    if starts_with(s, p) {
        assert(s.subrange(0, p.len() as int)[k] == s[k]);
    }
}

/// No name of the catalogue carries a legacy prefix: `ctx_`, `tool_` or `mcp_`.
pub proof fn law_catalog_no_legacy_prefix()
    ensures
        forall|i: int|
            0 <= i < TOOL_COUNT ==> !starts_with(#[trigger] catalog_name(i), "ctx_"@) && !starts_with(catalog_name(i), "tool_"@)
                && !starts_with(catalog_name(i), "mcp_"@),
{
    reveal_strlit("ctx_");
    reveal_strlit("tool_");
    reveal_strlit("mcp_");
    assert forall|i: int| 0 <= i < TOOL_COUNT implies !starts_with(#[trigger] catalog_name(i), "ctx_"@) && !starts_with(
        catalog_name(i),
        "tool_"@,
    ) && !starts_with(catalog_name(i), "mcp_"@) by {

        if i == 0 {
            reveal_strlit("analyze_session");
            lemma_not_starts_with(catalog_name(0), "ctx_"@, 0);
            lemma_not_starts_with(catalog_name(0), "tool_"@, 0);
            lemma_not_starts_with(catalog_name(0), "mcp_"@, 0);
        } else if i == 1 {
            reveal_strlit("callees");
            lemma_not_starts_with(catalog_name(1), "ctx_"@, 1);
            lemma_not_starts_with(catalog_name(1), "tool_"@, 0);
            lemma_not_starts_with(catalog_name(1), "mcp_"@, 0);
        } else if i == 2 {
            reveal_strlit("callers");
            lemma_not_starts_with(catalog_name(2), "ctx_"@, 1);
            lemma_not_starts_with(catalog_name(2), "tool_"@, 0);
            lemma_not_starts_with(catalog_name(2), "mcp_"@, 0);
        } else if i == 3 {
            reveal_strlit("compress");
            lemma_not_starts_with(catalog_name(3), "ctx_"@, 1);
            lemma_not_starts_with(catalog_name(3), "tool_"@, 0);
            lemma_not_starts_with(catalog_name(3), "mcp_"@, 0);
        } else if i == 4 {
            reveal_strlit("dedup");
            lemma_not_starts_with(catalog_name(4), "ctx_"@, 0);
            lemma_not_starts_with(catalog_name(4), "tool_"@, 0);
            lemma_not_starts_with(catalog_name(4), "mcp_"@, 0);
        } else if i == 5 {
            reveal_strlit("delta_diff");
            lemma_not_starts_with(catalog_name(5), "ctx_"@, 0);
            lemma_not_starts_with(catalog_name(5), "tool_"@, 0);
            lemma_not_starts_with(catalog_name(5), "mcp_"@, 0);
        } else if i == 6 {
            reveal_strlit("edit");
            lemma_not_starts_with(catalog_name(6), "ctx_"@, 0);
            lemma_not_starts_with(catalog_name(6), "tool_"@, 0);
            lemma_not_starts_with(catalog_name(6), "mcp_"@, 0);
        } else if i == 7 {
            reveal_strlit("execute");
            lemma_not_starts_with(catalog_name(7), "ctx_"@, 0);
            lemma_not_starts_with(catalog_name(7), "tool_"@, 0);
            lemma_not_starts_with(catalog_name(7), "mcp_"@, 0);
        } else if i == 8 {
            reveal_strlit("export_session");
            lemma_not_starts_with(catalog_name(8), "ctx_"@, 0);
            lemma_not_starts_with(catalog_name(8), "tool_"@, 0);
            lemma_not_starts_with(catalog_name(8), "mcp_"@, 0);
        } else if i == 9 {
            reveal_strlit("feedback");
            lemma_not_starts_with(catalog_name(9), "ctx_"@, 0);
            lemma_not_starts_with(catalog_name(9), "tool_"@, 0);
            lemma_not_starts_with(catalog_name(9), "mcp_"@, 0);
        } else if i == 10 {
            reveal_strlit("fetch_web");
            lemma_not_starts_with(catalog_name(10), "ctx_"@, 0);
            lemma_not_starts_with(catalog_name(10), "tool_"@, 0);
            lemma_not_starts_with(catalog_name(10), "mcp_"@, 0);
        } else if i == 11 {
            reveal_strlit("fill");
            lemma_not_starts_with(catalog_name(11), "ctx_"@, 0);
            lemma_not_starts_with(catalog_name(11), "tool_"@, 0);
            lemma_not_starts_with(catalog_name(11), "mcp_"@, 0);
        } else if i == 12 {
            reveal_strlit("get_ast");
            lemma_not_starts_with(catalog_name(12), "ctx_"@, 0);
            lemma_not_starts_with(catalog_name(12), "tool_"@, 0);
            lemma_not_starts_with(catalog_name(12), "mcp_"@, 0);
        } else if i == 13 {
            reveal_strlit("handoff");
            lemma_not_starts_with(catalog_name(13), "ctx_"@, 0);
            lemma_not_starts_with(catalog_name(13), "tool_"@, 0);
            lemma_not_starts_with(catalog_name(13), "mcp_"@, 0);
        } else if i == 14 {
            reveal_strlit("headroom_retrieve");
            lemma_not_starts_with(catalog_name(14), "ctx_"@, 0);
            lemma_not_starts_with(catalog_name(14), "tool_"@, 0);
            lemma_not_starts_with(catalog_name(14), "mcp_"@, 0);
        } else if i == 15 {
            reveal_strlit("heatmap");
            lemma_not_starts_with(catalog_name(15), "ctx_"@, 0);
            lemma_not_starts_with(catalog_name(15), "tool_"@, 0);
            lemma_not_starts_with(catalog_name(15), "mcp_"@, 0);
        } else if i == 16 {
            reveal_strlit("intent");
            lemma_not_starts_with(catalog_name(16), "ctx_"@, 0);
            lemma_not_starts_with(catalog_name(16), "tool_"@, 0);
            lemma_not_starts_with(catalog_name(16), "mcp_"@, 0);
        } else if i == 17 {
            reveal_strlit("knowledge");
            lemma_not_starts_with(catalog_name(17), "ctx_"@, 0);
            lemma_not_starts_with(catalog_name(17), "tool_"@, 0);
            lemma_not_starts_with(catalog_name(17), "mcp_"@, 0);
        } else if i == 18 {
            reveal_strlit("mem_add_observations");
            lemma_not_starts_with(catalog_name(18), "ctx_"@, 0);
            lemma_not_starts_with(catalog_name(18), "tool_"@, 0);
            lemma_not_starts_with(catalog_name(18), "mcp_"@, 1);
        } else if i == 19 {
            reveal_strlit("mem_create_entities");
            lemma_not_starts_with(catalog_name(19), "ctx_"@, 0);
            lemma_not_starts_with(catalog_name(19), "tool_"@, 0);
            lemma_not_starts_with(catalog_name(19), "mcp_"@, 1);
        } else if i == 20 {
            reveal_strlit("mem_create_relations");
            lemma_not_starts_with(catalog_name(20), "ctx_"@, 0);
            lemma_not_starts_with(catalog_name(20), "tool_"@, 0);
            lemma_not_starts_with(catalog_name(20), "mcp_"@, 1);
        } else if i == 21 {
            reveal_strlit("mem_delete_entities");
            lemma_not_starts_with(catalog_name(21), "ctx_"@, 0);
            lemma_not_starts_with(catalog_name(21), "tool_"@, 0);
            lemma_not_starts_with(catalog_name(21), "mcp_"@, 1);
        } else if i == 22 {
            reveal_strlit("mem_delete_observations");
            lemma_not_starts_with(catalog_name(22), "ctx_"@, 0);
            lemma_not_starts_with(catalog_name(22), "tool_"@, 0);
            lemma_not_starts_with(catalog_name(22), "mcp_"@, 1);
        } else if i == 23 {
            reveal_strlit("mem_delete_relations");
            lemma_not_starts_with(catalog_name(23), "ctx_"@, 0);
            lemma_not_starts_with(catalog_name(23), "tool_"@, 0);
            lemma_not_starts_with(catalog_name(23), "mcp_"@, 1);
        } else if i == 24 {
            reveal_strlit("mem_open_nodes");
            lemma_not_starts_with(catalog_name(24), "ctx_"@, 0);
            lemma_not_starts_with(catalog_name(24), "tool_"@, 0);
            lemma_not_starts_with(catalog_name(24), "mcp_"@, 1);
        } else if i == 25 {
            reveal_strlit("mem_read_graph");
            lemma_not_starts_with(catalog_name(25), "ctx_"@, 0);
            lemma_not_starts_with(catalog_name(25), "tool_"@, 0);
            lemma_not_starts_with(catalog_name(25), "mcp_"@, 1);
        } else if i == 26 {
            reveal_strlit("mem_search");
            lemma_not_starts_with(catalog_name(26), "ctx_"@, 0);
            lemma_not_starts_with(catalog_name(26), "tool_"@, 0);
            lemma_not_starts_with(catalog_name(26), "mcp_"@, 1);
        } else if i == 27 {
            reveal_strlit("merge_sessions");
            lemma_not_starts_with(catalog_name(27), "ctx_"@, 0);
            lemma_not_starts_with(catalog_name(27), "tool_"@, 0);
            lemma_not_starts_with(catalog_name(27), "mcp_"@, 1);
        } else if i == 28 {
            reveal_strlit("metrics");
            lemma_not_starts_with(catalog_name(28), "ctx_"@, 0);
            lemma_not_starts_with(catalog_name(28), "tool_"@, 0);
            lemma_not_starts_with(catalog_name(28), "mcp_"@, 1);
        } else if i == 29 {
            reveal_strlit("multi_read");
            lemma_not_starts_with(catalog_name(29), "ctx_"@, 0);
            lemma_not_starts_with(catalog_name(29), "tool_"@, 0);
            lemma_not_starts_with(catalog_name(29), "mcp_"@, 1);
        } else if i == 30 {
            reveal_strlit("outline");
            lemma_not_starts_with(catalog_name(30), "ctx_"@, 0);
            lemma_not_starts_with(catalog_name(30), "tool_"@, 0);
            lemma_not_starts_with(catalog_name(30), "mcp_"@, 0);
        } else if i == 31 {
            reveal_strlit("read");
            lemma_not_starts_with(catalog_name(31), "ctx_"@, 0);
            lemma_not_starts_with(catalog_name(31), "tool_"@, 0);
            lemma_not_starts_with(catalog_name(31), "mcp_"@, 0);
        } else if i == 32 {
            reveal_strlit("replace");
            lemma_not_starts_with(catalog_name(32), "ctx_"@, 0);
            lemma_not_starts_with(catalog_name(32), "tool_"@, 0);
            lemma_not_starts_with(catalog_name(32), "mcp_"@, 0);
        } else if i == 33 {
            reveal_strlit("repo_heatmap");
            lemma_not_starts_with(catalog_name(33), "ctx_"@, 0);
            lemma_not_starts_with(catalog_name(33), "tool_"@, 0);
            lemma_not_starts_with(catalog_name(33), "mcp_"@, 0);
        } else if i == 34 {
            reveal_strlit("repo_impact");
            lemma_not_starts_with(catalog_name(34), "ctx_"@, 0);
            lemma_not_starts_with(catalog_name(34), "tool_"@, 0);
            lemma_not_starts_with(catalog_name(34), "mcp_"@, 0);
        } else if i == 35 {
            reveal_strlit("repo_meta");
            lemma_not_starts_with(catalog_name(35), "ctx_"@, 0);
            lemma_not_starts_with(catalog_name(35), "tool_"@, 0);
            lemma_not_starts_with(catalog_name(35), "mcp_"@, 0);
        } else if i == 36 {
            reveal_strlit("routes");
            lemma_not_starts_with(catalog_name(36), "ctx_"@, 0);
            lemma_not_starts_with(catalog_name(36), "tool_"@, 0);
            lemma_not_starts_with(catalog_name(36), "mcp_"@, 0);
        } else if i == 37 {
            reveal_strlit("search");
            lemma_not_starts_with(catalog_name(37), "ctx_"@, 0);
            lemma_not_starts_with(catalog_name(37), "tool_"@, 0);
            lemma_not_starts_with(catalog_name(37), "mcp_"@, 0);
        } else if i == 38 {
            reveal_strlit("semantic_search");
            lemma_not_starts_with(catalog_name(38), "ctx_"@, 0);
            lemma_not_starts_with(catalog_name(38), "tool_"@, 0);
            lemma_not_starts_with(catalog_name(38), "mcp_"@, 0);
        } else if i == 39 {
            reveal_strlit("session");
            lemma_not_starts_with(catalog_name(39), "ctx_"@, 0);
            lemma_not_starts_with(catalog_name(39), "tool_"@, 0);
            lemma_not_starts_with(catalog_name(39), "mcp_"@, 0);
        } else if i == 40 {
            reveal_strlit("shell");
            lemma_not_starts_with(catalog_name(40), "ctx_"@, 0);
            lemma_not_starts_with(catalog_name(40), "tool_"@, 0);
            lemma_not_starts_with(catalog_name(40), "mcp_"@, 0);
        } else if i == 41 {
            reveal_strlit("smart_read");
            lemma_not_starts_with(catalog_name(41), "ctx_"@, 0);
            lemma_not_starts_with(catalog_name(41), "tool_"@, 0);
            lemma_not_starts_with(catalog_name(41), "mcp_"@, 0);
        } else if i == 42 {
            reveal_strlit("sqlite_query");
            lemma_not_starts_with(catalog_name(42), "ctx_"@, 0);
            lemma_not_starts_with(catalog_name(42), "tool_"@, 0);
            lemma_not_starts_with(catalog_name(42), "mcp_"@, 0);
        } else if i == 43 {
            reveal_strlit("stub_fill");
            lemma_not_starts_with(catalog_name(43), "ctx_"@, 0);
            lemma_not_starts_with(catalog_name(43), "tool_"@, 0);
            lemma_not_starts_with(catalog_name(43), "mcp_"@, 0);
        } else if i == 44 {
            reveal_strlit("sub_agent");
            lemma_not_starts_with(catalog_name(44), "ctx_"@, 0);
            lemma_not_starts_with(catalog_name(44), "tool_"@, 0);
            lemma_not_starts_with(catalog_name(44), "mcp_"@, 0);
        } else if i == 45 {
            reveal_strlit("souls_summon_tool");
            lemma_not_starts_with(catalog_name(45), "ctx_"@, 0);
            lemma_not_starts_with(catalog_name(45), "tool_"@, 0);
            lemma_not_starts_with(catalog_name(45), "mcp_"@, 0);
        } else if i == 46 {
            reveal_strlit("symbol");
            lemma_not_starts_with(catalog_name(46), "ctx_"@, 0);
            lemma_not_starts_with(catalog_name(46), "tool_"@, 0);
            lemma_not_starts_with(catalog_name(46), "mcp_"@, 0);
        } else if i == 47 {
            reveal_strlit("sys_time");
            lemma_not_starts_with(catalog_name(47), "ctx_"@, 0);
            lemma_not_starts_with(catalog_name(47), "tool_"@, 0);
            lemma_not_starts_with(catalog_name(47), "mcp_"@, 0);
        } else if i == 48 {
            reveal_strlit("thinking");
            lemma_not_starts_with(catalog_name(48), "ctx_"@, 0);
            lemma_not_starts_with(catalog_name(48), "tool_"@, 1);
            lemma_not_starts_with(catalog_name(48), "mcp_"@, 0);
        } else if i == 49 {
            reveal_strlit("tree");
            lemma_not_starts_with(catalog_name(49), "ctx_"@, 0);
            lemma_not_starts_with(catalog_name(49), "tool_"@, 1);
            lemma_not_starts_with(catalog_name(49), "mcp_"@, 0);
        } else if i == 50 {
            reveal_strlit("web_search");
            lemma_not_starts_with(catalog_name(50), "ctx_"@, 0);
            lemma_not_starts_with(catalog_name(50), "tool_"@, 0);
            lemma_not_starts_with(catalog_name(50), "mcp_"@, 0);
        }
    }
}

/// A name that no prefix rule or thinking alias touches is its own
/// canonical name.
proof fn lemma_canonical_name(n: Seq<char>)
    requires
        n.len() >= 3,
        !(n[0] == 's' && n[1] == 'o'),
        !(n[0] == 'c' && n[1] == 't'),
        !(n[0] == 'c' && n[1] == 'o' && n[2] == 'r'),
        !(n[0] == 's' && n[1] == 'e' && n[2] == 'q'),
    ensures
        normalized_tool_name(n) == n,
{
    if n[0] == 's' {
        lemma_not_starts_with(n, mcp_prefix(), 1);
        lemma_not_starts_with(n, souls_prefix(), 1);
    } else {
        lemma_not_starts_with(n, mcp_prefix(), 0);
        lemma_not_starts_with(n, souls_prefix(), 0);
    }
    if n[0] == 'c' {
        lemma_not_starts_with(n, ctx_prefix(), 1);
    } else {
        lemma_not_starts_with(n, ctx_prefix(), 0);
    }
    assert(strip_tool_prefixes(n) == n);
    reveal_strlit("core_think");
    reveal_strlit("sequential_thinking");
    reveal_strlit("sequentialthinking");
    if n == "core_think"@ {
        assert(n[2] == 'r');
    }
    if n == "sequential_thinking"@ || n == "sequentialthinking"@ {
        assert(n[2] == 'q');
    }
}

/// Every name of the catalogue but `souls_summon_tool`, which binds tools
/// late and is not dispatched by name, selects a tool once normalised.
pub proof fn law_catalog_names_route()
    ensures
        forall|i: int|
            0 <= i < TOOL_COUNT && #[trigger] catalog_name(i) != "souls_summon_tool"@ ==> tool_of(
                normalized_tool_name(catalog_name(i)),
            ) is Some,
{
    assert forall|i: int| 0 <= i < TOOL_COUNT && #[trigger] catalog_name(i) != "souls_summon_tool"@ implies tool_of(
        normalized_tool_name(catalog_name(i)),
    ) is Some by {

        if i == 0 {
            reveal_strlit("analyze_session");
            lemma_canonical_name(catalog_name(0));
        } else if i == 1 {
            reveal_strlit("callees");
            lemma_canonical_name(catalog_name(1));
        } else if i == 2 {
            reveal_strlit("callers");
            lemma_canonical_name(catalog_name(2));
        } else if i == 3 {
            reveal_strlit("compress");
            lemma_canonical_name(catalog_name(3));
        } else if i == 4 {
            reveal_strlit("dedup");
            lemma_canonical_name(catalog_name(4));
        } else if i == 5 {
            reveal_strlit("delta_diff");
            lemma_canonical_name(catalog_name(5));
        } else if i == 6 {
            reveal_strlit("edit");
            lemma_canonical_name(catalog_name(6));
        } else if i == 7 {
            reveal_strlit("execute");
            lemma_canonical_name(catalog_name(7));
        } else if i == 8 {
            reveal_strlit("export_session");
            lemma_canonical_name(catalog_name(8));
        } else if i == 9 {
            reveal_strlit("feedback");
            lemma_canonical_name(catalog_name(9));
        } else if i == 10 {
            reveal_strlit("fetch_web");
            lemma_canonical_name(catalog_name(10));
        } else if i == 11 {
            reveal_strlit("fill");
            lemma_canonical_name(catalog_name(11));
        } else if i == 12 {
            reveal_strlit("get_ast");
            lemma_canonical_name(catalog_name(12));
        } else if i == 13 {
            reveal_strlit("handoff");
            lemma_canonical_name(catalog_name(13));
        } else if i == 14 {
            reveal_strlit("headroom_retrieve");
            lemma_canonical_name(catalog_name(14));
        } else if i == 15 {
            reveal_strlit("heatmap");
            lemma_canonical_name(catalog_name(15));
        } else if i == 16 {
            reveal_strlit("intent");
            lemma_canonical_name(catalog_name(16));
        } else if i == 17 {
            reveal_strlit("knowledge");
            lemma_canonical_name(catalog_name(17));
        } else if i == 18 {
            reveal_strlit("mem_add_observations");
            lemma_canonical_name(catalog_name(18));
        } else if i == 19 {
            reveal_strlit("mem_create_entities");
            lemma_canonical_name(catalog_name(19));
        } else if i == 20 {
            reveal_strlit("mem_create_relations");
            lemma_canonical_name(catalog_name(20));
        } else if i == 21 {
            reveal_strlit("mem_delete_entities");
            lemma_canonical_name(catalog_name(21));
        } else if i == 22 {
            reveal_strlit("mem_delete_observations");
            lemma_canonical_name(catalog_name(22));
        } else if i == 23 {
            reveal_strlit("mem_delete_relations");
            lemma_canonical_name(catalog_name(23));
        } else if i == 24 {
            reveal_strlit("mem_open_nodes");
            lemma_canonical_name(catalog_name(24));
        } else if i == 25 {
            reveal_strlit("mem_read_graph");
            lemma_canonical_name(catalog_name(25));
        } else if i == 26 {
            reveal_strlit("mem_search");
            lemma_canonical_name(catalog_name(26));
        } else if i == 27 {
            reveal_strlit("merge_sessions");
            lemma_canonical_name(catalog_name(27));
        } else if i == 28 {
            reveal_strlit("metrics");
            lemma_canonical_name(catalog_name(28));
        } else if i == 29 {
            reveal_strlit("multi_read");
            lemma_canonical_name(catalog_name(29));
        } else if i == 30 {
            reveal_strlit("outline");
            lemma_canonical_name(catalog_name(30));
        } else if i == 31 {
            reveal_strlit("read");
            lemma_canonical_name(catalog_name(31));
        } else if i == 32 {
            reveal_strlit("replace");
            lemma_canonical_name(catalog_name(32));
        } else if i == 33 {
            reveal_strlit("repo_heatmap");
            lemma_canonical_name(catalog_name(33));
        } else if i == 34 {
            reveal_strlit("repo_impact");
            lemma_canonical_name(catalog_name(34));
        } else if i == 35 {
            reveal_strlit("repo_meta");
            lemma_canonical_name(catalog_name(35));
        } else if i == 36 {
            reveal_strlit("routes");
            lemma_canonical_name(catalog_name(36));
        } else if i == 37 {
            reveal_strlit("search");
            lemma_canonical_name(catalog_name(37));
        } else if i == 38 {
            reveal_strlit("semantic_search");
            lemma_canonical_name(catalog_name(38));
        } else if i == 39 {
            reveal_strlit("session");
            lemma_canonical_name(catalog_name(39));
        } else if i == 40 {
            reveal_strlit("shell");
            lemma_canonical_name(catalog_name(40));
        } else if i == 41 {
            reveal_strlit("smart_read");
            lemma_canonical_name(catalog_name(41));
        } else if i == 42 {
            reveal_strlit("sqlite_query");
            lemma_canonical_name(catalog_name(42));
        } else if i == 43 {
            reveal_strlit("stub_fill");
            lemma_canonical_name(catalog_name(43));
        } else if i == 44 {
            reveal_strlit("sub_agent");
            lemma_canonical_name(catalog_name(44));
        } else if i == 45 {
        } else if i == 46 {
            reveal_strlit("symbol");
            lemma_canonical_name(catalog_name(46));
        } else if i == 47 {
            reveal_strlit("sys_time");
            lemma_canonical_name(catalog_name(47));
        } else if i == 48 {
            reveal_strlit("thinking");
            lemma_canonical_name(catalog_name(48));
        } else if i == 49 {
            reveal_strlit("tree");
            lemma_canonical_name(catalog_name(49));
        } else if i == 50 {
            reveal_strlit("web_search");
            lemma_canonical_name(catalog_name(50));
        }
    }
}

/// The `k`-th name comes before the next one.
spec fn next_larger(s: Seq<Seq<char>>, k: int) -> bool {
    lex_lt(s[k], s[k + 1])
}

proof fn lemma_sorted_chain(s: Seq<Seq<char>>, i: int, j: int)
    requires
        forall|k: int| 0 <= k < s.len() - 1 ==> #[trigger] next_larger(s, k),
        0 <= i < j < s.len(),
    ensures
        lex_lt(s[i], s[j]),
    decreases j - i,
{
    if j == i + 1 {
        assert(next_larger(s, i));
    } else {
        lemma_sorted_chain(s, i, j - 1);
        assert(next_larger(s, j - 1));
        lemma_lex_transitive(s[i], s[j - 1], s[j]);
    }
}

/// A list whose neighbours are in increasing order, but for one item `x`
/// that differs from every other, holds no name twice.
proof fn lemma_distinct_but_one(s: Seq<Seq<char>>, x: int)
    requires
        0 < x < s.len() - 1,
        forall|k: int| 0 <= k < s.len() - 1 && k != x - 1 && k != x ==> #[trigger] next_larger(s, k),
        lex_lt(s[x - 1], s[x + 1]),
        forall|k: int| 0 <= k < s.len() && k != x ==> #[trigger] s[k] != s[x],
    ensures
        forall|i: int, j: int| 0 <= i < j < s.len() ==> #[trigger] s[i] != #[trigger] s[j],
{
    let t = s.remove(x);
    assert forall|k: int| 0 <= k < t.len() - 1 implies #[trigger] next_larger(t, k) by {
        if k < x - 1 {
            assert(next_larger(s, k));
            assert(t[k] == s[k] && t[k + 1] == s[k + 1]);
        } else if k == x - 1 {
            assert(t[k] == s[x - 1] && t[k + 1] == s[x + 1]);
        } else {
            assert(t[k] == s[k + 1] && t[k + 1] == s[k + 2]);
            assert(next_larger(s, k + 1));
        }
    }
    assert forall|i: int, j: int| 0 <= i < j < s.len() implies #[trigger] s[i] != #[trigger] s[j] by {
        if i != x && j != x {
            let ti: int = if i < x { i } else { i - 1 };
            let tj: int = if j < x { j } else { j - 1 };
            assert(t[ti] == s[i] && t[tj] == s[j]);
            lemma_sorted_chain(t, ti, tj);
            lemma_lex_irreflexive(s[i]);
        }
    }
}

/// The names of the catalogue as a list.
pub open spec fn catalog_names() -> Seq<Seq<char>> {
    catalog().map_values(|e: (Seq<char>, Seq<char>, Seq<Seq<char>>, Seq<Seq<char>>)| e.0)
}

/// No two tools of the catalogue share a name.
pub proof fn law_catalog_names_distinct()
    ensures
        forall|i: int, j: int| 0 <= i < j < TOOL_COUNT ==> #[trigger] catalog_name(i) != #[trigger] catalog_name(j),
{
    let s = catalog_names();
    assert(s.len() == TOOL_COUNT);
    assert forall|k: int| 0 <= k < s.len() implies #[trigger] s[k] == catalog_name(k) by {}

    assert(lex_lt(s[0], s[1])) by {
        reveal_strlit("analyze_session");
        reveal_strlit("callees");
        assert(s[0].take(0) =~= s[1].take(0));
        assert(lex_lt_at(s[0], s[1], 0));
    }
    assert(lex_lt(s[1], s[2])) by {
        reveal_strlit("callees");
        reveal_strlit("callers");
        assert(s[1].take(5) =~= s[2].take(5));
        assert(lex_lt_at(s[1], s[2], 5));
    }
    assert(lex_lt(s[2], s[3])) by {
        reveal_strlit("callers");
        reveal_strlit("compress");
        assert(s[2].take(1) =~= s[3].take(1));
        assert(lex_lt_at(s[2], s[3], 1));
    }
    assert(lex_lt(s[3], s[4])) by {
        reveal_strlit("compress");
        reveal_strlit("dedup");
        assert(s[3].take(0) =~= s[4].take(0));
        assert(lex_lt_at(s[3], s[4], 0));
    }
    assert(lex_lt(s[4], s[5])) by {
        reveal_strlit("dedup");
        reveal_strlit("delta_diff");
        assert(s[4].take(2) =~= s[5].take(2));
        assert(lex_lt_at(s[4], s[5], 2));
    }
    assert(lex_lt(s[5], s[6])) by {
        reveal_strlit("delta_diff");
        reveal_strlit("edit");
        assert(s[5].take(0) =~= s[6].take(0));
        assert(lex_lt_at(s[5], s[6], 0));
    }
    assert(lex_lt(s[6], s[7])) by {
        reveal_strlit("edit");
        reveal_strlit("execute");
        assert(s[6].take(1) =~= s[7].take(1));
        assert(lex_lt_at(s[6], s[7], 1));
    }
    assert(lex_lt(s[7], s[8])) by {
        reveal_strlit("execute");
        reveal_strlit("export_session");
        assert(s[7].take(2) =~= s[8].take(2));
        assert(lex_lt_at(s[7], s[8], 2));
    }
    assert(lex_lt(s[8], s[9])) by {
        reveal_strlit("export_session");
        reveal_strlit("feedback");
        assert(s[8].take(0) =~= s[9].take(0));
        assert(lex_lt_at(s[8], s[9], 0));
    }
    assert(lex_lt(s[9], s[10])) by {
        reveal_strlit("feedback");
        reveal_strlit("fetch_web");
        assert(s[9].take(2) =~= s[10].take(2));
        assert(lex_lt_at(s[9], s[10], 2));
    }
    assert(lex_lt(s[10], s[11])) by {
        reveal_strlit("fetch_web");
        reveal_strlit("fill");
        assert(s[10].take(1) =~= s[11].take(1));
        assert(lex_lt_at(s[10], s[11], 1));
    }
    assert(lex_lt(s[11], s[12])) by {
        reveal_strlit("fill");
        reveal_strlit("get_ast");
        assert(s[11].take(0) =~= s[12].take(0));
        assert(lex_lt_at(s[11], s[12], 0));
    }
    assert(lex_lt(s[12], s[13])) by {
        reveal_strlit("get_ast");
        reveal_strlit("handoff");
        assert(s[12].take(0) =~= s[13].take(0));
        assert(lex_lt_at(s[12], s[13], 0));
    }
    assert(lex_lt(s[13], s[14])) by {
        reveal_strlit("handoff");
        reveal_strlit("headroom_retrieve");
        assert(s[13].take(1) =~= s[14].take(1));
        assert(lex_lt_at(s[13], s[14], 1));
    }
    assert(lex_lt(s[14], s[15])) by {
        reveal_strlit("headroom_retrieve");
        reveal_strlit("heatmap");
        assert(s[14].take(3) =~= s[15].take(3));
        assert(lex_lt_at(s[14], s[15], 3));
    }
    assert(lex_lt(s[15], s[16])) by {
        reveal_strlit("heatmap");
        reveal_strlit("intent");
        assert(s[15].take(0) =~= s[16].take(0));
        assert(lex_lt_at(s[15], s[16], 0));
    }
    assert(lex_lt(s[16], s[17])) by {
        reveal_strlit("intent");
        reveal_strlit("knowledge");
        assert(s[16].take(0) =~= s[17].take(0));
        assert(lex_lt_at(s[16], s[17], 0));
    }
    assert(lex_lt(s[17], s[18])) by {
        reveal_strlit("knowledge");
        reveal_strlit("mem_add_observations");
        assert(s[17].take(0) =~= s[18].take(0));
        assert(lex_lt_at(s[17], s[18], 0));
    }
    assert(lex_lt(s[18], s[19])) by {
        reveal_strlit("mem_add_observations");
        reveal_strlit("mem_create_entities");
        assert(s[18].take(4) =~= s[19].take(4));
        assert(lex_lt_at(s[18], s[19], 4));
    }
    assert(lex_lt(s[19], s[20])) by {
        reveal_strlit("mem_create_entities");
        reveal_strlit("mem_create_relations");
        assert(s[19].take(11) =~= s[20].take(11));
        assert(lex_lt_at(s[19], s[20], 11));
    }
    assert(lex_lt(s[20], s[21])) by {
        reveal_strlit("mem_create_relations");
        reveal_strlit("mem_delete_entities");
        assert(s[20].take(4) =~= s[21].take(4));
        assert(lex_lt_at(s[20], s[21], 4));
    }
    assert(lex_lt(s[21], s[22])) by {
        reveal_strlit("mem_delete_entities");
        reveal_strlit("mem_delete_observations");
        assert(s[21].take(11) =~= s[22].take(11));
        assert(lex_lt_at(s[21], s[22], 11));
    }
    assert(lex_lt(s[22], s[23])) by {
        reveal_strlit("mem_delete_observations");
        reveal_strlit("mem_delete_relations");
        assert(s[22].take(11) =~= s[23].take(11));
        assert(lex_lt_at(s[22], s[23], 11));
    }
    assert(lex_lt(s[23], s[24])) by {
        reveal_strlit("mem_delete_relations");
        reveal_strlit("mem_open_nodes");
        assert(s[23].take(4) =~= s[24].take(4));
        assert(lex_lt_at(s[23], s[24], 4));
    }
    assert(lex_lt(s[24], s[25])) by {
        reveal_strlit("mem_open_nodes");
        reveal_strlit("mem_read_graph");
        assert(s[24].take(4) =~= s[25].take(4));
        assert(lex_lt_at(s[24], s[25], 4));
    }
    assert(lex_lt(s[25], s[26])) by {
        reveal_strlit("mem_read_graph");
        reveal_strlit("mem_search");
        assert(s[25].take(4) =~= s[26].take(4));
        assert(lex_lt_at(s[25], s[26], 4));
    }
    assert(lex_lt(s[26], s[27])) by {
        reveal_strlit("mem_search");
        reveal_strlit("merge_sessions");
        assert(s[26].take(2) =~= s[27].take(2));
        assert(lex_lt_at(s[26], s[27], 2));
    }
    assert(lex_lt(s[27], s[28])) by {
        reveal_strlit("merge_sessions");
        reveal_strlit("metrics");
        assert(s[27].take(2) =~= s[28].take(2));
        assert(lex_lt_at(s[27], s[28], 2));
    }
    assert(lex_lt(s[28], s[29])) by {
        reveal_strlit("metrics");
        reveal_strlit("multi_read");
        assert(s[28].take(1) =~= s[29].take(1));
        assert(lex_lt_at(s[28], s[29], 1));
    }
    assert(lex_lt(s[29], s[30])) by {
        reveal_strlit("multi_read");
        reveal_strlit("outline");
        assert(s[29].take(0) =~= s[30].take(0));
        assert(lex_lt_at(s[29], s[30], 0));
    }
    assert(lex_lt(s[30], s[31])) by {
        reveal_strlit("outline");
        reveal_strlit("read");
        assert(s[30].take(0) =~= s[31].take(0));
        assert(lex_lt_at(s[30], s[31], 0));
    }
    assert(lex_lt(s[31], s[32])) by {
        reveal_strlit("read");
        reveal_strlit("replace");
        assert(s[31].take(2) =~= s[32].take(2));
        assert(lex_lt_at(s[31], s[32], 2));
    }
    assert(lex_lt(s[32], s[33])) by {
        reveal_strlit("replace");
        reveal_strlit("repo_heatmap");
        assert(s[32].take(3) =~= s[33].take(3));
        assert(lex_lt_at(s[32], s[33], 3));
    }
    assert(lex_lt(s[33], s[34])) by {
        reveal_strlit("repo_heatmap");
        reveal_strlit("repo_impact");
        assert(s[33].take(5) =~= s[34].take(5));
        assert(lex_lt_at(s[33], s[34], 5));
    }
    assert(lex_lt(s[34], s[35])) by {
        reveal_strlit("repo_impact");
        reveal_strlit("repo_meta");
        assert(s[34].take(5) =~= s[35].take(5));
        assert(lex_lt_at(s[34], s[35], 5));
    }
    assert(lex_lt(s[35], s[36])) by {
        reveal_strlit("repo_meta");
        reveal_strlit("routes");
        assert(s[35].take(1) =~= s[36].take(1));
        assert(lex_lt_at(s[35], s[36], 1));
    }
    assert(lex_lt(s[36], s[37])) by {
        reveal_strlit("routes");
        reveal_strlit("search");
        assert(s[36].take(0) =~= s[37].take(0));
        assert(lex_lt_at(s[36], s[37], 0));
    }
    assert(lex_lt(s[37], s[38])) by {
        reveal_strlit("search");
        reveal_strlit("semantic_search");
        assert(s[37].take(2) =~= s[38].take(2));
        assert(lex_lt_at(s[37], s[38], 2));
    }
    assert(lex_lt(s[38], s[39])) by {
        reveal_strlit("semantic_search");
        reveal_strlit("session");
        assert(s[38].take(2) =~= s[39].take(2));
        assert(lex_lt_at(s[38], s[39], 2));
    }
    assert(lex_lt(s[39], s[40])) by {
        reveal_strlit("session");
        reveal_strlit("shell");
        assert(s[39].take(1) =~= s[40].take(1));
        assert(lex_lt_at(s[39], s[40], 1));
    }
    assert(lex_lt(s[40], s[41])) by {
        reveal_strlit("shell");
        reveal_strlit("smart_read");
        assert(s[40].take(1) =~= s[41].take(1));
        assert(lex_lt_at(s[40], s[41], 1));
    }
    assert(lex_lt(s[41], s[42])) by {
        reveal_strlit("smart_read");
        reveal_strlit("sqlite_query");
        assert(s[41].take(1) =~= s[42].take(1));
        assert(lex_lt_at(s[41], s[42], 1));
    }
    assert(lex_lt(s[42], s[43])) by {
        reveal_strlit("sqlite_query");
        reveal_strlit("stub_fill");
        assert(s[42].take(1) =~= s[43].take(1));
        assert(lex_lt_at(s[42], s[43], 1));
    }
    assert(lex_lt(s[43], s[44])) by {
        reveal_strlit("stub_fill");
        reveal_strlit("sub_agent");
        assert(s[43].take(1) =~= s[44].take(1));
        assert(lex_lt_at(s[43], s[44], 1));
    }
    assert(lex_lt(s[46], s[47])) by {
        reveal_strlit("symbol");
        reveal_strlit("sys_time");
        assert(s[46].take(2) =~= s[47].take(2));
        assert(lex_lt_at(s[46], s[47], 2));
    }
    assert(lex_lt(s[47], s[48])) by {
        reveal_strlit("sys_time");
        reveal_strlit("thinking");
        assert(s[47].take(0) =~= s[48].take(0));
        assert(lex_lt_at(s[47], s[48], 0));
    }
    assert(lex_lt(s[48], s[49])) by {
        reveal_strlit("thinking");
        reveal_strlit("tree");
        assert(s[48].take(1) =~= s[49].take(1));
        assert(lex_lt_at(s[48], s[49], 1));
    }
    assert(lex_lt(s[49], s[50])) by {
        reveal_strlit("tree");
        reveal_strlit("web_search");
        assert(s[49].take(0) =~= s[50].take(0));
        assert(lex_lt_at(s[49], s[50], 0));
    }
    assert(lex_lt(s[44], s[46])) by {
        reveal_strlit("sub_agent");
        reveal_strlit("symbol");
        assert(s[44].take(1) =~= s[46].take(1));
        assert(lex_lt_at(s[44], s[46], 1));
    }
    assert forall|k: int| 0 <= k < s.len() - 1 && k != 44 && k != 45 implies #[trigger] next_larger(s, k) by {
        if k == 0 {
        } else if k == 1 {
        } else if k == 2 {
        } else if k == 3 {
        } else if k == 4 {
        } else if k == 5 {
        } else if k == 6 {
        } else if k == 7 {
        } else if k == 8 {
        } else if k == 9 {
        } else if k == 10 {
        } else if k == 11 {
        } else if k == 12 {
        } else if k == 13 {
        } else if k == 14 {
        } else if k == 15 {
        } else if k == 16 {
        } else if k == 17 {
        } else if k == 18 {
        } else if k == 19 {
        } else if k == 20 {
        } else if k == 21 {
        } else if k == 22 {
        } else if k == 23 {
        } else if k == 24 {
        } else if k == 25 {
        } else if k == 26 {
        } else if k == 27 {
        } else if k == 28 {
        } else if k == 29 {
        } else if k == 30 {
        } else if k == 31 {
        } else if k == 32 {
        } else if k == 33 {
        } else if k == 34 {
        } else if k == 35 {
        } else if k == 36 {
        } else if k == 37 {
        } else if k == 38 {
        } else if k == 39 {
        } else if k == 40 {
        } else if k == 41 {
        } else if k == 42 {
        } else if k == 43 {
        } else if k == 44 {
        } else if k == 45 {
        } else if k == 46 {
        } else if k == 47 {
        } else if k == 48 {
        } else if k == 49 {
        } else if k == 50 {
        }
    }
    assert forall|k: int| 0 <= k < s.len() && k != 45 implies #[trigger] s[k] != s[45] by {
        reveal_strlit("souls_summon_tool");
        assert(s[45][0] == 's' && s[45][1] == 'o');
        if k == 0 {
            reveal_strlit("analyze_session");
            assert(s[0][0] != 's');
        } else if k == 1 {
            reveal_strlit("callees");
            assert(s[1][0] != 's');
        } else if k == 2 {
            reveal_strlit("callers");
            assert(s[2][0] != 's');
        } else if k == 3 {
            reveal_strlit("compress");
            assert(s[3][0] != 's');
        } else if k == 4 {
            reveal_strlit("dedup");
            assert(s[4][0] != 's');
        } else if k == 5 {
            reveal_strlit("delta_diff");
            assert(s[5][0] != 's');
        } else if k == 6 {
            reveal_strlit("edit");
            assert(s[6][0] != 's');
        } else if k == 7 {
            reveal_strlit("execute");
            assert(s[7][0] != 's');
        } else if k == 8 {
            reveal_strlit("export_session");
            assert(s[8][0] != 's');
        } else if k == 9 {
            reveal_strlit("feedback");
            assert(s[9][0] != 's');
        } else if k == 10 {
            reveal_strlit("fetch_web");
            assert(s[10][0] != 's');
        } else if k == 11 {
            reveal_strlit("fill");
            assert(s[11][0] != 's');
        } else if k == 12 {
            reveal_strlit("get_ast");
            assert(s[12][0] != 's');
        } else if k == 13 {
            reveal_strlit("handoff");
            assert(s[13][0] != 's');
        } else if k == 14 {
            reveal_strlit("headroom_retrieve");
            assert(s[14][0] != 's');
        } else if k == 15 {
            reveal_strlit("heatmap");
            assert(s[15][0] != 's');
        } else if k == 16 {
            reveal_strlit("intent");
            assert(s[16][0] != 's');
        } else if k == 17 {
            reveal_strlit("knowledge");
            assert(s[17][0] != 's');
        } else if k == 18 {
            reveal_strlit("mem_add_observations");
            assert(s[18][0] != 's');
        } else if k == 19 {
            reveal_strlit("mem_create_entities");
            assert(s[19][0] != 's');
        } else if k == 20 {
            reveal_strlit("mem_create_relations");
            assert(s[20][0] != 's');
        } else if k == 21 {
            reveal_strlit("mem_delete_entities");
            assert(s[21][0] != 's');
        } else if k == 22 {
            reveal_strlit("mem_delete_observations");
            assert(s[22][0] != 's');
        } else if k == 23 {
            reveal_strlit("mem_delete_relations");
            assert(s[23][0] != 's');
        } else if k == 24 {
            reveal_strlit("mem_open_nodes");
            assert(s[24][0] != 's');
        } else if k == 25 {
            reveal_strlit("mem_read_graph");
            assert(s[25][0] != 's');
        } else if k == 26 {
            reveal_strlit("mem_search");
            assert(s[26][0] != 's');
        } else if k == 27 {
            reveal_strlit("merge_sessions");
            assert(s[27][0] != 's');
        } else if k == 28 {
            reveal_strlit("metrics");
            assert(s[28][0] != 's');
        } else if k == 29 {
            reveal_strlit("multi_read");
            assert(s[29][0] != 's');
        } else if k == 30 {
            reveal_strlit("outline");
            assert(s[30][0] != 's');
        } else if k == 31 {
            reveal_strlit("read");
            assert(s[31][0] != 's');
        } else if k == 32 {
            reveal_strlit("replace");
            assert(s[32][0] != 's');
        } else if k == 33 {
            reveal_strlit("repo_heatmap");
            assert(s[33][0] != 's');
        } else if k == 34 {
            reveal_strlit("repo_impact");
            assert(s[34][0] != 's');
        } else if k == 35 {
            reveal_strlit("repo_meta");
            assert(s[35][0] != 's');
        } else if k == 36 {
            reveal_strlit("routes");
            assert(s[36][0] != 's');
        } else if k == 37 {
            reveal_strlit("search");
            assert(s[37][1] != 'o');
        } else if k == 38 {
            reveal_strlit("semantic_search");
            assert(s[38][1] != 'o');
        } else if k == 39 {
            reveal_strlit("session");
            assert(s[39][1] != 'o');
        } else if k == 40 {
            reveal_strlit("shell");
            assert(s[40][1] != 'o');
        } else if k == 41 {
            reveal_strlit("smart_read");
            assert(s[41][1] != 'o');
        } else if k == 42 {
            reveal_strlit("sqlite_query");
            assert(s[42][1] != 'o');
        } else if k == 43 {
            reveal_strlit("stub_fill");
            assert(s[43][1] != 'o');
        } else if k == 44 {
            reveal_strlit("sub_agent");
            assert(s[44][1] != 'o');
        } else if k == 45 {
        } else if k == 46 {
            reveal_strlit("symbol");
            assert(s[46][1] != 'o');
        } else if k == 47 {
            reveal_strlit("sys_time");
            assert(s[47][1] != 'o');
        } else if k == 48 {
            reveal_strlit("thinking");
            assert(s[48][0] != 's');
        } else if k == 49 {
            reveal_strlit("tree");
            assert(s[49][0] != 's');
        } else if k == 50 {
            reveal_strlit("web_search");
            assert(s[50][0] != 's');
        }
    }
    lemma_distinct_but_one(s, 45);
}

} // verus!
