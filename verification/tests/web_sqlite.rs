use souls_lean::server::sqlite::{
    format_sqlite_result_markdown, sqlite_db_file, sqlite_query_verdict, validate_sqlite_query, SqlCell,
    SqlStatementKind,
};
use souls_lean::server::web_search::{ddg_destination_of, normalize_duckduckgo_result_url, parse_duckduckgo_results};

#[test]
fn sqlite_query_rejects_multi_statement_payload() {
    let err = validate_sqlite_query("SELECT 1; DROP TABLE users;")
        .err()
        .expect("multi-statement must fail");
    assert_eq!(err.code, -32602);
}

#[test]
fn sqlite_query_accepts_single_select_with_trailing_semicolon() {
    assert!(validate_sqlite_query("SELECT 1;").is_ok(), "a simple select must pass");
}

#[test]
fn sqlite_query_rejects_mutating_pragma() {
    let err = validate_sqlite_query("PRAGMA cache_size = 10;").err().expect("a mutating pragma must fail");
    assert_eq!(err.code, -32602);
}

#[test]
fn sqlite_query_filter_messages() {
    let e = validate_sqlite_query("").err().unwrap();
    assert_eq!(e.message, "Consulta SQL não pode ser vazia");
    let e = validate_sqlite_query("DELETE FROM t").err().unwrap();
    assert!(e.message.starts_with("Instrução SQL não permitida em modo read-only: "), "{}", e.message);
    assert!(validate_sqlite_query("PRAGMA cache_size").is_ok());
    let e = validate_sqlite_query("SELEC x").err().unwrap();
    assert!(e.message.starts_with("Sintaxe SQL inválida no SQLite: "), "{}", e.message);
    let p = Ok(vec![SqlStatementKind::Pragma { name: "cache_size".into(), has_value: true }]);
    assert_eq!(sqlite_query_verdict(&p).err().unwrap().message, "Mutação via PRAGMA 'cache_size' é proibida.");
    let q = Ok(vec![SqlStatementKind::Query, SqlStatementKind::Query]);
    assert_eq!(
        sqlite_query_verdict(&q).err().unwrap().message,
        "Múltiplas instruções SQL em lote são proibidas por segurança. Forneça apenas uma instrução."
    );
}

#[test]
fn sqlite_db_file_selects_known_databases() {
    assert_eq!(sqlite_db_file(None).ok().unwrap(), "souls_state.db");
    assert_eq!(sqlite_db_file(Some("  ")).ok().unwrap(), "souls_state.db");
    assert_eq!(sqlite_db_file(Some(" state ")).ok().unwrap(), "souls_state.db");
    assert_eq!(sqlite_db_file(Some("heuristic_vault")).ok().unwrap(), "souls_heuristic_vault.db");
    let e = sqlite_db_file(Some("other.db")).err().unwrap();
    assert_eq!((e.code, e.message.as_str()), (-32602, "Banco de dados SQLite não reconhecido: 'other.db'"));
}

#[test]
fn sqlite_result_markdown_table() {
    let cols = vec!["id".to_string(), "name".to_string()];
    let rows = vec![
        vec![SqlCell::Json("1".into()), SqlCell::Text("a|b\nc".into())],
        vec![SqlCell::Json("2".into()), SqlCell::Null],
    ];
    assert_eq!(
        format_sqlite_result_markdown("SELECT *", &cols, &rows, true),
        "### Resultado da Consulta SQLite\n\n**Query:** `SELECT *`\n**Linhas:** 2 (limitado às primeiras 200 linhas)\n\n| id | name |\n| --- | --- |\n| 1 | a\\|b c |\n| 2 | NULL |"
    );
    assert_eq!(
        format_sqlite_result_markdown("q", &vec![], &vec![], false),
        "### Resultado da Consulta SQLite\n\n**Query:** `q`\n\nA consulta foi executada com sucesso, mas não retornou colunas."
    );
}

#[test]
fn duckduckgo_redirect_url_is_unwrapped_to_destination() {
    let url = normalize_duckduckgo_result_url("/l/?uddg=https%3A%2F%2Fexample.com%2Fdocs%3Fa%3D1%26b%3D2");
    assert_eq!(url, "https://example.com/docs?a=1&b=2");
}

#[test]
fn duckduckgo_url_forms() {
    assert_eq!(normalize_duckduckgo_result_url("   "), "");
    assert_eq!(normalize_duckduckgo_result_url("//example.org/x"), "https://example.org/x");
    assert_eq!(normalize_duckduckgo_result_url(" https://a.b/c "), "https://a.b/c");
    let pairs = Some(vec![("q".to_string(), "x".to_string()), ("uddg".to_string(), " ".to_string())]);
    assert_eq!(ddg_destination_of("/l/?q=x", &pairs), "https://duckduckgo.com/l/?q=x");
}

#[test]
fn duckduckgo_html_parser_extracts_title_url_and_snippet() {
    let html = r#"
    <html>
      <body>
        <div class="result">
          <a class="result__a" href="/l/?uddg=https%3A%2F%2Fexample.com%2Falpha">Alpha Result</a>
          <a class="result__snippet">Alpha snippet</a>
        </div>
        <div class="result">
          <a class="result__a" href="https://example.com/beta">Beta Result</a>
          <span class="result__snippet">Beta snippet</span>
        </div>
      </body>
    </html>
    "#;

    let results = parse_duckduckgo_results(html, 5);
    assert_eq!(results.len(), 2);
    assert_eq!(results[0].title, "Alpha Result");
    assert_eq!(results[0].url, "https://example.com/alpha");
    assert_eq!(results[0].snippet, "Alpha snippet");
    assert_eq!(results[1].title, "Beta Result");
    assert_eq!(results[1].url, "https://example.com/beta");
    assert_eq!(parse_duckduckgo_results(html, 1).len(), 1);
}
