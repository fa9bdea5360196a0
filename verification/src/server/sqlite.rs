//! The read-only SQLite tool: which queries it lets through, which database
//! a name selects, and the Markdown table of a result.
use vstd::prelude::*;
use sqlparser::ast::Statement;
use sqlparser::dialect::SQLiteDialect;
use sqlparser::parser::Parser;
use crate::text::{
    trim, join, views, decimal, to_chars, from_chars, append_chars, push_str_chars, trim_chars, trim_end_chars,
    eq_str, decimal_exec, trim_end,
};
use crate::server::markdown::{escape_cell, escape_markdown_cell};

verus! {

/// Most rows a query result shows.
pub const SQLITE_MAX_ROWS: usize = 200;

/// A JSON-RPC error: its code and message.
pub struct ToolError {
    pub code: i64,
    pub message: String,
}

/// The view of a tool error.
pub open spec fn error_view(e: ToolError) -> (i64, Seq<char>) {
    (e.code, e.message@)
}

/// The view of a unit-or-error result.
pub open spec fn check_view(r: Result<(), ToolError>) -> Result<(), (i64, Seq<char>)> {
    match r {
        Ok(()) => Ok(()),
        Err(e) => Err(error_view(e)),
    }
}

// ---------------------------------------------------------------------------
// Read-only query filter
// ---------------------------------------------------------------------------

/// What the read-only filter needs to know of a parsed statement.
pub enum SqlStatementKind {
    /// A `SELECT` (or other query expression).
    Query,
    /// A `PRAGMA`, by name, with or without a value.
    Pragma { name: String, has_value: bool },
    /// Anything else, as SQL text.
    Other { text: String },
}

/// The view of a statement kind: a tag (0 query, 1 pragma, 2 other), the
/// pragma name or statement text, and whether a pragma sets a value.
pub open spec fn statement_view(s: SqlStatementKind) -> (int, Seq<char>, bool) {
    match s {
        SqlStatementKind::Query => (0, Seq::empty(), false),
        SqlStatementKind::Pragma { name, has_value } => (1, name@, has_value),
        SqlStatementKind::Other { text } => (2, text@, false),
    }
}

/// The views of a list of statements.
pub open spec fn statement_views(v: Seq<SqlStatementKind>) -> Seq<(int, Seq<char>, bool)> {
    v.map_values(|s: SqlStatementKind| statement_view(s))
}

/// What `sqlparser` makes of `query` in the SQLite dialect: its statements,
/// or the parse error's message.
pub uninterp spec fn sqlite_parse(query: Seq<char>) -> Result<Seq<(int, Seq<char>, bool)>, Seq<char>>;

/// `sqlparser::parser::Parser::parse_sql` with `SQLiteDialect`, each
/// statement reduced to its kind (pragma name and statement text by their
/// `Display`), the error to its message. The contract names the result: a
/// function of the query.
#[verifier::external_body]
fn parse_sqlite(query: &str) -> (r: Result<Vec<SqlStatementKind>, String>)
    ensures
        match r {
            Ok(v) => sqlite_parse(query@) == Ok::<Seq<(int, Seq<char>, bool)>, Seq<char>>(statement_views(v@)),
            Err(e) => sqlite_parse(query@) == Err::<Seq<(int, Seq<char>, bool)>, Seq<char>>(e@),
        },
{
    match Parser::parse_sql(&SQLiteDialect {}, query) {
        Ok(stmts) => Ok(
            stmts.iter().map(
                |s| match s {
                    Statement::Query(_) => SqlStatementKind::Query,
                    Statement::Pragma { name, value, .. } => SqlStatementKind::Pragma {
                        name: name.to_string(),
                        has_value: value.is_some(),
                    },
                    other => SqlStatementKind::Other { text: other.to_string() },
                },
            ).collect(),
        ),
        Err(e) => Err(e.to_string()),
    }
}

/// The read-only filter's verdict on a parse result: a single query, or a single
/// pragma that only reads, passes; everything else is refused with
/// `-32602` and a message saying why.
pub open spec fn sql_verdict(parsed: Result<Seq<(int, Seq<char>, bool)>, Seq<char>>) -> Result<(), (i64, Seq<char>)> {
    match parsed {
        Err(e) => Err((-32602i64, "Sintaxe SQL inválida no SQLite: "@ + e)),
        Ok(v) => if v.len() == 0 {
            Err((-32602i64, "Consulta SQL não pode ser vazia"@))
        } else if v.len() > 1 {
            Err(
                (
                    -32602i64,
                    "Múltiplas instruções SQL em lote são proibidas por segurança. Forneça apenas uma instrução."@,
                ),
            )
        } else if v[0].0 == 0 {
            Ok(())
        } else if v[0].0 == 1 {
            if v[0].2 {
                Err((-32602i64, "Mutação via PRAGMA '"@ + v[0].1 + "' é proibida."@))
            } else {
                Ok(())
            }
        } else {
            Err((-32602i64, "Instrução SQL não permitida em modo read-only: "@ + v[0].1))
        },
    }
}

fn invalid(msg: Vec<char>) -> (r: ToolError)
    ensures
        error_view(r) == (-32602i64, msg@),
{
    ToolError { code: -32602, message: from_chars(&msg) }
}

/// The read-only filter's verdict on what the parser made of a query (see
/// [`sql_verdict`]).
pub fn sqlite_query_verdict(parsed: &Result<Vec<SqlStatementKind>, String>) -> (r: Result<(), ToolError>)
    ensures
        check_view(r) == sql_verdict(
            match parsed {
                Ok(v) => Ok(statement_views(v@)),
                Err(e) => Err(e@),
            },
        ),
{
    match parsed {
        Err(e) => {
            let mut m = to_chars("Sintaxe SQL inválida no SQLite: ");
            append_chars(&mut m, &to_chars(e.as_str()));
            Err(invalid(m))
        },
        Ok(v) => {
            if v.len() == 0 {
                Err(invalid(to_chars("Consulta SQL não pode ser vazia")))
            } else if v.len() > 1 {
                Err(
                    invalid(
                        to_chars(
                            "Múltiplas instruções SQL em lote são proibidas por segurança. Forneça apenas uma instrução.",
                        ),
                    ),
                )
            } else {
                assert(statement_views(v@)[0] == statement_view(v@[0]));
                match &v[0] {
                    SqlStatementKind::Query => Ok(()),
                    SqlStatementKind::Pragma { name, has_value } => {
                        if *has_value {
                            let mut m = to_chars("Mutação via PRAGMA '");
                            append_chars(&mut m, &to_chars(name.as_str()));
                            push_str_chars(&mut m, "' é proibida.");
                            Err(invalid(m))
                        } else {
                            Ok(())
                        }
                    },
                    SqlStatementKind::Other { text } => {
                        let mut m = to_chars("Instrução SQL não permitida em modo read-only: ");
                        append_chars(&mut m, &to_chars(text.as_str()));
                        Err(invalid(m))
                    },
                }
            }
        },
    }
}

/// Lets a query through only when it is one read: a single query, or a
/// single pragma without a value.
pub fn validate_sqlite_query(query: &str) -> (r: Result<(), ToolError>)
    ensures
        check_view(r) == sql_verdict(sqlite_parse(query@)),
{
    let parsed = parse_sqlite(query);
    sqlite_query_verdict(&parsed)
}

// ---------------------------------------------------------------------------
// Database names
// ---------------------------------------------------------------------------

/// The database file a name selects: the state store under `state`,
/// `souls_state`, `souls_state.db` or no name, the heuristic vault under
/// its three names; any other name is refused.
pub open spec fn db_file(name: Option<Seq<char>>) -> Result<Seq<char>, (i64, Seq<char>)> {
    let n = match name {
        Some(s) => if trim(s).len() > 0 {
            trim(s)
        } else {
            "souls_state.db"@
        },
        None => "souls_state.db"@,
    };
    if n == "state"@ || n == "souls_state"@ || n == "souls_state.db"@ {
        Ok("souls_state.db"@)
    } else if n == "heuristic_vault"@ || n == "souls_heuristic_vault"@ || n == "souls_heuristic_vault.db"@ {
        Ok("souls_heuristic_vault.db"@)
    } else {
        Err((-32602i64, "Banco de dados SQLite não reconhecido: '"@ + n + "'"@))
    }
}

/// The database file selected by `db_name_opt` (see [`db_file`]).
pub fn sqlite_db_file(db_name_opt: Option<&str>) -> (r: Result<String, ToolError>)
    ensures
        match r {
            Ok(s) => db_file(crate::text::opt_view(db_name_opt)) == Ok::<Seq<char>, (i64, Seq<char>)>(s@),
            Err(e) => db_file(crate::text::opt_view(db_name_opt)) == Err::<Seq<char>, (i64, Seq<char>)>(error_view(e)),
        },
{
    let n: Vec<char> = match db_name_opt {
        Some(s) => {
            let t = trim_chars(&to_chars(s));
            if t.len() > 0 {
                t
            } else {
                to_chars("souls_state.db")
            }
        },
        None => to_chars("souls_state.db"),
    };
    if eq_str(&n, "state") || eq_str(&n, "souls_state") || eq_str(&n, "souls_state.db") {
        Ok("souls_state.db".to_owned())
    } else if eq_str(&n, "heuristic_vault") || eq_str(&n, "souls_heuristic_vault") || eq_str(
        &n,
        "souls_heuristic_vault.db",
    ) {
        Ok("souls_heuristic_vault.db".to_owned())
    } else {
        let mut m = to_chars("Banco de dados SQLite não reconhecido: '");
        append_chars(&mut m, &n);
        push_str_chars(&mut m, "'");
        Err(invalid(m))
    }
}

// ---------------------------------------------------------------------------
// Result table
// ---------------------------------------------------------------------------

/// A cell of a query result.
pub enum SqlCell {
    /// SQL `NULL`.
    Null,
    /// A text value.
    Text(String),
    /// Any other value, in its JSON rendering.
    Json(String),
}

/// The text a cell shows.
pub open spec fn cell_text(c: SqlCell) -> Seq<char> {
    match c {
        SqlCell::Null => "NULL"@,
        SqlCell::Text(s) => s@,
        SqlCell::Json(s) => s@,
    }
}

/// A table row: ` cell |` for each cell, after a leading `|`.
pub open spec fn table_row(cells: Seq<Seq<char>>) -> Seq<char>
    decreases cells.len(),
{
    if cells.len() == 0 {
        seq!['|']
    } else {
        table_row(cells.drop_last()) + seq![' '] + escape_cell(cells.last()) + seq![' ', '|']
    }
}

/// The separator row under `n` columns.
pub open spec fn separator_row(n: nat) -> Seq<char>
    decreases n,
{
    if n == 0 {
        seq!['|']
    } else {
        separator_row((n - 1) as nat) + " --- |"@
    }
}

/// The texts of the cells of a row.
pub open spec fn row_texts(row: Seq<SqlCell>) -> Seq<Seq<char>> {
    row.map_values(|c: SqlCell| cell_text(c))
}

/// The data rows of a table, each followed by a line feed.
pub open spec fn data_rows(rows: Seq<Vec<SqlCell>>) -> Seq<char>
    decreases rows.len(),
{
    if rows.len() == 0 {
        Seq::empty()
    } else {
        data_rows(rows.drop_last()) + table_row(row_texts(rows.last()@)) + seq!['\n']
    }
}

/// The names of the columns.
pub open spec fn column_names(columns: Seq<String>) -> Seq<Seq<char>> {
    columns.map_values(|c: String| c@)
}

/// The Markdown report of a query result.
pub open spec fn sqlite_result_markdown(query: Seq<char>, columns: Seq<String>, rows: Seq<Vec<SqlCell>>, truncated: bool) -> Seq<char> {
    if columns.len() == 0 {
        "### Resultado da Consulta SQLite\n\n**Query:** `"@ + query
            + "`\n\nA consulta foi executada com sucesso, mas não retornou colunas."@
    } else {
        trim_end(
            "### Resultado da Consulta SQLite\n\n**Query:** `"@ + query + "`\n**Linhas:** "@ + decimal(rows.len())
                + (if truncated {
                " (limitado às primeiras "@ + decimal(SQLITE_MAX_ROWS as nat) + " linhas)"@
            } else {
                Seq::empty()
            }) + "\n\n"@ + table_row(column_names(columns)) + seq!['\n'] + separator_row(columns.len()) + seq!['\n']
                + data_rows(rows),
        )
    }
}

fn push_row(out: &mut Vec<char>, cells: &Vec<Vec<char>>)
    ensures
        final(out)@ == old(out)@ + table_row(views(cells@)),
{
    out.push('|');
    let ghost start = old(out)@;
    let mut i: usize = 0;
    assert(out@ == start + table_row(views(cells@).take(0)));
    while i < cells.len()
        invariant
            i <= cells.len(),
            out@ == start + table_row(views(cells@).take(i as int)),
        decreases cells.len() - i,
    {
        out.push(' ');
        let e = escape_markdown_cell(from_chars(&cells[i]).as_str());
        append_chars(out, &to_chars(e.as_str()));
        out.push(' ');
        out.push('|');
        proof {
            let t = views(cells@).take(i + 1);
            assert(t.drop_last() =~= views(cells@).take(i as int));
            assert(t.last() == cells@[i as int]@);
        }
        assert(out@ =~= start + table_row(views(cells@).take(i + 1)));
        i += 1;
    }
    assert(views(cells@).take(cells.len() as int) =~= views(cells@));
}

fn cell_chars(c: &SqlCell) -> (r: Vec<char>)
    ensures
        r@ == cell_text(*c),
{
    match c {
        SqlCell::Null => to_chars("NULL"),
        SqlCell::Text(s) => to_chars(s.as_str()),
        SqlCell::Json(s) => to_chars(s.as_str()),
    }
}

/// The report of a query result: a header with the query and the number of
/// rows (noting a cut at [`SQLITE_MAX_ROWS`]), then a Markdown table whose
/// cells are escaped onto one line.
pub fn format_sqlite_result_markdown(query: &str, columns: &Vec<String>, rows: &Vec<Vec<SqlCell>>, truncated: bool) -> (r: String)
    ensures
        r@ == sqlite_result_markdown(query@, columns@, rows@, truncated),
{
    if columns.len() == 0 {
        let mut out = to_chars("### Resultado da Consulta SQLite\n\n**Query:** `");
        append_chars(&mut out, &to_chars(query));
        push_str_chars(&mut out, "`\n\nA consulta foi executada com sucesso, mas não retornou colunas.");
        return from_chars(&out);
    }
    let mut out = to_chars("### Resultado da Consulta SQLite\n\n**Query:** `");
    append_chars(&mut out, &to_chars(query));
    push_str_chars(&mut out, "`\n**Linhas:** ");
    append_chars(&mut out, &decimal_exec(rows.len() as u64));
    if truncated {
        push_str_chars(&mut out, " (limitado às primeiras ");
        append_chars(&mut out, &decimal_exec(SQLITE_MAX_ROWS as u64));
        push_str_chars(&mut out, " linhas)");
    }
    push_str_chars(&mut out, "\n\n");
    let ghost header = out@;
    assert(header == "### Resultado da Consulta SQLite\n\n**Query:** `"@ + query@ + "`\n**Linhas:** "@ + decimal(rows@.len())
        + (if truncated {
        " (limitado às primeiras "@ + decimal(SQLITE_MAX_ROWS as nat) + " linhas)"@
    } else {
        Seq::<char>::empty()
    }) + "\n\n"@);
    let mut names: Vec<Vec<char>> = Vec::new();
    let mut c: usize = 0;
    while c < columns.len()
        invariant
            c <= columns.len(),
            views(names@) == column_names(columns@).take(c as int),
        decreases columns.len() - c,
    {
        let ghost n0 = names@;
        let nm = to_chars(columns[c].as_str());
        names.push(nm);
        assert(views(names@) =~= views(n0).push(columns@[c as int]@));
        assert(column_names(columns@).take(c + 1) =~= column_names(columns@).take(c as int).push(columns@[c as int]@));
        assert(views(names@) =~= column_names(columns@).take(c + 1));
        c += 1;
    }
    assert(column_names(columns@).take(columns.len() as int) =~= column_names(columns@));
    push_row(&mut out, &names);
    out.push('\n');
    let ghost before_sep = out@;
    out.push('|');
    let mut k: usize = 0;
    assert(out@ == before_sep + separator_row(0));
    while k < columns.len()
        invariant
            k <= columns.len(),
            out@ == before_sep + separator_row(k as nat),
        decreases columns.len() - k,
    {
        push_str_chars(&mut out, " --- |");
        k += 1;
    }
    out.push('\n');
    let ghost before_rows = out@;
    let mut r: usize = 0;
    assert(rows@.take(0) =~= Seq::<Vec<SqlCell>>::empty());
    while r < rows.len()
        invariant
            r <= rows.len(),
            out@ == before_rows + data_rows(rows@.take(r as int)),
        decreases rows.len() - r,
    {
        let row = &rows[r];
        let mut cells: Vec<Vec<char>> = Vec::new();
        let mut q: usize = 0;
        while q < row.len()
            invariant
                q <= row.len(),
                views(cells@) == row_texts(row@).take(q as int),
            decreases row.len() - q,
        {
            let ghost c0 = cells@;
            let cc = cell_chars(&row[q]);
            cells.push(cc);
            assert(views(cells@) =~= views(c0).push(cell_text(row@[q as int])));
            assert(row_texts(row@).take(q + 1) =~= row_texts(row@).take(q as int).push(cell_text(row@[q as int])));
            assert(views(cells@) =~= row_texts(row@).take(q + 1));
            q += 1;
        }
        assert(row_texts(row@).take(row.len() as int) =~= row_texts(row@));
        push_row(&mut out, &cells);
        out.push('\n');
        proof {
            let t = rows@.take(r + 1);
            assert(t.drop_last() =~= rows@.take(r as int));
            assert(t.last() == *row);
        }
        assert(out@ =~= before_rows + data_rows(rows@.take(r + 1)));
        r += 1;
    }
    assert(rows@.take(rows.len() as int) =~= rows@);
    assert(out@ =~= header + table_row(column_names(columns@)) + seq!['\n'] + separator_row(columns@.len()) + seq!['\n']
        + data_rows(rows@));
    from_chars(&trim_end_chars(&out))
}

} // verus!
