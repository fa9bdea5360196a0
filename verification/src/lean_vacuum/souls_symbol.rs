//! Where a symbol is declared: validation of the name, the comment and
//! string context of a match, its kind, and its line and column.
//!
//! Positions and columns count characters (on ASCII text they are the byte
//! positions).
use vstd::prelude::*;
use crate::text::{
    find, contains, lines, to_chars, from_chars, lines_exec, find_from_exec, contains_exec, is_ascii_alpha,
    take_chars, skip_chars,
    is_ascii_digit, char_is_ascii_alpha, char_is_ascii_digit, decimal, decimal_exec, append_chars,
};

verus! {

/// Longest accepted symbol name, in characters.
pub const MAX_NAME_CHARS: usize = 256;

/// The kinds of declaration recognised.
#[derive(Clone, Copy, PartialEq, Eq, Debug)]
pub enum SymbolKind {
    Struct,
    Fn,
    Class,
    Def,
    Unknown,
}

/// The name under which a kind is reported.
pub open spec fn kind_name(k: SymbolKind) -> Seq<char> {
    match k {
        SymbolKind::Struct => seq!['s', 't', 'r', 'u', 'c', 't'],
        SymbolKind::Fn => seq!['f', 'n'],
        SymbolKind::Class => seq!['c', 'l', 'a', 's', 's'],
        SymbolKind::Def => seq!['d', 'e', 'f'],
        SymbolKind::Unknown => seq!['u', 'n', 'k', 'n', 'o', 'w', 'n'],
    }
}

impl SymbolKind {
    /// The name under which the kind is reported.
    pub fn as_str(self) -> (r: &'static str)
        ensures
            r@ == kind_name(self),
    {
        proof {
            reveal_strlit("struct");
            reveal_strlit("fn");
            reveal_strlit("class");
            reveal_strlit("def");
            reveal_strlit("unknown");
        }
        match self {
            SymbolKind::Struct => "struct",
            SymbolKind::Fn => "fn",
            SymbolKind::Class => "class",
            SymbolKind::Def => "def",
            SymbolKind::Unknown => "unknown",
        }
    }
}

/// Where a symbol is declared.
pub struct SymbolLocation {
    /// The file.
    pub file: String,
    /// The line, counted from 1.
    pub line: usize,
    /// The column, counted from 1.
    pub col: usize,
    /// The kind of declaration.
    pub kind: SymbolKind,
}

/// Why a symbol could not be resolved.
pub enum SymbolError {
    /// The name is empty, too long or not an identifier.
    InvalidInput(String),
    /// The workspace could not be read.
    Io(String),
}

impl SymbolError {
    /// The error's message: `INVALID_INPUT: ...` or `IO_ERROR: ...`.
    pub fn message(&self) -> (r: String)
        ensures
            r@ == match self {
                SymbolError::InvalidInput(m) => seq!['I', 'N', 'V', 'A', 'L', 'I', 'D', '_', 'I', 'N', 'P', 'U', 'T', ':', ' '] + m@,
                SymbolError::Io(m) => seq!['I', 'O', '_', 'E', 'R', 'R', 'O', 'R', ':', ' '] + m@,
            },
    {
        proof {
            reveal_strlit("INVALID_INPUT: ");
            reveal_strlit("IO_ERROR: ");
        }
        let (head, m) = match self {
            SymbolError::InvalidInput(m) => ("INVALID_INPUT: ", m),
            SymbolError::Io(m) => ("IO_ERROR: ", m),
        };
        let mut cs = to_chars(head);
        let ms = to_chars(m.as_str());
        append_chars(&mut cs, &ms);
        from_chars(&cs)
    }
}

// ---------------------------------------------------------------------------
// Identifiers
// ---------------------------------------------------------------------------

/// `[A-Za-z_][A-Za-z0-9_]*`.
pub open spec fn valid_identifier(s: Seq<char>) -> bool {
    &&& s.len() > 0
    &&& (is_ascii_alpha(s[0]) || s[0] == '_')
    &&& forall|i: int| 1 <= i < s.len() ==> is_ascii_alpha(#[trigger] s[i]) || is_ascii_digit(s[i]) || s[i] == '_'
}

/// Whether `s` is an identifier `[A-Za-z_][A-Za-z0-9_]*`.
pub fn is_valid_identifier(s: &str) -> (b: bool)
    ensures
        b == valid_identifier(s@),
{
    let cs = to_chars(s);
    if cs.len() == 0 {
        return false;
    }
    if !(char_is_ascii_alpha(cs[0]) || cs[0] == '_') {
        return false;
    }
    let mut i: usize = 1;
    while i < cs.len()
        invariant
            1 <= i <= cs.len(),
            cs@ == s@,
            forall|k: int| 1 <= k < i ==> is_ascii_alpha(#[trigger] cs@[k]) || is_ascii_digit(cs@[k]) || cs@[k] == '_',
        decreases cs.len() - i,
    {
        let c = cs[i];
        if !(char_is_ascii_alpha(c) || char_is_ascii_digit(c) || c == '_') {
            return false;
        }
        i += 1;
    }
    true
}

// ---------------------------------------------------------------------------
// Comment and string context
// ---------------------------------------------------------------------------

/// A quote character: `"`, `'` or a backtick.
pub open spec fn is_quote(c: char) -> bool {
    c == '"' || c == '\'' || c == '`'
}

/// The quotes of `s` that no backslash escapes (a backslash hides the
/// character after it).
pub open spec fn quote_count(s: Seq<char>) -> nat
    decreases s.len(),
{
    if s.len() == 0 {
        0
    } else if s[0] == '\\' {
        if s.len() >= 2 {
            quote_count(s.skip(2))
        } else {
            0
        }
    } else {
        (if is_quote(s[0]) {
            1nat
        } else {
            0nat
        }) + quote_count(s.skip(1))
    }
}

proof fn lemma_quote_count_bound(s: Seq<char>)
    ensures
        quote_count(s) <= s.len(),
    decreases s.len(),
{
    if s.len() > 0 {
        if s[0] == '\\' {
            if s.len() >= 2 {
                lemma_quote_count_bound(s.skip(2));
            }
        } else {
            lemma_quote_count_bound(s.skip(1));
        }
    }
}

fn count_quotes_chars(cs: &Vec<char>) -> (r: usize)
    ensures
        r == quote_count(cs@),
{
    let mut count: usize = 0;
    let mut i: usize = 0;
    proof {
        assert(cs@.skip(0) =~= cs@);
    }
    while i < cs.len()
        invariant
            i <= cs.len(),
            count <= i,
            count + quote_count(cs@.skip(i as int)) == quote_count(cs@),
        decreases cs.len() - i,
    {
        let ghost rest = cs@.skip(i as int);
        assert(rest[0] == cs@[i as int]);
        let c = cs[i];
        if c == '\\' {
            if i + 1 < cs.len() {
                assert(rest.skip(2) =~= cs@.skip(i + 2));
                i += 2;
            } else {
                i = cs.len();
                assert(cs@.skip(i as int) =~= Seq::<char>::empty());
            }
        } else {
            assert(rest.skip(1) =~= cs@.skip(i + 1));
            if c == '"' || c == '\'' || c == '`' {
                count += 1;
            }
            i += 1;
        }
    }
    assert(cs@.skip(i as int) =~= Seq::<char>::empty());
    count
}

/// The number of quote characters of `s` (`"`, `'`, backtick) that no
/// backslash escapes.
pub fn count_unbalanced_quotes(s: &str) -> (r: usize)
    ensures
        r == quote_count(s@),
{
    let cs = to_chars(s);
    count_quotes_chars(&cs)
}

/// Whether the match at column `col` (0-based) of `line` sits in a comment
/// or a string: after a `//` with no quote before it, inside a `/*` that
/// is not closed before `col`, or after an odd number of quotes.
pub open spec fn in_comment_or_string(line: Seq<char>, col: int) -> bool {
    let prefix = line.take(if col < line.len() { col } else { line.len() as int });
    let line_comment = match find(prefix, seq!['/', '/']) {
        Some(idx) => quote_count(prefix.take(idx)) == 0,
        None => false,
    };
    let block_comment = match find(prefix, seq!['/', '*']) {
        Some(start) => match find(prefix.skip(start + 2), seq!['*', '/']) {
            Some(end) => !(start + 2 + end < col),
            None => true,
        },
        None => false,
    };
    line_comment || block_comment || quote_count(prefix) % 2 == 1
}

/// Whether character position `col` (0-based) of `line` lies in a comment
/// (`//`, or a `/* ... */` on the same line) or in a string literal.
fn in_comment_or_string_at_char(line: &str, col: usize) -> (b: bool)
    ensures
        b == in_comment_or_string(line@, col as int),
{
    let cs = to_chars(line);
    let n = if col < cs.len() {
        col
    } else {
        cs.len()
    };
    let prefix = take_chars(&cs, n);
    let slashes = vec!['/', '/'];
    let open = vec!['/', '*'];
    let close = vec!['*', '/'];
    assert(slashes@ == seq!['/', '/']);
    assert(open@ == seq!['/', '*']);
    assert(close@ == seq!['*', '/']);
    if let Some(idx) = find_from_exec(&prefix, &slashes, 0) {
        proof {
            crate::text::lemma_find_from(prefix@, slashes@, 0);
        }
        let before = take_chars(&prefix, idx);
        if count_quotes_chars(&before) == 0 {
            return true;
        }
    }
    if let Some(start) = find_from_exec(&prefix, &open, 0) {
        proof {
            crate::text::lemma_find_from(prefix@, open@, 0);
        }
        let after_open = skip_chars(&prefix, start + 2);
        if let Some(end) = find_from_exec(&after_open, &close, 0) {
            proof {
                crate::text::lemma_find_from(after_open@, close@, 0);
            }
            if !(start + 2 + end < col) {
                return true;
            }
        } else {
            return true;
        }
    }
    let q = count_quotes_chars(&prefix);
    q % 2 == 1
}

// ---------------------------------------------------------------------------
// Kind
// ---------------------------------------------------------------------------

/// `char::to_ascii_lowercase`.
pub open spec fn ascii_lower_char(c: char) -> char {
    if 0x41 <= (c as int) <= 0x5A {
        ((c as int) + 32) as char
    } else {
        c
    }
}

/// `str::to_ascii_lowercase`.
pub open spec fn ascii_lower(s: Seq<char>) -> Seq<char> {
    s.map_values(|c: char| ascii_lower_char(c))
}

fn lower_char(c: char) -> (r: char)
    ensures
        r == ascii_lower_char(c),
{
    let u = c as u32;
    proof {
        crate::sorting::lemma_char_code(c);
    }
    if 0x41 <= u && u <= 0x5A {
        let b = (u + 32) as u8;
        b as char
    } else {
        c
    }
}

/// `v` with ASCII letters lowered.
pub fn lower_chars(v: &Vec<char>) -> (r: Vec<char>)
    ensures
        r@ == ascii_lower(v@),
{
    let mut r: Vec<char> = Vec::new();
    let mut i: usize = 0;
    while i < v.len()
        invariant
            i <= v.len(),
            r@ == ascii_lower(v@).take(i as int),
        decreases v.len() - i,
    {
        r.push(lower_char(v[i]));
        assert(r@ =~= ascii_lower(v@).take(i + 1));
        i += 1;
    }
    assert(ascii_lower(v@).take(v.len() as int) =~= ascii_lower(v@));
    r
}

/// The kind of the declaration of `name` on `line`: the first of
/// `struct NAME`, `class NAME`, `fn NAME`, `def NAME` that occurs in the
/// line, ignoring ASCII case.
pub open spec fn classify(line: Seq<char>, name: Seq<char>) -> SymbolKind {
    let l = ascii_lower(line);
    if contains(l, ascii_lower(seq!['s', 't', 'r', 'u', 'c', 't', ' '] + name)) {
        SymbolKind::Struct
    } else if contains(l, ascii_lower(seq!['c', 'l', 'a', 's', 's', ' '] + name)) {
        SymbolKind::Class
    } else if contains(l, ascii_lower(seq!['f', 'n', ' '] + name)) {
        SymbolKind::Fn
    } else if contains(l, ascii_lower(seq!['d', 'e', 'f', ' '] + name)) {
        SymbolKind::Def
    } else {
        SymbolKind::Unknown
    }
}

fn keyword_then(kw: Vec<char>, name: &Vec<char>) -> (r: Vec<char>)
    ensures
        r@ == ascii_lower(kw@ + name@),
{
    let mut k = kw;
    append_chars(&mut k, name);
    lower_chars(&k)
}

/// The kind of the declaration of `name` on `line`.
pub fn classify_kind(line: &str, name: &str) -> (k: SymbolKind)
    ensures
        k == classify(line@, name@),
{
    let lower = lower_chars(&to_chars(line));
    let nm = to_chars(name);
    let s = keyword_then(vec!['s', 't', 'r', 'u', 'c', 't', ' '], &nm);
    if contains_exec(&lower, &s) {
        return SymbolKind::Struct;
    }
    let c = keyword_then(vec!['c', 'l', 'a', 's', 's', ' '], &nm);
    if contains_exec(&lower, &c) {
        return SymbolKind::Class;
    }
    let f = keyword_then(vec!['f', 'n', ' '], &nm);
    if contains_exec(&lower, &f) {
        return SymbolKind::Fn;
    }
    let d = keyword_then(vec!['d', 'e', 'f', ' '], &nm);
    if contains_exec(&lower, &d) {
        return SymbolKind::Def;
    }
    SymbolKind::Unknown
}

// ---------------------------------------------------------------------------
// Line and column
// ---------------------------------------------------------------------------

/// The line feeds in `p`.
pub open spec fn newline_count(p: Seq<char>) -> nat
    decreases p.len(),
{
    if p.len() == 0 {
        0
    } else {
        newline_count(p.drop_last()) + (if p.last() == '\n' {
            1nat
        } else {
            0nat
        })
    }
}

/// Where the last line of `p` starts: just after its last line feed, or 0.
pub open spec fn last_line_start(p: Seq<char>) -> nat
    decreases p.len(),
{
    if p.len() == 0 {
        0
    } else if p.last() == '\n' {
        p.len()
    } else {
        last_line_start(p.drop_last())
    }
}

proof fn lemma_line_start_bound(p: Seq<char>)
    ensures
        last_line_start(p) <= p.len(),
        newline_count(p) <= p.len(),
    decreases p.len(),
{
    if p.len() > 0 {
        lemma_line_start_bound(p.drop_last());
    }
}

/// The line (from 1), the column (from 1) and the text of the line at
/// position `offset` of `content`.
pub open spec fn line_col(content: Seq<char>, offset: int) -> (nat, int, Seq<char>) {
    let p = content.take(if offset < content.len() { offset } else { content.len() as int });
    let start = last_line_start(p);
    let rest = lines(content.skip(start as int));
    (newline_count(p) + 1, offset - start + 1, if rest.len() > 0 { rest[0] } else { Seq::empty() })
}

proof fn lemma_newline_count_prefix(p: Seq<char>, i: int)
    requires
        0 <= i <= p.len(),
    ensures
        newline_count(p.take(i)) <= newline_count(p),
    decreases p.len() - i,
{
    if i < p.len() {
        lemma_newline_count_prefix(p.drop_last(), i);
        assert(p.drop_last().take(i) =~= p.take(i));
    } else {
        assert(p.take(i) =~= p);
    }
}

/// The line (from 1), the character position where that line starts, and
/// the text of the line, at character position `k` of `content`.
fn line_at_char(content: &str, k: usize) -> (r: (usize, usize, String))
    requires
        newline_count(content@.take(if (k as int) < content@.len() { k as int } else { content@.len() as int })) + 1
            <= usize::MAX,
    ensures
        r.0 == line_col(content@, k as int).0,
        r.1 == last_line_start(content@.take(if (k as int) < content@.len() { k as int } else { content@.len() as int })),
        r.2@ == line_col(content@, k as int).2,
{
    let cs = to_chars(content);
    let n: usize = if k < cs.len() { k } else { cs.len() };
    let ghost p = cs@.take(n as int);
    let mut line_no: usize = 1;
    let mut line_start: usize = 0;
    let mut i: usize = 0;
    while i < n
        invariant
            i <= n <= cs.len(),
            cs@ == content@,
            p == cs@.take(n as int),
            newline_count(p) + 1 <= usize::MAX,
            line_no == newline_count(cs@.take(i as int)) + 1,
            line_start == last_line_start(cs@.take(i as int)),
        decreases n - i,
    {
        proof {
            assert(cs@.take(i + 1).drop_last() =~= cs@.take(i as int));
            assert(p.take(i + 1) =~= cs@.take(i + 1));
            lemma_newline_count_prefix(p, i + 1);
        }
        if cs[i] == '\n' {
            line_no += 1;
            line_start = i + 1;
        }
        i += 1;
    }
    proof {
        lemma_line_start_bound(cs@.take(i as int));
    }
    let rest = skip_chars(&cs, line_start);
    let ls = lines_exec(&rest);
    let text = if ls.len() > 0 {
        from_chars(&ls[0])
    } else {
        String::new()
    };
    (line_no, line_start, text)
}


// ---------------------------------------------------------------------------
// Resolution
// ---------------------------------------------------------------------------

/// The declaration pattern of an identifier: `\b(?:struct|fn|class|def)\s+NAME\b`.
/// An identifier holds no regular-expression metacharacter, so it stands
/// in the pattern as it is.
pub open spec fn decl_pattern(name: Seq<char>) -> Seq<char> {
    "\\b(?:struct|fn|class|def)\\s+"@ + name + "\\b"@
}

/// Why a name is refused, if it is.
pub open spec fn name_problem(name: Seq<char>) -> Option<Seq<char>> {
    if name.len() == 0 {
        Some("nome do símbolo está vazio (empty string)"@)
    } else if name.len() > MAX_NAME_CHARS {
        Some("nome do símbolo excede 256 chars ("@ + decimal(name.len()) + " recebidos)"@)
    } else if !valid_identifier(name) {
        Some(
            "nome '"@ + name
                + "' contém caracteres inválidos (esperado identificador [A-Za-z_][A-Za-z0-9_]*)"@,
        )
    } else {
        None
    }
}

/// Where a match starting at byte `b` of `content` declares the symbol: its
/// line, its column in bytes and its kind, unless it lies in a comment or a
/// string (or `b` is no character boundary).
pub open spec fn match_hit(content: Seq<char>, name: Seq<char>, m: Seq<crate::pattern::GroupView>) -> Option<
    (nat, int, SymbolKind),
> {
    if m.len() > 0 && m[0] is Some {
        let b = m[0]->Some_0.0 as int;
        match crate::pattern::char_at_byte(content, b) {
            Some(k) => {
                let lc = line_col(content, k);
                let start = k - (lc.1 - 1);
                if in_comment_or_string(lc.2, lc.1 - 1) {
                    None
                } else {
                    Some((lc.0, b - crate::pattern::utf8_len(content.take(start)) + 1, classify(lc.2, name)))
                }
            },
            None => None,
        }
    } else {
        None
    }
}

/// The first declaring match of a file.
pub open spec fn first_hit(content: Seq<char>, name: Seq<char>, ms: Seq<Seq<crate::pattern::GroupView>>) -> Option<
    (nat, int, SymbolKind),
>
    decreases ms.len(),
{
    if ms.len() == 0 {
        None
    } else {
        match match_hit(content, name, ms[0]) {
            Some(h) => Some(h),
            None => first_hit(content, name, ms.drop_first()),
        }
    }
}

/// The first declaration of `name` in the files (path, content), in order:
/// the file, line, byte column and kind; or the message of the pattern's
/// error.
pub open spec fn first_declaration(files: Seq<(String, String)>, name: Seq<char>) -> Result<
    Option<(Seq<char>, nat, int, SymbolKind)>,
    Seq<char>,
>
    decreases files.len(),
{
    if files.len() == 0 {
        Ok(None)
    } else {
        match crate::pattern::regex_captures(decl_pattern(name), files[0].1@) {
            Err(e) => Err("regex inválida: "@ + e),
            Ok(ms) => match first_hit(files[0].1@, name, ms) {
                Some(h) => Ok(Some((files[0].0@, h.0, h.1, h.2))),
                None => first_declaration(files.drop_first(), name),
            },
        }
    }
}

/// The view of a resolution.
pub open spec fn resolution_view(r: Result<Option<SymbolLocation>, SymbolError>) -> Result<
    Option<(Seq<char>, nat, int, SymbolKind)>,
    Seq<char>,
> {
    match r {
        Ok(Some(l)) => Ok(Some((l.file@, l.line as nat, l.col as int, l.kind))),
        Ok(None) => Ok(None),
        Err(SymbolError::InvalidInput(m)) => Err(m@),
        Err(SymbolError::Io(m)) => Err(m@),
    }
}

/// What [`resolve_symbol`] answers: an invalid name is refused with the
/// reason; else the first declaration, if any.
pub open spec fn resolve_spec(files: Seq<(String, String)>, name: Seq<char>) -> Result<
    Option<(Seq<char>, nat, int, SymbolKind)>,
    Seq<char>,
> {
    match name_problem(name) {
        Some(p) => Err(p),
        None => first_declaration(files, name),
    }
}

fn check_name(name: &str) -> (r: Option<String>)
    ensures
        match r {
            Some(m) => name_problem(name@) == Some(m@),
            None => name_problem(name@) is None,
        },
{
    let cs = to_chars(name);
    if cs.len() == 0 {
        return Some("nome do símbolo está vazio (empty string)".to_owned());
    }
    if cs.len() > MAX_NAME_CHARS {
        let mut m = to_chars("nome do símbolo excede 256 chars (");
        append_chars(&mut m, &decimal_exec(cs.len() as u64));
        crate::text::push_str_chars(&mut m, " recebidos)");
        return Some(from_chars(&m));
    }
    if !is_valid_identifier(name) {
        let mut m = to_chars("nome '");
        append_chars(&mut m, &cs);
        crate::text::push_str_chars(&mut m, "' contém caracteres inválidos (esperado identificador [A-Za-z_][A-Za-z0-9_]*)");
        return Some(from_chars(&m));
    }
    None
}

fn utf8_len_exec(cs: &Vec<char>, n: usize, bound: usize) -> (r: usize)
    requires
        n <= cs.len(),
        crate::pattern::utf8_len(cs@.take(n as int)) <= bound,
    ensures
        r == crate::pattern::utf8_len(cs@.take(n as int)),
{
    let mut acc: usize = 0;
    let mut i: usize = 0;
    assert(cs@.take(0) =~= Seq::<char>::empty());
    while i < n
        invariant
            i <= n <= cs.len(),
            acc == crate::pattern::utf8_len(cs@.take(i as int)),
            crate::pattern::utf8_len(cs@.take(n as int)) <= bound,
        decreases n - i,
    {
        assert(cs@.take(i + 1).drop_last() =~= cs@.take(i as int));
        proof {
            crate::pattern::lemma_utf8_len_mono(cs@, i + 1, n as int);
        }
        acc = acc + crate::pattern::width_exec(cs[i]);
        i += 1;
    }
    acc
}

fn hit_in(content: &str, name: &str, m: &Vec<Option<(usize, String)>>) -> (r: Option<(usize, usize, SymbolKind)>)
    requires
        valid_identifier(name@),
        crate::pattern::utf8_len(content@) < usize::MAX,
    ensures
        match r {
            Some(h) => match_hit(content@, name@, crate::pattern::capture_views(seq![*m])[0]) == Some(
                (h.0 as nat, h.1 as int, h.2),
            ),
            None => match_hit(content@, name@, crate::pattern::capture_views(seq![*m])[0]) is None,
        },
{
    let ghost mv = crate::pattern::capture_views(seq![*m])[0];
    if m.len() == 0 {
        return None;
    }
    let b = match &m[0] {
        Some(g) => g.0,
        None => {
            return None;
        },
    };
    assert(mv[0] is Some && mv[0]->Some_0.0 == b);
    let cs = to_chars(content);
    let k = match crate::pattern::char_index_of_byte(&cs, b) {
        Some(k) => k,
        None => {
            return None;
        },
    };
    proof {
        let kk = choose|j: int| 0 <= j <= cs@.len() && #[trigger] crate::pattern::utf8_len(cs@.take(j)) == b as int;
        assert(kk == k as int);
        assert(cs@.take(cs@.len() as int) =~= cs@);
        crate::pattern::lemma_utf8_len_mono(cs@, k as int, cs@.len() as int);
        crate::pattern::lemma_utf8_len_at_least(cs@.take(k as int));
    }
    proof {
        lemma_line_start_bound(cs@.take(k as int));
    }
    let (line, start, text) = line_at_char(content, k);
    proof {
        let p = cs@.take(if (k as int) < cs@.len() { k as int } else { cs@.len() as int });
        lemma_line_start_bound(p);
    }
    if in_comment_or_string_at_char(text.as_str(), k - start) {
        return None;
    }
    proof {
        crate::pattern::lemma_utf8_len_mono(cs@, start as int, k as int);
    }
    let sb = utf8_len_exec(&cs, start, b);
    let col = b - sb + 1;
    let kind = classify_kind(text.as_str(), name);
    Some((line, col, kind))
}

/// Where `name` is first declared among `files` (each a path and its
/// content, in walk order): the first match of
/// `\b(?:struct|fn|class|def)\s+NAME\b` that lies in no comment or string,
/// with its line, byte column and kind. An empty, over-long or
/// non-identifier name is refused.
pub fn resolve_symbol(files: &Vec<(String, String)>, name: &str) -> (r: Result<Option<SymbolLocation>, SymbolError>)
    requires
        forall|i: int| 0 <= i < files.len() ==> crate::pattern::utf8_len(#[trigger] files@[i].1@) < usize::MAX,
    ensures
        resolution_view(r) == resolve_spec(files@, name@),
        r matches Err(e) ==> e is InvalidInput,
{
    if let Some(m) = check_name(name) {
        return Err(SymbolError::InvalidInput(m));
    }
    let mut pat = to_chars("\\b(?:struct|fn|class|def)\\s+");
    append_chars(&mut pat, &to_chars(name));
    crate::text::push_str_chars(&mut pat, "\\b");
    let pattern = from_chars(&pat);
    let mut f: usize = 0;
    assert(files@.skip(0) =~= files@);
    while f < files.len()
        invariant
            f <= files.len(),
            pattern@ == decl_pattern(name@),
            valid_identifier(name@),
            name_problem(name@) is None,
            first_declaration(files@.skip(f as int), name@) == first_declaration(files@, name@),
            forall|i: int| 0 <= i < files.len() ==> crate::pattern::utf8_len(#[trigger] files@[i].1@) < usize::MAX,
        decreases files.len() - f,
    {
        let ghost rest = files@.skip(f as int);
        assert(rest[0] == files@[f as int]);
        assert(rest.drop_first() =~= files@.skip(f + 1));
        let file = &files[f];
        let caps = crate::pattern::captures_all(pattern.as_str(), file.1.as_str());
        match caps {
            Err(e) => {
                let mut m = to_chars("regex inválida: ");
                append_chars(&mut m, &to_chars(e.as_str()));
                return Err(SymbolError::InvalidInput(from_chars(&m)));
            },
            Ok(ms) => {
                let ghost mv = crate::pattern::capture_views(ms@);
                let mut j: usize = 0;
                assert(mv.skip(0) =~= mv);
                while j < ms.len()
                    invariant
                        j <= ms.len(),
                        f < files.len(),
                        *file == files@[f as int],
                        valid_identifier(name@),
                        mv == crate::pattern::capture_views(ms@),
                        first_hit(file.1@, name@, mv.skip(j as int)) == first_hit(file.1@, name@, mv),
                        crate::pattern::regex_captures(decl_pattern(name@), file.1@) == Ok::<
                            Seq<Seq<crate::pattern::GroupView>>,
                            Seq<char>,
                        >(mv),
                        first_declaration(files@.skip(f as int), name@) == first_declaration(files@, name@),
                        name_problem(name@) is None,
                        crate::pattern::utf8_len(file.1@) < usize::MAX,
                    decreases ms.len() - j,
                {
                    let ghost mr = mv.skip(j as int);
                    assert(mr[0] == mv[j as int]);
                    assert(mr.drop_first() =~= mv.skip(j + 1));
                    assert(crate::pattern::capture_views(seq![ms@[j as int]])[0] == mv[j as int]);
                    match hit_in(file.1.as_str(), name, &ms[j]) {
                        Some((line, col, kind)) => {
                            proof {
                                let rest = files@.skip(f as int);
                                assert(rest[0] == *file);
                                assert(first_hit(file.1@, name@, mv) == Some((line as nat, col as int, kind)));
                            }
                            let path = file.0.clone();
                            return Ok(Some(SymbolLocation { file: path, line, col, kind }));
                        },
                        None => {},
                    }
                    j += 1;
                }
                assert(mv.skip(ms.len() as int) =~= Seq::<Seq<crate::pattern::GroupView>>::empty());
            },
        }
        f += 1;
    }
    assert(files@.skip(files.len() as int) =~= Seq::<(String, String)>::empty());
    Ok(None)
}


// ---------------------------------------------------------------------------
// Byte positions
// ---------------------------------------------------------------------------

/// How many characters of `s` start before byte `b`.
pub open spec fn chars_before_byte(s: Seq<char>, b: int) -> nat
    decreases s.len(),
{
    if s.len() == 0 {
        0
    } else {
        chars_before_byte(s.drop_last(), b) + (if crate::pattern::utf8_len(s.drop_last()) < b {
            1nat
        } else {
            0nat
        })
    }
}

/// The line (from 1), the column (from 1, in bytes) and the text of the
/// line at byte `b` of `content`: the line feeds among the bytes before `b`
/// are counted, and the column is `b` less the byte where that line starts.
pub open spec fn line_col_bytes(content: Seq<char>, b: int) -> (nat, int, Seq<char>) {
    let k = chars_before_byte(content, b);
    let lc = line_col(content, k as int);
    let start = last_line_start(content.take(k as int));
    (lc.0, b - crate::pattern::utf8_len(content.take(start as int)) + 1, lc.2)
}

/// The character position at which the byte prefix `..col` of `line` ends:
/// the end of the line when `col` reaches past it.
pub open spec fn char_cut(line: Seq<char>, col: int) -> int {
    if col >= crate::pattern::utf8_len(line) {
        line.len() as int
    } else {
        match crate::pattern::char_at_byte(line, col) {
            Some(k) => k,
            None => line.len() as int,
        }
    }
}

/// Whether byte column `col` (0-based) of `line` lies in a comment or a
/// string: [`in_comment_or_string`] read on the bytes before `col`.
pub open spec fn in_comment_or_string_bytes(line: Seq<char>, col: int) -> bool {
    in_comment_or_string(line, char_cut(line, col))
}

proof fn lemma_chars_before_byte(s: Seq<char>, b: int, i: int)
    requires
        0 <= i <= s.len(),
        forall|j: int| 0 <= j < i ==> crate::pattern::utf8_len(#[trigger] s.take(j)) < b,
        i == s.len() || crate::pattern::utf8_len(s.take(i)) >= b,
    ensures
        chars_before_byte(s, b) == i,
    decreases s.len(),
{
    if s.len() > 0 {
        let d = s.drop_last();
        assert(s.take(s.len() - 1) =~= d);
        if i == s.len() {
            assert forall|j: int| 0 <= j < i - 1 implies crate::pattern::utf8_len(#[trigger] d.take(j)) < b by {
                assert(d.take(j) =~= s.take(j));
            }
            lemma_chars_before_byte(d, b, i - 1);
        } else {
            assert forall|j: int| 0 <= j < i implies crate::pattern::utf8_len(#[trigger] d.take(j)) < b by {
                assert(d.take(j) =~= s.take(j));
            }
            if i < s.len() - 1 {
                assert(d.take(i) =~= s.take(i));
            }
            crate::pattern::lemma_utf8_len_mono(s, i, s.len() - 1);
            lemma_chars_before_byte(d, b, i);
        }
    }
}

/// The line (from 1), the column (from 1, in bytes) and the text of the
/// line at byte `byte_offset` of `content`. The line number and the column
/// must fit in a `usize`.
pub fn byte_offset_to_line_col(content: &str, byte_offset: usize) -> (r: (usize, usize, String))
    requires
        line_col_bytes(content@, byte_offset as int).0 <= usize::MAX,
        line_col_bytes(content@, byte_offset as int).1 <= usize::MAX,
    ensures
        r.0 == line_col_bytes(content@, byte_offset as int).0,
        r.1 == line_col_bytes(content@, byte_offset as int).1,
        r.2@ == line_col_bytes(content@, byte_offset as int).2,
{
    let total = crate::pattern::utf8_byte_len(content);
    let cs = to_chars(content);
    let mut acc: usize = 0;
    let mut i: usize = 0;
    let mut line_start_bytes: usize = 0;
    assert(cs@.take(0) =~= Seq::<char>::empty());
    assert(cs@.take(cs@.len() as int) =~= cs@);
    while i < cs.len() && acc < byte_offset
        invariant
            i <= cs.len(),
            cs@ == content@,
            total == crate::pattern::utf8_len(cs@),
            cs@.take(cs@.len() as int) == cs@,
            acc == crate::pattern::utf8_len(cs@.take(i as int)),
            forall|j: int| 0 <= j < i ==> crate::pattern::utf8_len(#[trigger] cs@.take(j)) < byte_offset,
            line_start_bytes == crate::pattern::utf8_len(cs@.take(last_line_start(cs@.take(i as int)) as int)),
            line_start_bytes <= byte_offset,
        decreases cs.len() - i,
    {
        let ghost t = cs@.take(i + 1);
        assert(t.drop_last() =~= cs@.take(i as int));
        proof {
            crate::pattern::lemma_utf8_len_mono(cs@, i + 1, cs@.len() as int);
            assert forall|j: int| 0 <= j < i + 1 implies crate::pattern::utf8_len(#[trigger] cs@.take(j)) < byte_offset by {
                if j == i {
                }
            }
        }
        let w = crate::pattern::width_exec(cs[i]);
        if cs[i] == '\n' {
            assert(cs@.take(last_line_start(t) as int) =~= t);
            line_start_bytes = acc + w;
        } else {
            assert(last_line_start(t) == last_line_start(cs@.take(i as int)));
        }
        acc = acc + w;
        i += 1;
    }
    proof {
        lemma_chars_before_byte(cs@, byte_offset as int, i as int);
        lemma_line_start_bound(cs@.take(i as int));
        assert(cs@.take(i as int).take(last_line_start(cs@.take(i as int)) as int) =~= cs@.take(
            last_line_start(cs@.take(i as int)) as int,
        ));
    }
    proof {
        lemma_newline_count_prefix(cs@.take(i as int), i as int);
    }
    let (line, _start, text) = line_at_char(content, i);
    let col_no = byte_offset - line_start_bytes + 1;
    (line, col_no, text)
}

/// Whether byte column `col` (0-based) of `line` lies in a comment (`//`,
/// or a `/* ... */` on the same line) or in a string literal, judged on the
/// bytes of the line before `col`. `col` must fall on a character boundary
/// or past the line.
pub fn is_in_comment_or_string(line: &str, col: usize) -> (b: bool)
    requires
        col >= crate::pattern::utf8_len(line@) || crate::pattern::char_at_byte(line@, col as int) is Some,
    ensures
        b == in_comment_or_string_bytes(line@, col as int),
{
    let total = crate::pattern::utf8_byte_len(line);
    let cs = to_chars(line);
    let mut acc: usize = 0;
    let mut k: usize = 0;
    assert(cs@.take(0) =~= Seq::<char>::empty());
    assert(cs@.take(cs@.len() as int) =~= cs@);
    while k < cs.len() && acc < col
        invariant
            k <= cs.len(),
            cs@ == line@,
            total == crate::pattern::utf8_len(cs@),
            cs@.take(cs@.len() as int) == cs@,
            acc == crate::pattern::utf8_len(cs@.take(k as int)),
            forall|j: int| 0 <= j < k ==> crate::pattern::utf8_len(#[trigger] cs@.take(j)) < col,
        decreases cs.len() - k,
    {
        assert(cs@.take(k + 1).drop_last() =~= cs@.take(k as int));
        proof {
            crate::pattern::lemma_utf8_len_mono(cs@, k + 1, cs@.len() as int);
            assert forall|j: int| 0 <= j < k + 1 implies crate::pattern::utf8_len(#[trigger] cs@.take(j)) < col by {
                if j == k {
                }
            }
        }
        acc = acc + crate::pattern::width_exec(cs[k]);
        k += 1;
    }
    proof {
        if col >= crate::pattern::utf8_len(line@) {
            if k < cs.len() {
                crate::pattern::lemma_utf8_len_strict(cs@, k as int, cs@.len() as int);
            }
        } else {
            let c = choose|j: int| 0 <= j <= cs@.len() && #[trigger] crate::pattern::utf8_len(cs@.take(j)) == col as int;
            if (k as int) < c {
                crate::pattern::lemma_utf8_len_strict(cs@, k as int, c);
            }
            assert(c == k as int);
        }
        assert(char_cut(line@, col as int) == k as int);
    }
    in_comment_or_string_at_char(line, k)
}

} // verus!
