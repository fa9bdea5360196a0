//! The path firewall in front of every file mutation: empty paths, sensitive
//! file names and extensions at any level of the path, and directory
//! traversal are refused before any file is touched.
use vstd::prelude::*;
use crate::text::{trim, ends_with, contains, to_chars, from_chars, trim_chars, eq_str, ends_with_exec, contains_exec, append_chars};
use crate::lean_vacuum::souls_symbol::{ascii_lower, lower_chars};
use crate::paths::{plain_path, plain_components};

verus! {

/// Why the firewall refused a path.
#[derive(Debug)]
pub enum PathRejection {
    /// The path is empty once trimmed.
    Empty,
    /// A component is a sensitive file name (`.env`, `id_rsa`, ...).
    SensitiveName(String),
    /// A component has a sensitive extension (`.db`, `.pem`, ...).
    SensitiveExtension(String),
    /// The path holds `..`.
    Traversal,
}

/// The view of a rejection: a tag (0 empty, 1 name, 2 extension, 3
/// traversal) and the offending component.
pub open spec fn rejection_view(e: PathRejection) -> (int, Seq<char>) {
    match e {
        PathRejection::Empty => (0, Seq::empty()),
        PathRejection::SensitiveName(n) => (1, n@),
        PathRejection::SensitiveExtension(n) => (2, n@),
        PathRejection::Traversal => (3, Seq::empty()),
    }
}

/// The view of the firewall's answer.
pub open spec fn verdict_view(r: Result<(), PathRejection>) -> Result<(), (int, Seq<char>)> {
    match r {
        Ok(()) => Ok(()),
        Err(e) => Err(rejection_view(e)),
    }
}

/// File names that are never edited, compared in lower case.
pub open spec fn blocked_name(n: Seq<char>) -> bool {
    n == ".env"@ || n == ".envrc"@ || n == ".env.local"@ || n == ".env.production"@
        || n == ".env.development"@ || n == "id_rsa"@ || n == "id_dsa"@ || n == "id_ecdsa"@
        || n == "id_ed25519"@ || n == "authorized_keys"@ || n == "shadow"@ || n == "passwd"@
}

/// Extensions that are never edited, compared in lower case.
pub open spec fn blocked_extension(n: Seq<char>) -> bool {
    ends_with(n, ".env"@) || ends_with(n, ".db"@) || ends_with(n, ".sqlite"@) || ends_with(n, ".sqlite3"@)
        || ends_with(n, ".key"@) || ends_with(n, ".pem"@) || ends_with(n, ".crt"@) || ends_with(n, ".cer"@)
        || ends_with(n, ".pfx"@) || ends_with(n, ".p12"@) || ends_with(n, ".keystore"@) || ends_with(n, ".der"@)
        || ends_with(n, ".asc"@) || ends_with(n, ".gpg"@) || ends_with(n, ".pgp"@) || ends_with(n, ".sig"@)
        || ends_with(n, ".secret"@)
}

/// The first offending component, left to right, with its tag (1 for a
/// sensitive name, 2 for a sensitive extension); `None` marks a root,
/// prefix, `.` or `..` component.
pub open spec fn first_sensitive(comps: Seq<Option<Seq<char>>>) -> Option<(int, Seq<char>)>
    decreases comps.len(),
{
    if comps.len() == 0 {
        None
    } else {
        match comps[0] {
            Some(c) => if blocked_name(ascii_lower(c)) {
                Some((1, c))
            } else if blocked_extension(ascii_lower(c)) {
                Some((2, c))
            } else {
                first_sensitive(comps.drop_first())
            },
            None => first_sensitive(comps.drop_first()),
        }
    }
}

/// The firewall's answer for `raw`, given the components of `raw` trimmed.
pub open spec fn firewall(raw: Seq<char>, comps: Seq<Option<Seq<char>>>) -> Result<(), (int, Seq<char>)> {
    if trim(raw).len() == 0 {
        Err((0, Seq::empty()))
    } else {
        match first_sensitive(comps) {
            Some(hit) => Err(hit),
            None => if contains(raw, ".."@) {
                Err((3, Seq::empty()))
            } else {
                Ok(())
            },
        }
    }
}

/// The views of a list of components.
pub open spec fn component_views(v: Seq<Option<String>>) -> Seq<Option<Seq<char>>> {
    v.map_values(|c: Option<String>| match c {
        Some(s) => Some(s@),
        None => None,
    })
}

fn is_blocked_name(n: &Vec<char>) -> (b: bool)
    ensures
        b == blocked_name(n@),
{
    if eq_str(n, ".env") || eq_str(n, ".envrc") || eq_str(n, ".env.local") || eq_str(n, ".env.production") {
        return true;
    }
    if eq_str(n, ".env.development") || eq_str(n, "id_rsa") || eq_str(n, "id_dsa") || eq_str(n, "id_ecdsa") {
        return true;
    }
    eq_str(n, "id_ed25519") || eq_str(n, "authorized_keys") || eq_str(n, "shadow") || eq_str(n, "passwd")
}

fn ends_with_str(n: &Vec<char>, lit: &str) -> (b: bool)
    ensures
        b == ends_with(n@, lit@),
{
    let l = to_chars(lit);
    ends_with_exec(n, &l)
}

fn is_blocked_extension(n: &Vec<char>) -> (b: bool)
    ensures
        b == blocked_extension(n@),
{
    if ends_with_str(n, ".env") || ends_with_str(n, ".db") || ends_with_str(n, ".sqlite") || ends_with_str(n, ".sqlite3") {
        return true;
    }
    if ends_with_str(n, ".key") || ends_with_str(n, ".pem") || ends_with_str(n, ".crt") || ends_with_str(n, ".cer") {
        return true;
    }
    if ends_with_str(n, ".pfx") || ends_with_str(n, ".p12") || ends_with_str(n, ".keystore") || ends_with_str(n, ".der") {
        return true;
    }
    ends_with_str(n, ".asc") || ends_with_str(n, ".gpg") || ends_with_str(n, ".pgp") || ends_with_str(n, ".sig")
        || ends_with_str(n, ".secret")
}

/// The firewall's answer for `raw`, given the components of `raw` trimmed
/// (one entry per component: the text of a normal one, `None` for the
/// others).
pub fn firewall_verdict(raw: &str, comps: &Vec<Option<String>>) -> (r: Result<(), PathRejection>)
    ensures
        verdict_view(r) == firewall(raw@, component_views(comps@)),
{
    let raw_chars = to_chars(raw);
    let trimmed = trim_chars(&raw_chars);
    if trimmed.len() == 0 {
        return Err(PathRejection::Empty);
    }
    let ghost cv = component_views(comps@);
    assert(cv.skip(0) =~= cv);
    let mut i: usize = 0;
    while i < comps.len()
        invariant
            i <= comps.len(),
            cv == component_views(comps@),
            trim(raw@).len() > 0,
            first_sensitive(cv) == first_sensitive(cv.skip(i as int)),
        decreases comps.len() - i,
    {
        assert(cv.skip(i as int).drop_first() =~= cv.skip(i + 1));
        assert(cv.skip(i as int)[0] == cv[i as int]);
        match &comps[i] {
            Some(c) => {
                let chars = to_chars(c.as_str());
                let low = lower_chars(&chars);
                if is_blocked_name(&low) {
                    return Err(PathRejection::SensitiveName(from_chars(&chars)));
                }
                if is_blocked_extension(&low) {
                    return Err(PathRejection::SensitiveExtension(from_chars(&chars)));
                }
            },
            None => {},
        }
        i += 1;
    }
    assert(cv.skip(comps.len() as int) =~= Seq::<Option<Seq<char>>>::empty());
    let dots = to_chars("..");
    if contains_exec(&raw_chars, &dots) {
        Err(PathRejection::Traversal)
    } else {
        Ok(())
    }
}

/// `std::path::Path::components`: one entry per component, the text of a
/// normal component and `None` for a prefix, the root, `.` or `..`. How a
/// path splits in general depends on the platform (separators, prefixes);
/// the contract states only what every platform agrees on: a plain path
/// (an optional leading `/`, then non-empty segments separated by single
/// slashes, none `.` or `..`, none with a backslash or a colon) gives the
/// root, if any, then its segments in order.
#[verifier::external_body]
fn path_components(path: &str) -> (r: Vec<Option<String>>)
    ensures
        plain_path(path@) ==> component_views(r@) == plain_components(path@),
{
    std::path::Path::new(path).components().map(|c| match c {
        std::path::Component::Normal(os) => Some(os.to_string_lossy().into_owned()),
        std::path::Component::Prefix(_) => None,
        std::path::Component::RootDir => None,
        std::path::Component::CurDir => None,
        std::path::Component::ParentDir => None,
    }).collect()
}

/// Runs the firewall on `raw`: an empty path is refused, then every
/// component of the trimmed path is held against the sensitive names and
/// extensions (in lower case), then a path holding `..` is refused. On a
/// plain path the components held against the lists are its segments.
pub fn path_firewall(raw: &str) -> (r: Result<(), PathRejection>)
    ensures
        (trim(raw@).len() == 0) == (r matches Err(PathRejection::Empty)),
        exists|comps: Seq<Option<Seq<char>>>| verdict_view(r) == #[trigger] firewall(raw@, comps),
        r is Ok ==> !contains(raw@, ".."@),
        r matches Err(PathRejection::Traversal) ==> contains(raw@, ".."@),
        r matches Err(PathRejection::SensitiveName(n)) ==> blocked_name(ascii_lower(n@)),
        r matches Err(PathRejection::SensitiveExtension(n)) ==> blocked_extension(ascii_lower(n@)),
        plain_path(trim(raw@)) ==> verdict_view(r) == firewall(raw@, plain_components(trim(raw@))),
{
    let raw_chars = to_chars(raw);
    let trimmed = from_chars(&trim_chars(&raw_chars));
    let comps = path_components(trimmed.as_str());
    let r = firewall_verdict(raw, &comps);
    proof {
        lemma_first_sensitive_hit(component_views(comps@));
    }
    r
}

proof fn lemma_first_sensitive_hit(comps: Seq<Option<Seq<char>>>)
    ensures
        match first_sensitive(comps) {
            Some(hit) => (hit.0 == 1 && blocked_name(ascii_lower(hit.1))) || (hit.0 == 2 && blocked_extension(
                ascii_lower(hit.1),
            )),
            None => true,
        },
    decreases comps.len(),
{
    if comps.len() > 0 {
        lemma_first_sensitive_hit(comps.drop_first());
    }
}

impl PathRejection {
    /// The JSON-RPC error code of a refusal.
    pub fn code(&self) -> (c: i64)
        ensures
            c == -32602,
    {
        -32602
    }

    /// The message of a refusal of `raw`.
    pub fn message(&self, raw: &str) -> (m: String)
        ensures
            m@ == match *self {
                PathRejection::Empty => "Caminho de arquivo não pode ser vazio"@,
                PathRejection::SensitiveName(n) => "Firewall de Caminhos: segmento sensivel '"@ + n@
                    + "' no caminho bloqueado para edicao (L7)"@,
                PathRejection::SensitiveExtension(n) => "Firewall de Caminhos: extensao sensivel em '"@ + n@
                    + "' (em qualquer nivel do caminho) bloqueada para edicao (L7)"@,
                PathRejection::Traversal => "Directory traversal bloqueado pelo Firewall: "@ + raw@,
            },
    {
        match self {
            PathRejection::Empty => {
                let v = to_chars("Caminho de arquivo não pode ser vazio");
                from_chars(&v)
            },
            PathRejection::SensitiveName(n) => {
                let mut v = to_chars("Firewall de Caminhos: segmento sensivel '");
                append_chars(&mut v, &to_chars(n.as_str()));
                append_chars(&mut v, &to_chars("' no caminho bloqueado para edicao (L7)"));
                from_chars(&v)
            },
            PathRejection::SensitiveExtension(n) => {
                let mut v = to_chars("Firewall de Caminhos: extensao sensivel em '");
                append_chars(&mut v, &to_chars(n.as_str()));
                append_chars(&mut v, &to_chars("' (em qualquer nivel do caminho) bloqueada para edicao (L7)"));
                from_chars(&v)
            },
            PathRejection::Traversal => {
                let mut v = to_chars("Directory traversal bloqueado pelo Firewall: ");
                append_chars(&mut v, &to_chars(raw));
                from_chars(&v)
            },
        }
    }
}


proof fn lemma_first_sensitive_finds(comps: Seq<Option<Seq<char>>>, i: int)
    requires
        0 <= i < comps.len(),
        comps[i] matches Some(c) && (blocked_name(ascii_lower(c)) || blocked_extension(ascii_lower(c))),
    ensures
        first_sensitive(comps) is Some,
    decreases i,
{
    if i > 0 {
        if first_sensitive(comps) is None {
            assert(comps.drop_first()[i - 1] == comps[i]);
            lemma_first_sensitive_finds(comps.drop_first(), i - 1);
        }
    }
}

/// A path is refused as soon as any of its components, an ancestor
/// directory or the file itself, is a sensitive name or has a sensitive
/// extension (in any letter case).
pub proof fn law_sensitive_component_anywhere_is_refused(raw: Seq<char>, comps: Seq<Option<Seq<char>>>, i: int)
    requires
        0 <= i < comps.len(),
        comps[i] matches Some(c) && (blocked_name(ascii_lower(c)) || blocked_extension(ascii_lower(c))),
    ensures
        firewall(raw, comps) is Err,
{
    lemma_first_sensitive_finds(comps, i);
}

/// A path that holds `..` is never let through, whatever its components.
pub proof fn law_traversal_is_refused(raw: Seq<char>, comps: Seq<Option<Seq<char>>>)
    requires
        contains(raw, ".."@),
    ensures
        firewall(raw, comps) is Err,
{
}


/// Law of the firewall's lists: the sensitive file names are exactly
/// `.env`, `.envrc`, `.env.local`, `.env.production`, `.env.development`, `id_rsa`, `id_dsa`, `id_ecdsa`, `id_ed25519`, `authorized_keys`, `shadow`, `passwd` (in lower case), and a
/// name is a sensitive extension exactly when it ends with one of
/// `.env`, `.db`, `.sqlite`, `.sqlite3`, `.key`, `.pem`, `.crt`, `.cer`, `.pfx`, `.p12`, `.keystore`, `.der`, `.asc`, `.gpg`, `.pgp`, `.sig`, `.secret`.
pub proof fn law_sensitive_lists(n: Seq<char>)
    ensures
        blocked_name(n) <==> (n == ".env"@ || n == ".envrc"@ || n == ".env.local"@ || n == ".env.production"@ || n == ".env.development"@ || n == "id_rsa"@ || n == "id_dsa"@ || n == "id_ecdsa"@ || n == "id_ed25519"@ || n == "authorized_keys"@ || n == "shadow"@ || n == "passwd"@),
        blocked_extension(n) <==> (ends_with(n, ".env"@) || ends_with(n, ".db"@) || ends_with(n, ".sqlite"@) || ends_with(n, ".sqlite3"@) || ends_with(n, ".key"@) || ends_with(n, ".pem"@) || ends_with(n, ".crt"@) || ends_with(n, ".cer"@) || ends_with(n, ".pfx"@) || ends_with(n, ".p12"@) || ends_with(n, ".keystore"@) || ends_with(n, ".der"@) || ends_with(n, ".asc"@) || ends_with(n, ".gpg"@) || ends_with(n, ".pgp"@) || ends_with(n, ".sig"@) || ends_with(n, ".secret"@)),
{
}

} // verus!
