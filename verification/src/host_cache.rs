//! The host-RAM caches of the deduplication and CCR compressors, kept in a
//! `dashmap::DashMap`. The cache contents are modelled as a `Map`.
use vstd::prelude::*;
use dashmap::DashMap;

verus! {

#[verifier::external_type_specification]
#[verifier::external_body]
#[verifier::reject_recursive_types(K)]
#[verifier::reject_recursive_types(V)]
#[verifier::reject_recursive_types(S)]
pub struct ExDashMap<K, V, S>(DashMap<K, V, S>);

/// The model of a session deduplication cache.
pub type SessionView = Map<u64, (Seq<char>, usize, usize)>;

/// The model of a CCR cache.
pub type CcrView = Map<u64, Seq<char>>;

/// What a session deduplication cache holds: block hash to
/// `(file, first line, last line)` of the block's first sighting.
pub uninterp spec fn session_entries(m: DashMap<u64, (String, usize, usize)>) -> Map<
    u64,
    (Seq<char>, usize, usize),
>;

/// What a CCR cache holds: text hash to the original text.
pub uninterp spec fn ccr_entries(m: DashMap<u64, String>) -> Map<u64, Seq<char>>;

/// `DashMap::new` for a session cache: the new map is empty.
#[verifier::external_body]
pub(crate) fn session_cache_new() -> (m: DashMap<u64, (String, usize, usize)>)
    ensures
        session_entries(m) == SessionView::empty(),
{
    DashMap::new()
}

/// `DashMap::get` on a session cache, with the entry copied out: the entry
/// under `k` when there is one, else `None`.
#[verifier::external_body]
pub(crate) fn session_cache_get(m: &DashMap<u64, (String, usize, usize)>, k: u64) -> (r: Option<
    (String, usize, usize),
>)
    ensures
        match r {
            Some(v) => session_entries(*m).contains_key(k) && session_entries(*m)[k] == (
                v.0@,
                v.1,
                v.2,
            ),
            None => !session_entries(*m).contains_key(k),
        },
{
    match m.get(&k) {
        Some(e) => Some(e.value().clone()),
        None => None,
    }
}

/// `DashMap::insert` on a session cache: `k` now maps to `v`, other keys keep theirs.
#[verifier::external_body]
pub(crate) fn session_cache_insert(m: &mut DashMap<u64, (String, usize, usize)>, k: u64, v: (
    String,
    usize,
    usize,
))
    ensures
        session_entries(*final(m)) == session_entries(*old(m)).insert(k, (v.0@, v.1, v.2)),
{
    m.insert(k, v);
}

/// `DashMap::clear` on a session cache: the map is empty afterwards.
#[verifier::external_body]
pub(crate) fn session_cache_clear(m: &mut DashMap<u64, (String, usize, usize)>)
    ensures
        session_entries(*final(m)) == SessionView::empty(),
{
    m.clear();
}

/// `DashMap::is_empty` on a session cache: `true` exactly when it holds no entry.
#[verifier::external_body]
pub(crate) fn session_cache_is_empty(m: &DashMap<u64, (String, usize, usize)>) -> (b: bool)
    ensures
        b == (session_entries(*m) == SessionView::empty()),
{
    m.is_empty()
}

/// `DashMap::new` for a CCR cache: the new map is empty.
#[verifier::external_body]
pub(crate) fn ccr_cache_new() -> (m: DashMap<u64, String>)
    ensures
        ccr_entries(m) == CcrView::empty(),
{
    DashMap::new()
}

/// `DashMap::get` on a CCR cache, with the text copied out.
#[verifier::external_body]
pub(crate) fn ccr_cache_get(m: &DashMap<u64, String>, k: u64) -> (r: Option<String>)
    ensures
        match r {
            Some(v) => ccr_entries(*m).contains_key(k) && ccr_entries(*m)[k] == v@,
            None => !ccr_entries(*m).contains_key(k),
        },
{
    match m.get(&k) {
        Some(e) => Some(e.value().clone()),
        None => None,
    }
}

/// `DashMap::insert` on a CCR cache: `k` now maps to `v`, other keys keep theirs.
#[verifier::external_body]
pub(crate) fn ccr_cache_insert(m: &mut DashMap<u64, String>, k: u64, v: String)
    ensures
        ccr_entries(*final(m)) == ccr_entries(*old(m)).insert(k, v@),
{
    m.insert(k, v);
}

/// `DashMap::clear` on a CCR cache: the map is empty afterwards.
#[verifier::external_body]
pub(crate) fn ccr_cache_clear(m: &mut DashMap<u64, String>)
    ensures
        ccr_entries(*final(m)) == CcrView::empty(),
{
    m.clear();
}


/// `DashMap::len` on a session cache: how many blocks it holds.
#[verifier::external_body]
pub(crate) fn session_cache_len(m: &DashMap<u64, (String, usize, usize)>) -> (n: usize)
    ensures
        n == session_entries(*m).dom().len(),
{
    m.len()
}

} // verus!
