//! The tiered cache's read/write logic over a TTL-agnostic byte store:
//! three independent namespaces (token identities, the public table
//! catalog, query-result pages), each entry carrying its creation time.
//! TTL is enforced lazily at read time by comparing that timestamp to
//! the clock; an expired entry is a miss, never an eager delete. Token
//! entries carry no TTL and die only by explicit invalidation.

use vstd::prelude::*;

verus! {

use crate::policy::TokenIdentity;
use crate::record::FlatRecord;
use crate::table::Table;

/// TTL in seconds for cached query-result pages.
pub const CACHE_TTL_QUERY_RESULTS: u64 = 60;

/// TTL in seconds for the cached public table catalog.
pub const CACHE_TTL_PUBLIC_TABLES: u64 = 300;

/// A cache entry with creation time `cached_at` is fresh at `now` under
/// `ttl` exactly when `now` lies in `[cached_at, cached_at + ttl)`. A
/// clock that moved backwards past the creation time also reads as a
/// miss.
pub open spec fn spec_fresh(cached_at: u64, now: u64, ttl: u64) -> bool {
    cached_at <= now < cached_at + ttl
}

/// TTL comparison done at read time: expired entries are treated as
/// misses.
pub fn entry_is_fresh(cached_at: u64, now: u64, ttl: u64) -> (r: bool)
    ensures
        r == spec_fresh(cached_at, now, ttl),
{
    cached_at <= now && now - cached_at < ttl
}

/// A cached token identity. No TTL: it is valid until a fresh lookup
/// overwrites it or it is explicitly purged.
#[derive(Debug, Clone, PartialEq, Eq)]
pub struct TokenEntry {
    pub id: String,
    pub table_access: Option<String>,
    pub cached_at: u64,
}

/// A cached public table catalog, TTL 300 seconds.
#[derive(Debug, Clone, PartialEq, Eq)]
pub struct CatalogEntry {
    pub tables: Vec<Table>,
    pub cached_at: u64,
}

/// A cached query-result page, TTL 60 seconds: the pre-projection
/// records and the total count they were paged from.
#[derive(Debug, Clone, PartialEq, Eq)]
pub struct QueryPageEntry {
    pub records: Vec<FlatRecord>,
    pub total: i64,
    pub cached_at: u64,
}

/// Builds the token entry to write on a successful lookup, stamped with
/// the write time.
pub fn make_token_entry(identity: &TokenIdentity, now: u64) -> (r: TokenEntry)
    ensures
        r.id@ == identity.id@,
        match (&r.table_access, &identity.table_access) {
            (Option::Some(a), Option::Some(b)) => a@ == b@,
            (Option::None, Option::None) => true,
            _ => false,
        },
        r.cached_at == now,
{
    TokenEntry {
        id: identity.id.clone(),
        table_access: match &identity.table_access {
            Option::Some(a) => Option::Some(a.clone()),
            Option::None => Option::None,
        },
        cached_at: now,
    }
}

/// The identity a cached token entry stands for. A token entry is never
/// stale by age: no TTL applies.
pub fn token_entry_identity(entry: &TokenEntry) -> (r: TokenIdentity)
    ensures
        r.id@ == entry.id@,
        match (&r.table_access, &entry.table_access) {
            (Option::Some(a), Option::Some(b)) => a@ == b@,
            (Option::None, Option::None) => true,
            _ => false,
        },
{
    TokenIdentity {
        id: entry.id.clone(),
        table_access: match &entry.table_access {
            Option::Some(a) => Option::Some(a.clone()),
            Option::None => Option::None,
        },
    }
}

/// Builds the catalog entry to cache, stamped with the write time.
pub fn make_catalog_entry(tables: Vec<Table>, now: u64) -> (r: CatalogEntry)
    ensures
        r.tables == tables,
        r.cached_at == now,
{
    CatalogEntry { tables, cached_at: now }
}

/// Reads a cached catalog through its TTL: the tables on a fresh
/// entry, a miss once 300 seconds have passed since it was written.
pub fn read_catalog_entry(entry: CatalogEntry, now: u64) -> (r: Option<Vec<Table>>)
    ensures
        spec_fresh(entry.cached_at, now, CACHE_TTL_PUBLIC_TABLES) ==> r == Option::Some(
            entry.tables,
        ),
        !spec_fresh(entry.cached_at, now, CACHE_TTL_PUBLIC_TABLES) ==> r is None,
{
    if entry_is_fresh(entry.cached_at, now, CACHE_TTL_PUBLIC_TABLES) {
        Option::Some(entry.tables)
    } else {
        Option::None
    }
}

/// Builds the query-page entry to cache, holding the pre-projection
/// records, stamped with the write time.
pub fn make_query_page_entry(records: Vec<FlatRecord>, total: i64, now: u64) -> (r: QueryPageEntry)
    ensures
        r.records == records,
        r.total == total,
        r.cached_at == now,
{
    QueryPageEntry { records, total, cached_at: now }
}

/// Reads a cached query page through its TTL: the records and total on
/// a fresh entry, a miss once 60 seconds have passed since it was
/// written.
pub fn read_query_page_entry(entry: QueryPageEntry, now: u64) -> (r: Option<(Vec<FlatRecord>, i64)>)
    ensures
        spec_fresh(entry.cached_at, now, CACHE_TTL_QUERY_RESULTS) ==> r == Option::Some(
            (entry.records, entry.total),
        ),
        !spec_fresh(entry.cached_at, now, CACHE_TTL_QUERY_RESULTS) ==> r is None,
{
    if entry_is_fresh(entry.cached_at, now, CACHE_TTL_QUERY_RESULTS) {
        Option::Some((entry.records, entry.total))
    } else {
        Option::None
    }
}

/// TTL boundary, exclusive: a query-page entry read 60 or more seconds
/// after it was cached is treated as a miss.
pub proof fn lemma_query_page_ttl_boundary(cached_at: u64, now: u64)
    requires
        now >= cached_at,
        now - cached_at >= CACHE_TTL_QUERY_RESULTS,
    ensures
        !spec_fresh(cached_at, now, CACHE_TTL_QUERY_RESULTS),
{
}

} // verus!
