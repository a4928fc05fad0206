//! Access-controlled, tiered query-and-cache layer for token-scoped
//! read access to multi-tenant tabular data.
//!
//! The library holds the logic of the service: resolving a bearer
//! credential into a table-visibility policy, deriving deterministic
//! cache keys from query shape, deciding cache freshness by TTL,
//! building parameterized row-store queries, flattening stored rows
//! into client-facing records, and assembling paginated responses.
//! The stores themselves (row store, key-value cache) are external;
//! the surrounding process performs the I/O and feeds plain values in.

pub mod cache;
pub mod codec;
pub mod errors;
pub mod params;
pub mod planner;
pub mod policy;
pub mod record;
pub mod response;
pub mod routes;
pub mod strutil;
pub mod table;
