//! The row store's data model as this layer sees it: table summaries,
//! lighter table metadata, and stored rows with opaque JSON payloads.

use vstd::prelude::*;

verus! {

/// A table summary as the catalog queries return it.
#[derive(Debug, Clone, PartialEq, Eq)]
pub struct Table {
    pub id: String,
    pub name: String,
    pub description: Option<String>,
    pub table_type: String,
    pub row_count: i64,
}

/// The metadata the record queries need for each accessible table.
#[derive(Debug, Clone, PartialEq, Eq)]
pub struct TableMeta {
    pub id: String,
    pub name: String,
    pub table_type: String,
}

/// A table row with access-relevant metadata, as the per-table
/// endpoints look it up.
#[derive(Debug, Clone, PartialEq, Eq)]
pub struct TableInfo {
    pub id: String,
    pub name: String,
    pub table_type: String,
    pub visibility: String,
}

/// A stored row: identifiers, the opaque JSON payload text, and
/// optional timestamps.
#[derive(Debug, Clone, PartialEq, Eq)]
pub struct Row {
    pub id: String,
    pub table_id: String,
    pub data: String,
    pub created_at: Option<String>,
    pub updated_at: Option<String>,
}

} // verus!
