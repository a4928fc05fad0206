//! Response assembly: the success payload shapes of the exposed
//! operations, each built by a pure function whose contract pins every
//! field. Pagination and column projection are applied here, identically
//! for the cached and the live path.

use vstd::prelude::*;

verus! {

use crate::planner::{make_pagination, Pagination};
use crate::record::{FieldValue, FlatRecord};
use crate::table::Table;

/// The table-catalog listing.
#[derive(Debug, Clone, PartialEq, Eq)]
pub struct TablesResponse {
    pub tables: Vec<Table>,
    pub count: usize,
}

/// The column-search listing.
#[derive(Debug, Clone, PartialEq, Eq)]
pub struct SearchResponse {
    pub tables: Vec<Table>,
    pub count: usize,
    pub searched_columns: Vec<String>,
}

/// A filtered, paginated record listing.
#[derive(Debug, Clone, PartialEq, Eq)]
pub struct RecordsResponse {
    pub records: Vec<FlatRecord>,
    pub count: usize,
    pub total: i64,
    pub pagination: Pagination,
    pub filters: Option<Vec<(String, String)>>,
}

/// One row as the per-table listing returns it without flattening: the
/// parsed payload nested under `data`.
#[derive(Debug, Clone, PartialEq, Eq)]
pub struct NestedItem {
    pub id: String,
    pub data: Vec<(String, FieldValue)>,
    pub created_at: Option<String>,
    pub updated_at: Option<String>,
}

/// A row in a per-table listing, flat or nested.
#[derive(Debug, Clone, PartialEq, Eq)]
pub enum ItemView {
    Flat(FlatRecord),
    Nested(NestedItem),
}

/// The per-table item listing.
#[derive(Debug, Clone, PartialEq, Eq)]
pub struct ItemsResponse {
    pub items: Vec<ItemView>,
    pub table_id: String,
    pub table_name: String,
    pub table_type: String,
    pub count: usize,
}

/// The distinct-values listing for one column.
#[derive(Debug, Clone, PartialEq, Eq)]
pub struct ValuesResponse {
    pub column: String,
    pub values: Vec<FieldValue>,
    pub count: usize,
    pub filters: Option<Vec<(String, String)>>,
    pub tables_sampled: Vec<String>,
}

/// What one listing entry must hold for its row: the flattened record
/// under the table's name and type, or the row with its parsed payload
/// nested under `data`.
pub open spec fn spec_item_ok(
    item: ItemView,
    row: crate::table::Row,
    name: Seq<char>,
    ty: Seq<char>,
    flat: bool,
) -> bool {
    if flat {
        match item {
            ItemView::Flat(rec) => rec@ == crate::record::spec_flatten(
                row.id@,
                row.table_id@,
                name,
                ty,
                crate::record::parsed_payload(row.data@),
                crate::planner::opt_str_view(row.created_at),
                crate::planner::opt_str_view(row.updated_at),
            ),
            _ => false,
        }
    } else {
        match item {
            ItemView::Nested(n) => n.id@ == row.id@ && crate::record::payload_view(n.data@)
                == crate::record::parsed_payload(row.data@) && crate::planner::opt_str_view(
                n.created_at,
            ) == crate::planner::opt_str_view(row.created_at) && crate::planner::opt_str_view(
                n.updated_at,
            ) == crate::planner::opt_str_view(row.updated_at),
            _ => false,
        }
    }
}

/// Builds the entries of a per-table item listing: flattened records
/// when the flat form is asked for, else each row with its parsed
/// payload nested under `data`.
pub fn build_items(
    rows: &Vec<crate::table::Row>,
    table_name: &String,
    table_type: &String,
    flat: bool,
) -> (r: Vec<ItemView>)
    ensures
        r@.len() == rows@.len(),
        forall|i: int|
            0 <= i < rows@.len() ==> spec_item_ok(
                #[trigger] r@[i],
                rows@[i],
                table_name@,
                table_type@,
                flat,
            ),
{
    let mut out: Vec<ItemView> = Vec::new();
    let mut i: usize = 0;
    while i < rows.len()
        invariant
            0 <= i <= rows@.len(),
            out@.len() == i,
            forall|j: int|
                0 <= j < i ==> spec_item_ok(
                    #[trigger] out@[j],
                    rows@[j],
                    table_name@,
                    table_type@,
                    flat,
                ),
        decreases rows@.len() - i,
    {
        let row = &rows[i];
        if flat {
            let rec = crate::record::flatten_record(
                row.id.as_str(),
                row.table_id.as_str(),
                table_name.as_str(),
                table_type.as_str(),
                row.data.as_str(),
                &row.created_at,
                &row.updated_at,
            );
            out.push(ItemView::Flat(rec));
        } else {
            let nested = NestedItem {
                id: row.id.clone(),
                data: crate::record::parse_payload(row.data.as_str()),
                created_at: match &row.created_at {
                    Option::Some(c) => Option::Some(c.clone()),
                    Option::None => Option::None,
                },
                updated_at: match &row.updated_at {
                    Option::Some(u) => Option::Some(u.clone()),
                    Option::None => Option::None,
                },
            };
            out.push(ItemView::Nested(nested));
        }
        i = i + 1;
    }
    out
}

/// Assembles the catalog listing.
pub fn tables_response(tables: Vec<Table>) -> (r: TablesResponse)
    ensures
        r.tables == tables,
        r.count == tables@.len(),
{
    let count = tables.len();
    TablesResponse { tables, count }
}

/// Assembles the column-search listing.
pub fn search_response(tables: Vec<Table>, searched_columns: Vec<String>) -> (r: SearchResponse)
    ensures
        r.tables == tables,
        r.count == tables@.len(),
        r.searched_columns == searched_columns,
{
    let count = tables.len();
    SearchResponse { tables, count, searched_columns }
}

/// The filter echo of a response: nothing when no predicates were
/// given, else the predicates themselves.
pub fn filters_echo(conds: Vec<(String, String)>) -> (r: Option<Vec<(String, String)>>)
    ensures
        conds@.len() == 0 ==> r is None,
        conds@.len() > 0 ==> r == Option::Some(conds),
{
    if conds.len() == 0 {
        Option::None
    } else {
        Option::Some(conds)
    }
}

/// Assembles a record listing page from the (possibly cached, possibly
/// projected) records and the total the page was cut from.
pub fn records_response(
    records: Vec<FlatRecord>,
    total: i64,
    limit: u32,
    offset: u32,
    conds: Vec<(String, String)>,
) -> (r: RecordsResponse)
    requires
        limit >= 1,
        offset + limit <= u32::MAX,
        0 <= total <= u32::MAX as i64,
    ensures
        r.records == records,
        r.count == records@.len(),
        r.total == total,
        r.pagination.total == total,
        r.pagination.limit == limit,
        r.pagination.page == offset as int / limit as int + 1,
        r.pagination.has_more == (offset + limit < total),
        conds@.len() == 0 ==> r.filters is None,
        conds@.len() > 0 ==> r.filters == Option::Some(conds),
{
    let count = records.len();
    let pagination = make_pagination(total, limit, offset);
    let filters = filters_echo(conds);
    RecordsResponse { records, count, total, pagination, filters }
}

/// The record listing for a caller whose policy resolves no tables at
/// all: zero records and a zero total, with no row-store query issued.
pub fn empty_records_response(limit: u32, conds: Vec<(String, String)>) -> (r: RecordsResponse)
    ensures
        r.records@.len() == 0,
        r.count == 0,
        r.total == 0,
        r.pagination == (Pagination { total: 0, page: 1, limit, has_more: false }),
        conds@.len() == 0 ==> r.filters is None,
        conds@.len() > 0 ==> r.filters == Option::Some(conds),
{
    let filters = filters_echo(conds);
    RecordsResponse {
        records: Vec::new(),
        count: 0,
        total: 0,
        pagination: Pagination { total: 0, page: 1, limit, has_more: false },
        filters,
    }
}

/// Assembles the per-table item listing.
pub fn items_response(
    items: Vec<ItemView>,
    table_id: String,
    table_name: String,
    table_type: String,
) -> (r: ItemsResponse)
    ensures
        r.items == items,
        r.count == items@.len(),
        r.table_id == table_id,
        r.table_name == table_name,
        r.table_type == table_type,
{
    let count = items.len();
    ItemsResponse { items, table_id, table_name, table_type, count }
}

/// Assembles the distinct-values listing.
pub fn values_response(
    column: String,
    values: Vec<FieldValue>,
    conds: Vec<(String, String)>,
    tables_sampled: Vec<String>,
) -> (r: ValuesResponse)
    ensures
        r.column == column,
        r.values == values,
        r.count == values@.len(),
        conds@.len() == 0 ==> r.filters is None,
        conds@.len() > 0 ==> r.filters == Option::Some(conds),
        r.tables_sampled == tables_sampled,
{
    let count = values.len();
    let filters = filters_echo(conds);
    ValuesResponse { column, values, count, filters, tables_sampled }
}

/// The distinct-values listing for a caller whose policy resolves no
/// tables, or a column no table carries: no values and no tables
/// sampled, with no row-store value query issued.
pub fn empty_values_response(column: String, conds: Vec<(String, String)>) -> (r: ValuesResponse)
    ensures
        r.column == column,
        r.values@.len() == 0,
        r.count == 0,
        conds@.len() == 0 ==> r.filters is None,
        conds@.len() > 0 ==> r.filters == Option::Some(conds),
        r.tables_sampled@.len() == 0,
{
    let filters = filters_echo(conds);
    ValuesResponse {
        column,
        values: Vec::new(),
        count: 0,
        filters,
        tables_sampled: Vec::new(),
    }
}

} // verus!
