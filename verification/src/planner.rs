//! Query planning: resolving a visibility policy into the concrete
//! table query, building the parameterized predicate query against the
//! row store (count and page as two separate statements), pagination
//! arithmetic, per-item availability, and the cache-eligibility
//! decisions. Every function here is pure: the surrounding process
//! executes the statements and feeds the rows back in.

use vstd::prelude::*;

verus! {

use vstd::string::StringExecFns;
use crate::policy::{PolicyView, VisibilityPolicy};
use crate::record::{payload_view, parsed_payload, spec_payload_value, FieldVal, FieldValue, FlatRecord};
use crate::strutil::{append_dec, clone_strings, spec_dec, string_eq, strings_views};
use crate::table::{Row, TableMeta};

/// Statement looking up a token identity by its raw token, skipping
/// expired ones.
pub const SQL_TOKEN_LOOKUP: &'static str =
    "SELECT id, tableAccess FROM tokens WHERE token = ? AND (expiresAt IS NULL OR expiresAt = 'null' OR expiresAt > datetime('now'))";

/// Statement fetching one table with its visibility, for access checks.
pub const SQL_TABLE_INFO: &'static str =
    "SELECT id, name, tableType, visibility FROM userTables WHERE id = ?";

/// Statement fetching every row of one table, newest first.
pub const SQL_TABLE_ITEMS: &'static str =
    "SELECT id, tableId, data, createdAt, updatedAt FROM tableData WHERE tableId = ? ORDER BY createdAt DESC";

/// Statement fetching one row by id within a table.
pub const SQL_TABLE_ITEM: &'static str =
    "SELECT id, tableId, data, createdAt, updatedAt FROM tableData WHERE id = ? AND tableId = ?";

/// Statement fetching only the payload of one row.
pub const SQL_ITEM_DATA: &'static str = "SELECT data FROM tableData WHERE id = ? AND tableId = ?";

/// Statement listing the column names of one table.
pub const SQL_TABLE_COLUMNS: &'static str = "SELECT name FROM tableColumns WHERE tableId = ?";

/// Statement probing one table for a column, case-insensitively.
pub const SQL_COLUMN_PROBE: &'static str =
    "SELECT name FROM tableColumns WHERE tableId = ? AND LOWER(name) = LOWER(?)";

/// `n` statement parameters, comma-separated: `?,?,...,?`.
pub open spec fn spec_placeholders(n: nat) -> Seq<char>
    decreases n,
{
    if n == 0 {
        Seq::empty()
    } else if n == 1 {
        "?"@
    } else {
        spec_placeholders((n - 1) as nat) + ",?"@
    }
}

/// Renders `n` comma-separated statement parameters.
pub fn placeholders(n: usize) -> (r: String)
    ensures
        r@ == spec_placeholders(n as nat),
{
    let mut out = String::new();
    let mut i: usize = 0;
    while i < n
        invariant
            0 <= i <= n,
            out@ == spec_placeholders(i as nat),
        decreases n - i,
    {
        if i == 0 {
            out.append("?");
            proof {
                assert(Seq::<char>::empty() + "?"@ =~= "?"@);
            }
        } else {
            out.append(",?");
        }
        i = i + 1;
    }
    out
}

/// A resolved table query: nothing at all for an empty restricted
/// policy — no statement is ever issued for it — or a statement with
/// its bindings.
#[derive(Debug, Clone, PartialEq, Eq)]
pub enum TableQuery {
    Empty,
    Query { sql: String, bindings: Vec<String> },
}

/// What a table query selects per row, with the matching catalog,
/// record-metadata, or name-only column list.
#[derive(Debug, Clone, Copy, PartialEq, Eq)]
pub enum TableSelect {
    /// Full catalog summaries with row counts, ordered by name.
    Catalog,
    /// Full catalog summaries with row counts, unordered (column search).
    CatalogUnordered,
    /// Only id, name and table type (record queries).
    Meta,
    /// Only id and name (distinct-value queries).
    Names,
}

pub open spec fn spec_select_prefix(select: TableSelect) -> Seq<char> {
    match select {
        TableSelect::Catalog | TableSelect::CatalogUnordered =>
            "SELECT ut.id, ut.name, ut.description, ut.tableType, (SELECT COUNT(*) FROM tableData WHERE tableId = ut.id) as rowCount FROM userTables ut WHERE "@,
        TableSelect::Meta => "SELECT id, name, tableType FROM userTables WHERE "@,
        TableSelect::Names => "SELECT id, name FROM userTables WHERE "@,
    }
}

pub open spec fn spec_select_id_column(select: TableSelect) -> Seq<char> {
    match select {
        TableSelect::Catalog | TableSelect::CatalogUnordered => "ut.id"@,
        TableSelect::Meta | TableSelect::Names => "id"@,
    }
}

pub open spec fn spec_select_type_column(select: TableSelect) -> Seq<char> {
    match select {
        TableSelect::Catalog | TableSelect::CatalogUnordered => "ut.tableType"@,
        TableSelect::Meta | TableSelect::Names => "tableType"@,
    }
}

pub open spec fn spec_select_visibility_column(select: TableSelect) -> Seq<char> {
    match select {
        TableSelect::Catalog | TableSelect::CatalogUnordered => "ut.visibility"@,
        TableSelect::Meta | TableSelect::Names => "visibility"@,
    }
}

pub open spec fn spec_select_suffix(select: TableSelect) -> Seq<char> {
    match select {
        TableSelect::Catalog => " ORDER BY ut.name ASC"@,
        _ => Seq::<char>::empty(),
    }
}

/// The table statement for an unrestricted policy: visible tables of
/// the exposed types.
pub open spec fn spec_tables_sql_unrestricted(select: TableSelect) -> Seq<char> {
    spec_select_prefix(select) + spec_select_visibility_column(select)
        + " IN ('public', 'shared') AND "@ + spec_select_type_column(select)
        + " IN ('sale', 'rent')"@ + spec_select_suffix(select)
}

/// The table statement for a restricted policy with `n` granted ids:
/// the granted tables of the exposed types, visibility not re-checked.
pub open spec fn spec_tables_sql_restricted(select: TableSelect, n: nat) -> Seq<char> {
    spec_select_prefix(select) + spec_select_id_column(select) + " IN ("@ + spec_placeholders(n)
        + ") AND "@ + spec_select_type_column(select) + " IN ('sale', 'rent')"@
        + spec_select_suffix(select)
}

/// The table query a policy resolves to: nothing for an empty
/// restricted policy, else the statement text with its bindings.
pub open spec fn spec_tables_query(policy: PolicyView, select: TableSelect) -> Option<
    (Seq<char>, Seq<Seq<char>>),
> {
    match policy {
        PolicyView::Unrestricted => Option::Some(
            (spec_tables_sql_unrestricted(select), Seq::empty()),
        ),
        PolicyView::Restricted(ids) => if ids.len() == 0 {
            Option::None
        } else {
            Option::Some((spec_tables_sql_restricted(select, ids.len()), ids))
        },
    }
}

/// A caller whose policy is `Restricted` over the empty id set resolves
/// to no table query at all: no statement exists for it, so no
/// row-store call is ever made on its behalf, and every listing built
/// from the resolved tables is empty.
pub proof fn lemma_empty_policy_queries_nothing(policy: PolicyView, select: TableSelect)
    requires
        policy.is_empty_restricted(),
    ensures
        spec_tables_query(policy, select) is None,
{
}

fn select_prefix(select: TableSelect) -> (r: String)
    ensures
        r@ == spec_select_prefix(select),
{
    match select {
        TableSelect::Catalog | TableSelect::CatalogUnordered => (
        "SELECT ut.id, ut.name, ut.description, ut.tableType, (SELECT COUNT(*) FROM tableData WHERE tableId = ut.id) as rowCount FROM userTables ut WHERE ").to_owned(),
        TableSelect::Meta => "SELECT id, name, tableType FROM userTables WHERE ".to_owned(),
        TableSelect::Names => "SELECT id, name FROM userTables WHERE ".to_owned(),
    }
}

/// Resolves the policy into the table query to run: no statement for an
/// empty restricted policy, the visibility-filtered statement for an
/// unrestricted one, and an id-list statement with the granted ids
/// bound for a restricted one.
pub fn plan_tables_query(policy: &VisibilityPolicy, select: TableSelect) -> (r: TableQuery)
    ensures
        match r {
            TableQuery::Empty => policy@.is_empty_restricted(),
            TableQuery::Query { sql, bindings } => !policy@.is_empty_restricted() && match policy@ {
                PolicyView::Unrestricted => sql@ == spec_tables_sql_unrestricted(select)
                    && bindings@.len() == 0,
                PolicyView::Restricted(ids) => sql@ == spec_tables_sql_restricted(select, ids.len())
                    && strings_views(bindings@) == ids,
            },
        },
        match r {
            TableQuery::Empty => spec_tables_query(policy@, select) is None,
            TableQuery::Query { sql, bindings } => spec_tables_query(policy@, select)
                == Option::Some((sql@, strings_views(bindings@))),
        },
{
    match policy {
        VisibilityPolicy::Unrestricted => {
            let mut sql = select_prefix(select);
            match select {
                TableSelect::Catalog | TableSelect::CatalogUnordered => sql.append("ut.visibility"),
                _ => sql.append("visibility"),
            }
            sql.append(" IN ('public', 'shared') AND ");
            match select {
                TableSelect::Catalog | TableSelect::CatalogUnordered => sql.append("ut.tableType"),
                _ => sql.append("tableType"),
            }
            sql.append(" IN ('sale', 'rent')");
            match select {
                TableSelect::Catalog => sql.append(" ORDER BY ut.name ASC"),
                _ => {},
            }
            let bindings: Vec<String> = Vec::new();
            proof {
                assert(sql@ =~= spec_tables_sql_unrestricted(select));
                assert(strings_views(bindings@) =~= Seq::<Seq<char>>::empty());
            }
            TableQuery::Query { sql, bindings }
        },
        VisibilityPolicy::Restricted(ids) => {
            if ids.len() == 0 {
                return TableQuery::Empty;
            }
            let mut sql = select_prefix(select);
            match select {
                TableSelect::Catalog | TableSelect::CatalogUnordered => sql.append("ut.id"),
                _ => sql.append("id"),
            }
            sql.append(" IN (");
            let ph = placeholders(ids.len());
            sql.append(ph.as_str());
            sql.append(") AND ");
            match select {
                TableSelect::Catalog | TableSelect::CatalogUnordered => sql.append("ut.tableType"),
                _ => sql.append("tableType"),
            }
            sql.append(" IN ('sale', 'rent')");
            match select {
                TableSelect::Catalog => sql.append(" ORDER BY ut.name ASC"),
                _ => {},
            }
            let bindings = clone_strings(ids);
            proof {
                assert(sql@ =~= spec_tables_sql_restricted(select, strings_views(ids@).len()));
            }
            TableQuery::Query { sql, bindings }
        },
    }
}

/// The column names of a predicate list.
pub open spec fn cond_cols(conds: Seq<(String, String)>) -> Seq<Seq<char>> {
    conds.map_values(|kv: (String, String)| kv.0@)
}

/// The values of a predicate list.
pub open spec fn cond_vals(conds: Seq<(String, String)>) -> Seq<Seq<char>> {
    conds.map_values(|kv: (String, String)| kv.1@)
}

/// One predicate rendered into the statement: a case-insensitive
/// equality against the JSON-extracted field. The column name is
/// spliced into the JSON path untouched; the value is
/// always bound as a parameter.
pub open spec fn spec_where_fragment(col: Seq<char>) -> Seq<char> {
    " AND LOWER(json_extract(data, '$."@ + col + "')) = LOWER(?)"@
}

/// The rendered predicate fragments, in predicate order.
pub open spec fn spec_where_sql(cols: Seq<Seq<char>>) -> Seq<char>
    decreases cols.len(),
{
    if cols.len() == 0 {
        Seq::empty()
    } else {
        spec_where_sql(cols.drop_last()) + spec_where_fragment(cols.last())
    }
}

/// The record page statement before ordering and pagination.
pub open spec fn spec_records_sql(n: nat, cols: Seq<Seq<char>>) -> Seq<char> {
    "SELECT id, tableId, data, createdAt, updatedAt FROM tableData WHERE tableId IN ("@
        + spec_placeholders(n) + ")"@ + spec_where_sql(cols)
}

/// The matching count statement over the same predicate set, with no
/// limit or offset.
pub open spec fn spec_count_sql(n: nat, cols: Seq<Seq<char>>) -> Seq<char> {
    "SELECT COUNT(*) as cnt FROM tableData WHERE tableId IN ("@ + spec_placeholders(n) + ")"@
        + spec_where_sql(cols)
}

/// Ordering and pagination window, appended to the page statement with
/// the literal numbers inline.
pub open spec fn spec_page_suffix(limit: u32, offset: u32) -> Seq<char> {
    " ORDER BY updatedAt DESC LIMIT "@ + spec_dec(limit as nat) + " OFFSET "@ + spec_dec(
        offset as nat,
    )
}

/// A planned record query: the count statement, the page statement, and
/// the shared bindings (table ids first, then predicate values, in
/// predicate order).
#[derive(Debug, Clone, PartialEq, Eq)]
pub struct RecordsQuery {
    pub count_sql: String,
    pub page_sql: String,
    pub bindings: Vec<String>,
}

fn append_where(sql: &mut String, bindings: &mut Vec<String>, conds: &Vec<(String, String)>)
    ensures
        final(sql)@ == old(sql)@ + spec_where_sql(cond_cols(conds@)),
        strings_views(final(bindings)@) == strings_views(old(bindings)@) + cond_vals(conds@),
{
    let ghost base = sql@;
    let ghost bbase = strings_views(bindings@);
    let mut i: usize = 0;
    proof {
        assert(sql@ =~= base + spec_where_sql(cond_cols(conds@).take(0)));
        assert(strings_views(bindings@) =~= bbase + cond_vals(conds@).take(0));
    }
    while i < conds.len()
        invariant
            0 <= i <= conds@.len(),
            sql@ == base + spec_where_sql(cond_cols(conds@).take(i as int)),
            strings_views(bindings@) == bbase + cond_vals(conds@).take(i as int),
        decreases conds@.len() - i,
    {
        sql.append(" AND LOWER(json_extract(data, '$.");
        sql.append(conds[i].0.as_str());
        sql.append("')) = LOWER(?)");
        bindings.push(conds[i].1.clone());
        proof {
            let cc = cond_cols(conds@);
            let cv = cond_vals(conds@);
            assert(cc.take(i + 1).drop_last() =~= cc.take(i as int));
            assert(cc.take(i + 1).last() == cc[i as int]);
            assert(sql@ =~= base + (spec_where_sql(cc.take(i as int)) + spec_where_fragment(
                cc[i as int],
            )));
            assert(cv.take(i + 1) =~= cv.take(i as int).push(cv[i as int]));
            assert(strings_views(bindings@) =~= (bbase + cv.take(i as int)).push(cv[i as int]));
            assert((bbase + cv.take(i as int)).push(cv[i as int]) =~= bbase + cv.take(i + 1));
        }
        i = i + 1;
    }
    proof {
        assert(cond_cols(conds@).take(conds@.len() as int) =~= cond_cols(conds@));
        assert(cond_vals(conds@).take(conds@.len() as int) =~= cond_vals(conds@));
    }
}

/// Builds the two record statements for the accessible table ids and
/// the filter predicates: a count over the full match, and a page
/// ordered by `updatedAt` descending with the window inline.
pub fn plan_records_query(
    table_ids: &Vec<String>,
    conds: &Vec<(String, String)>,
    limit: u32,
    offset: u32,
) -> (r: RecordsQuery)
    ensures
        r.count_sql@ == spec_count_sql(table_ids@.len(), cond_cols(conds@)),
        r.page_sql@ == spec_records_sql(table_ids@.len(), cond_cols(conds@)) + spec_page_suffix(
            limit,
            offset,
        ),
        strings_views(r.bindings@) == strings_views(table_ids@) + cond_vals(conds@),
{
    let ph = placeholders(table_ids.len());

    let mut count_sql = "SELECT COUNT(*) as cnt FROM tableData WHERE tableId IN (".to_owned();
    count_sql.append(ph.as_str());
    count_sql.append(")");
    let mut count_bindings: Vec<String> = Vec::new();
    append_where(&mut count_sql, &mut count_bindings, conds);

    let mut page_sql =
        "SELECT id, tableId, data, createdAt, updatedAt FROM tableData WHERE tableId IN (".to_owned();
    page_sql.append(ph.as_str());
    page_sql.append(")");
    let mut bindings = clone_strings(table_ids);
    append_where(&mut page_sql, &mut bindings, conds);
    page_sql.append(" ORDER BY updatedAt DESC LIMIT ");
    append_dec(&mut page_sql, limit);
    page_sql.append(" OFFSET ");
    append_dec(&mut page_sql, offset);

    proof {
        assert(count_sql@ =~= spec_count_sql(table_ids@.len(), cond_cols(conds@)));
        assert(page_sql@ =~= spec_records_sql(table_ids@.len(), cond_cols(conds@))
            + spec_page_suffix(limit, offset));
        assert(strings_views(bindings@) =~= strings_views(table_ids@) + cond_vals(conds@));
    }
    RecordsQuery { count_sql, page_sql, bindings }
}

/// The distinct-values statement: the JSON-extracted column over the
/// eligible tables, null values excluded, with the same predicate
/// rendering as the record queries. The column name is spliced into
/// the JSON paths untouched.
pub open spec fn spec_values_sql(col: Seq<char>, n: nat, cols: Seq<Seq<char>>) -> Seq<char> {
    "SELECT DISTINCT json_extract(data, '$."@ + col
        + "') as val FROM tableData WHERE tableId IN ("@ + spec_placeholders(n)
        + ") AND json_extract(data, '$."@ + col + "') IS NOT NULL"@ + spec_where_sql(cols)
}

/// Builds the distinct-values statement for a column over the eligible
/// table ids, with the filter predicates appended.
pub fn plan_values_query(
    column: &String,
    table_ids: &Vec<String>,
    conds: &Vec<(String, String)>,
) -> (r: (String, Vec<String>))
    ensures
        r.0@ == spec_values_sql(column@, table_ids@.len(), cond_cols(conds@)),
        strings_views(r.1@) == strings_views(table_ids@) + cond_vals(conds@),
{
    let ph = placeholders(table_ids.len());
    let mut sql = "SELECT DISTINCT json_extract(data, '$.".to_owned();
    sql.append(column.as_str());
    sql.append("') as val FROM tableData WHERE tableId IN (");
    sql.append(ph.as_str());
    sql.append(") AND json_extract(data, '$.");
    sql.append(column.as_str());
    sql.append("') IS NOT NULL");
    let mut bindings = clone_strings(table_ids);
    append_where(&mut sql, &mut bindings, conds);
    proof {
        assert(sql@ =~= spec_values_sql(column@, table_ids@.len(), cond_cols(conds@)));
        assert(strings_views(bindings@) =~= strings_views(table_ids@) + cond_vals(conds@));
    }
    (sql, bindings)
}

/// Pagination summary of a result page.
#[derive(Debug, Clone, PartialEq, Eq)]
pub struct Pagination {
    pub total: i64,
    pub page: u32,
    pub limit: u32,
    pub has_more: bool,
}

/// Computes the pagination summary: the 1-based page this window falls
/// in, and whether rows remain past it.
pub fn make_pagination(total: i64, limit: u32, offset: u32) -> (r: Pagination)
    requires
        limit >= 1,
        offset + limit <= u32::MAX,
        0 <= total <= u32::MAX as i64,
    ensures
        r.total == total,
        r.limit == limit,
        r.page == offset as int / limit as int + 1,
        r.has_more == (offset + limit < total),
{
    Pagination { total, page: offset / limit + 1, limit, has_more: ((offset + limit) as i64) < total }
}

/// Whether a query-result page may be served from or written to the
/// cache: only under an unrestricted policy — restricted results are
/// per-caller and caching them would risk cross-token leakage — and
/// only when no column projection was requested, since pages are cached
/// pre-projection.
pub fn may_cache_records(policy: &VisibilityPolicy, columns: &Option<Vec<String>>) -> (r: bool)
    ensures
        r == (policy@ matches PolicyView::Unrestricted && columns matches Option::None),
{
    match (policy, columns) {
        (VisibilityPolicy::Unrestricted, Option::None) => true,
        _ => false,
    }
}

/// Whether the table catalog may be served from or written to the
/// cache: only the unrestricted catalog listing is cached.
pub fn may_cache_catalog(policy: &VisibilityPolicy) -> (r: bool)
    ensures
        r == (policy@ matches PolicyView::Unrestricted),
{
    match policy {
        VisibilityPolicy::Unrestricted => true,
        _ => false,
    }
}

/// Availability of one item for a requested quantity.
#[derive(Debug, Clone, PartialEq, Eq)]
pub struct Availability {
    pub available: bool,
    pub available_qty: i64,
    pub requested_qty: u32,
}

/// The quantity an item offers: for a `sale` table the payload's
/// integer `qty` field, defaulting to 0; for any other table type a
/// binary availability — 0 when the payload's `used` flag is the
/// boolean true, else 1.
pub open spec fn spec_available_qty(
    table_type: Seq<char>,
    payload: Seq<(Seq<char>, FieldVal)>,
) -> int {
    if table_type == "sale"@ {
        match spec_payload_value(payload, "qty"@) {
            Option::Some(FieldVal::Int(n)) => n,
            _ => 0,
        }
    } else {
        match spec_payload_value(payload, "used"@) {
            Option::Some(FieldVal::Bool(true)) => 0,
            _ => 1,
        }
    }
}

/// The position of the payload field that decides `key`, if any: the
/// last field holding it.
fn payload_value_index(payload: &Vec<(String, FieldValue)>, key: &String) -> (r: Option<usize>)
    ensures
        match r {
            Option::Some(i) => i < payload@.len() && spec_payload_value(
                payload_view(payload@),
                key@,
            ) == Option::Some(payload@[i as int].1@),
            Option::None => spec_payload_value(payload_view(payload@), key@) is None,
        },
{
    let ghost pv = payload_view(payload@);
    let mut i: usize = payload.len();
    proof {
        assert(pv.take(pv.len() as int) =~= pv);
    }
    while i > 0
        invariant
            0 <= i <= payload@.len(),
            pv == payload_view(payload@),
            spec_payload_value(pv, key@) == spec_payload_value(pv.take(i as int), key@),
        decreases i,
    {
        if string_eq(&payload[i - 1].0, key) {
            proof {
                assert(pv.take(i as int).last() == pv[i - 1]);
                assert(pv[i - 1].0 == key@);
            }
            return Option::Some(i - 1);
        }
        proof {
            assert(pv.take(i as int).last() == pv[i - 1]);
            assert(pv.take(i as int).drop_last() =~= pv.take(i - 1));
        }
        i = i - 1;
    }
    proof {
        assert(pv.take(0) =~= Seq::<(Seq<char>, FieldVal)>::empty());
    }
    Option::None
}

/// Computes availability of an item whose payload has already been
/// parsed: the offered quantity must cover the requested one, the
/// comparison always evaluated arithmetically, also for the binary
/// availability of rent items.
pub fn compute_availability(
    table_type: &String,
    payload: &Vec<(String, FieldValue)>,
    quantity: u32,
) -> (r: Availability)
    ensures
        r.available_qty == spec_available_qty(table_type@, payload_view(payload@)),
        r.requested_qty == quantity,
        r.available == (spec_available_qty(table_type@, payload_view(payload@))
            >= quantity as int),
{
    let available_qty: i64 = if string_eq(table_type, &"sale".to_owned()) {
        match payload_value_index(payload, &"qty".to_owned()) {
            Option::Some(i) => match &payload[i].1 {
                FieldValue::Int(n) => *n,
                _ => 0,
            },
            Option::None => 0,
        }
    } else {
        match payload_value_index(payload, &"used".to_owned()) {
            Option::Some(i) => match &payload[i].1 {
                FieldValue::Bool(b) => if *b {
                    0
                } else {
                    1
                },
                _ => 1,
            },
            Option::None => 1,
        }
    };
    Availability {
        available: available_qty >= quantity as i64,
        available_qty,
        requested_qty: quantity,
    }
}

/// Whether `col` occurs among `cols`, compared case-insensitively.
pub open spec fn spec_col_present(col: Seq<char>, cols: Seq<Seq<char>>) -> bool {
    exists|j: int|
        0 <= j < cols.len() && crate::strutil::lower_of(#[trigger] cols[j])
            == crate::strutil::lower_of(col)
}

/// Decides case-insensitively whether one searched column occurs among
/// a table's column names.
pub fn col_present(col: &String, cols: &Vec<String>) -> (r: bool)
    ensures
        r == spec_col_present(col@, strings_views(cols@)),
{
    let target = crate::strutil::lowercase(col.as_str());
    let ghost cv = strings_views(cols@);
    let mut j: usize = 0;
    while j < cols.len()
        invariant
            0 <= j <= cols@.len(),
            cv == strings_views(cols@),
            target@ == crate::strutil::lower_of(col@),
            forall|k: int|
                0 <= k < j ==> crate::strutil::lower_of(#[trigger] cv[k])
                    != crate::strutil::lower_of(col@),
        decreases cols@.len() - j,
    {
        let lowered = crate::strutil::lowercase(cols[j].as_str());
        if string_eq(&lowered, &target) {
            proof {
                assert(crate::strutil::lower_of(cv[j as int]) == crate::strutil::lower_of(col@));
            }
            return true;
        }
        j = j + 1;
    }
    false
}

/// Whether a table carries every searched column, each compared
/// case-insensitively against the table's column names.
pub open spec fn spec_columns_all_present(search: Seq<Seq<char>>, cols: Seq<Seq<char>>) -> bool {
    forall|i: int| 0 <= i < search.len() ==> spec_col_present(#[trigger] search[i], cols)
}

/// Decides whether a table carries every searched column: the search
/// filter keeps exactly the tables for which this holds.
pub fn columns_all_present(search: &Vec<String>, cols: &Vec<String>) -> (r: bool)
    ensures
        r == spec_columns_all_present(strings_views(search@), strings_views(cols@)),
{
    let ghost sv = strings_views(search@);
    let mut i: usize = 0;
    while i < search.len()
        invariant
            0 <= i <= search@.len(),
            sv == strings_views(search@),
            forall|k: int| 0 <= k < i ==> spec_col_present(#[trigger] sv[k], strings_views(cols@)),
        decreases search@.len() - i,
    {
        if !col_present(&search[i], cols) {
            proof {
                assert(!spec_col_present(sv[i as int], strings_views(cols@)));
            }
            return false;
        }
        i = i + 1;
    }
    true
}

/// The optional timestamp of a row, as a character sequence.
pub open spec fn opt_str_view(o: Option<String>) -> Option<Seq<char>> {
    match o {
        Option::Some(s) => Option::Some(s@),
        Option::None => Option::None,
    }
}

/// The table name and type a row is flattened under: those of the
/// first accessible table with its id, or the `Unknown`/`unknown`
/// placeholders when the row's table is not among them.
pub open spec fn spec_meta_name_type(tables: Seq<TableMeta>, id: Seq<char>) -> (Seq<char>, Seq<
    char,
>)
    decreases tables.len(),
{
    if tables.len() == 0 {
        ("Unknown"@, "unknown"@)
    } else if tables[0].id@ == id {
        (tables[0].name@, tables[0].table_type@)
    } else {
        spec_meta_name_type(tables.drop_first(), id)
    }
}

proof fn lemma_meta_skip(tables: Seq<TableMeta>, id: Seq<char>, i: int)
    requires
        0 <= i <= tables.len(),
        forall|j: int| 0 <= j < i ==> (#[trigger] tables[j]).id@ != id,
    ensures
        spec_meta_name_type(tables, id) == spec_meta_name_type(tables.skip(i), id),
    decreases i,
{
    if i == 0 {
        assert(tables.skip(0) =~= tables);
    } else {
        lemma_meta_skip(tables, id, i - 1);
        assert(tables.skip(i - 1)[0] == tables[i - 1]);
        assert(tables.skip(i - 1).drop_first() =~= tables.skip(i));
        assert(tables.skip(i - 1).len() > 0);
        assert(spec_meta_name_type(tables.skip(i - 1), id) == spec_meta_name_type(
            tables.skip(i),
            id,
        ));
    }
}

/// Finds the name and type to flatten a row under.
pub fn meta_name_type(tables: &Vec<TableMeta>, id: &String) -> (r: (String, String))
    ensures
        (r.0@, r.1@) == spec_meta_name_type(tables@, id@),
{
    let mut i: usize = 0;
    while i < tables.len()
        invariant
            0 <= i <= tables@.len(),
            forall|j: int| 0 <= j < i ==> (#[trigger] tables@[j]).id@ != id@,
        decreases tables@.len() - i,
    {
        if string_eq(&tables[i].id, id) {
            proof {
                lemma_meta_skip(tables@, id@, i as int);
                assert(tables@.skip(i as int)[0] == tables@[i as int]);
            }
            return (tables[i].name.clone(), tables[i].table_type.clone());
        }
        i = i + 1;
    }
    proof {
        lemma_meta_skip(tables@, id@, tables@.len() as int);
        assert(tables@.skip(tables@.len() as int) =~= Seq::<TableMeta>::empty());
    }
    ("Unknown".to_owned(), "unknown".to_owned())
}

/// The flattened form of one fetched row, under the accessible tables'
/// metadata.
pub open spec fn spec_flatten_row(row: Row, tables: Seq<TableMeta>) -> Seq<(Seq<char>, FieldVal)> {
    crate::record::spec_flatten(
        row.id@,
        row.table_id@,
        spec_meta_name_type(tables, row.table_id@).0,
        spec_meta_name_type(tables, row.table_id@).1,
        parsed_payload(row.data@),
        opt_str_view(row.created_at),
        opt_str_view(row.updated_at),
    )
}

/// Flattens a fetched page of rows, each under the name and type of
/// its table.
pub fn flatten_rows(rows: &Vec<Row>, tables: &Vec<TableMeta>) -> (r: Vec<FlatRecord>)
    ensures
        r@.len() == rows@.len(),
        forall|i: int|
            0 <= i < rows@.len() ==> (#[trigger] r@[i])@ == spec_flatten_row(rows@[i], tables@),
{
    let mut out: Vec<FlatRecord> = Vec::new();
    let mut i: usize = 0;
    while i < rows.len()
        invariant
            0 <= i <= rows@.len(),
            out@.len() == i,
            forall|j: int|
                0 <= j < i ==> (#[trigger] out@[j])@ == spec_flatten_row(rows@[j], tables@),
        decreases rows@.len() - i,
    {
        let row = &rows[i];
        let (name, table_type) = meta_name_type(tables, &row.table_id);
        let rec = crate::record::flatten_record(
            row.id.as_str(),
            row.table_id.as_str(),
            name.as_str(),
            table_type.as_str(),
            row.data.as_str(),
            &row.created_at,
            &row.updated_at,
        );
        out.push(rec);
        i = i + 1;
    }
    out
}

/// Computes availability straight from an item's payload text, as the
/// per-item endpoint does: a point lookup that bypasses every cache.
pub fn availability_from_data(table_type: &String, data: &str, quantity: u32) -> (r: Availability)
    ensures
        r.available_qty == spec_available_qty(table_type@, parsed_payload(data@)),
        r.requested_qty == quantity,
        r.available == (spec_available_qty(table_type@, parsed_payload(data@)) >= quantity as int),
{
    let payload = crate::record::parse_payload(data);
    compute_availability(table_type, &payload, quantity)
}

} // verus!
