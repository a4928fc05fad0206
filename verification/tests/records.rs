use public_api::cache::{make_query_page_entry, read_query_page_entry};
use public_api::planner::{
    availability_from_data, compute_availability, flatten_rows, may_cache_records,
    plan_records_query, plan_tables_query, TableQuery, TableSelect,
};
use public_api::policy::VisibilityPolicy;
use public_api::record::{flatten_record, project_columns, FieldValue, FlatRecord};
use public_api::response::{empty_records_response, records_response};
use public_api::table::{Row, TableMeta};

fn field<'a>(rec: &'a FlatRecord, key: &str) -> Option<&'a FieldValue> {
    let mut found = None;
    for (k, v) in rec.fields.iter() {
        if k == key {
            found = Some(v);
            break;
        }
    }
    found
}

#[test]
fn flatten_merges_metadata_and_payload() {
    let rec = flatten_record(
        "r1",
        "t1",
        "Stock",
        "sale",
        "{\"qty\": 5, \"color\": \"red\"}",
        &Some("2024-01-01".to_string()),
        &None,
    );
    assert_eq!(field(&rec, "id"), Some(&FieldValue::Text("r1".to_string())));
    assert_eq!(field(&rec, "tableId"), Some(&FieldValue::Text("t1".to_string())));
    assert_eq!(field(&rec, "tableName"), Some(&FieldValue::Text("Stock".to_string())));
    assert_eq!(field(&rec, "tableType"), Some(&FieldValue::Text("sale".to_string())));
    assert_eq!(field(&rec, "qty"), Some(&FieldValue::Int(5)));
    assert_eq!(field(&rec, "color"), Some(&FieldValue::Text("red".to_string())));
    assert_eq!(
        field(&rec, "createdAt"),
        Some(&FieldValue::Text("2024-01-01".to_string()))
    );
    assert_eq!(field(&rec, "updatedAt"), None);
}

#[test]
fn flatten_is_idempotent() {
    let make = || {
        flatten_record(
            "r1",
            "t1",
            "Stock",
            "sale",
            "{\"qty\": 5}",
            &Some("2024-01-01".to_string()),
            &Some("2024-01-02".to_string()),
        )
    };
    let a = make();
    let b = make();
    assert_eq!(a, b);
    assert_eq!(format!("{:?}", a), format!("{:?}", b));
}

#[test]
fn payload_overwrites_reserved_table_type() {
    let rec = flatten_record(
        "r1",
        "t1",
        "Stock",
        "sale",
        "{\"tableType\": \"custom\"}",
        &None,
        &None,
    );
    assert_eq!(
        field(&rec, "tableType"),
        Some(&FieldValue::Text("custom".to_string()))
    );
    let occurrences = rec
        .fields
        .iter()
        .filter(|(k, _)| k == "tableType")
        .count();
    assert_eq!(occurrences, 1);
}

#[test]
fn duplicate_payload_keys_keep_the_later_value() {
    let rec = flatten_record(
        "r1",
        "t1",
        "Stock",
        "sale",
        "{\"a\": 1, \"a\": 2}",
        &None,
        &None,
    );
    assert_eq!(field(&rec, "a"), Some(&FieldValue::Int(2)));
}

#[test]
fn malformed_payload_degrades_to_empty_object() {
    let rec = flatten_record("r1", "t1", "Stock", "sale", "not json", &None, &None);
    assert_eq!(rec.fields.len(), 4);
    assert_eq!(field(&rec, "id"), Some(&FieldValue::Text("r1".to_string())));
}

#[test]
fn projection_keeps_reserved_fields() {
    let rec = flatten_record(
        "r1",
        "t1",
        "Stock",
        "sale",
        "{\"qty\": 5, \"color\": \"red\", \"size\": \"m\"}",
        &None,
        &None,
    );
    let projected = project_columns(rec, &vec!["color".to_string()]);
    assert_eq!(field(&projected, "id"), Some(&FieldValue::Text("r1".to_string())));
    assert_eq!(field(&projected, "tableType"), Some(&FieldValue::Text("sale".to_string())));
    assert_eq!(field(&projected, "color"), Some(&FieldValue::Text("red".to_string())));
    assert_eq!(field(&projected, "qty"), None);
    assert_eq!(field(&projected, "size"), None);
}

#[test]
fn sale_availability_rejects_larger_request() {
    let a = availability_from_data(&"sale".to_string(), "{\"qty\": 5}", 10);
    assert_eq!(a.available, false);
    assert_eq!(a.available_qty, 5);
    assert_eq!(a.requested_qty, 10);
}

#[test]
fn sale_availability_accepts_covered_request() {
    let a = availability_from_data(&"sale".to_string(), "{\"qty\": 5}", 5);
    assert!(a.available);
    assert_eq!(a.available_qty, 5);
}

#[test]
fn rent_availability_of_used_item_is_zero() {
    let a = availability_from_data(&"rent".to_string(), "{\"used\": true}", 1);
    assert_eq!(a.available, false);
    assert_eq!(a.available_qty, 0);
    assert_eq!(a.requested_qty, 1);
}

#[test]
fn rent_availability_defaults_to_one() {
    let a = availability_from_data(&"rent".to_string(), "{}", 1);
    assert!(a.available);
    assert_eq!(a.available_qty, 1);
}

#[test]
fn sale_availability_ignores_non_numeric_qty() {
    let payload = vec![("qty".to_string(), FieldValue::Text("5".to_string()))];
    let a = compute_availability(&"sale".to_string(), &payload, 1);
    assert_eq!(a.available_qty, 0);
    assert!(!a.available);
}

#[test]
fn repeated_query_serves_identical_page_from_cache() {
    let policy = VisibilityPolicy::Unrestricted;
    let now: u64 = 10_000;

    // First call: catalog resolved live, then the page fetched live.
    let plan = plan_tables_query(&policy, TableSelect::Meta);
    let (sql, _bindings) = match plan {
        TableQuery::Query { sql, bindings } => (sql, bindings),
        TableQuery::Empty => panic!("unrestricted policy must query"),
    };
    assert!(sql.contains("IN ('public', 'shared')"));

    let tables = vec![TableMeta {
        id: "t1".to_string(),
        name: "Stock".to_string(),
        table_type: "sale".to_string(),
    }];
    let rows = vec![
        Row {
            id: "r1".to_string(),
            table_id: "t1".to_string(),
            data: "{\"qty\": 5}".to_string(),
            created_at: None,
            updated_at: Some("2024-01-03".to_string()),
        },
        Row {
            id: "r2".to_string(),
            table_id: "t1".to_string(),
            data: "{\"qty\": 1}".to_string(),
            created_at: None,
            updated_at: Some("2024-01-02".to_string()),
        },
        Row {
            id: "r3".to_string(),
            table_id: "t1".to_string(),
            data: "{}".to_string(),
            created_at: None,
            updated_at: Some("2024-01-01".to_string()),
        },
    ];
    assert!(may_cache_records(&policy, &None));
    let records = flatten_rows(&rows, &tables);
    let first = records_response(records.clone(), 3, 100, 0, vec![]);
    assert_eq!(first.count, 3);
    assert_eq!(first.total, 3);
    assert_eq!(first.pagination.page, 1);
    assert_eq!(first.pagination.has_more, false);

    // The page is cached before any projection.
    let entry = make_query_page_entry(records, 3, now);

    // Second call within the TTL: the entry answers, no row store hit.
    let hit = read_query_page_entry(entry, now + 30);
    let (cached_records, cached_total) = hit.expect("entry must still be fresh");
    let second = records_response(cached_records, cached_total, 100, 0, vec![]);
    assert_eq!(first, second);
}

#[test]
fn planned_record_statements_are_exact() {
    let ids = vec!["t1".to_string(), "t2".to_string()];
    let conds = vec![("color".to_string(), "red".to_string())];
    let q = plan_records_query(&ids, &conds, 100, 0);
    assert_eq!(
        q.count_sql,
        "SELECT COUNT(*) as cnt FROM tableData WHERE tableId IN (?,?) AND LOWER(json_extract(data, '$.color')) = LOWER(?)"
    );
    assert_eq!(
        q.page_sql,
        "SELECT id, tableId, data, createdAt, updatedAt FROM tableData WHERE tableId IN (?,?) AND LOWER(json_extract(data, '$.color')) = LOWER(?) ORDER BY updatedAt DESC LIMIT 100 OFFSET 0"
    );
    assert_eq!(
        q.bindings,
        vec!["t1".to_string(), "t2".to_string(), "red".to_string()]
    );
}

#[test]
fn rows_of_unknown_tables_flatten_under_placeholders() {
    let rows = vec![Row {
        id: "r9".to_string(),
        table_id: "missing".to_string(),
        data: "{}".to_string(),
        created_at: None,
        updated_at: None,
    }];
    let records = flatten_rows(&rows, &vec![]);
    assert_eq!(
        field(&records[0], "tableName"),
        Some(&FieldValue::Text("Unknown".to_string()))
    );
    assert_eq!(
        field(&records[0], "tableType"),
        Some(&FieldValue::Text("unknown".to_string()))
    );
}

#[test]
fn empty_policy_page_is_empty_without_any_query() {
    let r = empty_records_response(100, vec![]);
    assert_eq!(r.records.len(), 0);
    assert_eq!(r.count, 0);
    assert_eq!(r.total, 0);
    assert_eq!(r.pagination.page, 1);
    assert!(!r.pagination.has_more);
    assert!(r.filters.is_none());
}

#[test]
fn pagination_reports_later_pages() {
    let r = records_response(vec![], 275, 100, 200, vec![]);
    assert_eq!(r.pagination.page, 3);
    assert_eq!(r.pagination.has_more, false);
    let r2 = records_response(vec![], 275, 100, 0, vec![]);
    assert_eq!(r2.pagination.page, 1);
    assert!(r2.pagination.has_more);
}
