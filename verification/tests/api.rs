use public_api::errors::{status_code, ErrorKind};
use public_api::params::{
    extract_where_conditions, flat_from_params, limit_from_params, offset_from_params, parse_u32,
    projection_columns, quantity_from_params, search_columns, split_csv,
};
use public_api::planner::{
    columns_all_present, may_cache_catalog, may_cache_records, meta_name_type, plan_tables_query,
    plan_values_query, TableQuery, TableSelect,
};
use public_api::policy::{derive_policy, has_table_access, is_exposed_type, parse_bearer,
    TokenIdentity, VisibilityPolicy};
use public_api::routes::{is_health_path, match_get_route, match_post_route, Route};
use public_api::table::TableMeta;

fn segs(path: &str) -> Vec<String> {
    path.split('/').map(|s| s.to_string()).collect()
}

#[test]
fn bearer_scheme_is_required() {
    assert_eq!(
        parse_bearer(&Some("Bearer abc".to_string())),
        Some("abc".to_string())
    );
    assert_eq!(parse_bearer(&Some("bearer abc".to_string())), None);
    assert_eq!(parse_bearer(&Some("Bearer".to_string())), None);
    assert_eq!(parse_bearer(&None), None);
}

#[test]
fn reserved_identities_are_unrestricted() {
    for id in ["admin-token", "frontend-token"] {
        let token = TokenIdentity {
            id: id.to_string(),
            table_access: None,
        };
        assert_eq!(derive_policy(&token), VisibilityPolicy::Unrestricted);
    }
}

#[test]
fn access_spec_parses_to_granted_ids() {
    let token = TokenIdentity {
        id: "customer-1".to_string(),
        table_access: Some("[\"t1\", \"t2\"]".to_string()),
    };
    assert_eq!(
        derive_policy(&token),
        VisibilityPolicy::Restricted(vec!["t1".to_string(), "t2".to_string()])
    );
}

#[test]
fn absent_or_unparsable_spec_means_no_access() {
    let none = TokenIdentity {
        id: "customer-1".to_string(),
        table_access: None,
    };
    assert_eq!(derive_policy(&none), VisibilityPolicy::Restricted(vec![]));
    let bad = TokenIdentity {
        id: "customer-1".to_string(),
        table_access: Some("{\"not\": \"a list\"}".to_string()),
    };
    assert_eq!(derive_policy(&bad), VisibilityPolicy::Restricted(vec![]));
}

#[test]
fn empty_restricted_policy_issues_no_table_query() {
    let policy = VisibilityPolicy::Restricted(vec![]);
    for select in [
        TableSelect::Catalog,
        TableSelect::CatalogUnordered,
        TableSelect::Meta,
        TableSelect::Names,
    ] {
        assert_eq!(plan_tables_query(&policy, select), TableQuery::Empty);
    }
    assert!(!may_cache_records(&policy, &None));
    assert!(!may_cache_catalog(&policy));
}

#[test]
fn unrestricted_sees_public_and_shared_only() {
    let policy = VisibilityPolicy::Unrestricted;
    assert!(has_table_access(&policy, &"t1".to_string(), &"public".to_string()));
    assert!(has_table_access(&policy, &"t1".to_string(), &"shared".to_string()));
    assert!(!has_table_access(&policy, &"t1".to_string(), &"private".to_string()));
}

#[test]
fn explicit_grant_supersedes_visibility() {
    let policy = VisibilityPolicy::Restricted(vec!["t1".to_string()]);
    assert!(has_table_access(&policy, &"t1".to_string(), &"private".to_string()));
    assert!(!has_table_access(&policy, &"t2".to_string(), &"public".to_string()));
}

#[test]
fn only_sale_and_rent_are_exposed() {
    assert!(is_exposed_type(&"sale".to_string()));
    assert!(is_exposed_type(&"rent".to_string()));
    assert!(!is_exposed_type(&"other".to_string()));
}

#[test]
fn catalog_statements_are_exact() {
    let unrestricted = plan_tables_query(&VisibilityPolicy::Unrestricted, TableSelect::Catalog);
    match unrestricted {
        TableQuery::Query { sql, bindings } => {
            assert_eq!(
                sql,
                "SELECT ut.id, ut.name, ut.description, ut.tableType, (SELECT COUNT(*) FROM tableData WHERE tableId = ut.id) as rowCount FROM userTables ut WHERE ut.visibility IN ('public', 'shared') AND ut.tableType IN ('sale', 'rent') ORDER BY ut.name ASC"
            );
            assert!(bindings.is_empty());
        },
        TableQuery::Empty => panic!("unrestricted catalog must query"),
    }
    let restricted = plan_tables_query(
        &VisibilityPolicy::Restricted(vec!["t1".to_string(), "t2".to_string()]),
        TableSelect::Meta,
    );
    match restricted {
        TableQuery::Query { sql, bindings } => {
            assert_eq!(
                sql,
                "SELECT id, name, tableType FROM userTables WHERE id IN (?,?) AND tableType IN ('sale', 'rent')"
            );
            assert_eq!(bindings, vec!["t1".to_string(), "t2".to_string()]);
        },
        TableQuery::Empty => panic!("restricted policy with ids must query"),
    }
}

#[test]
fn name_listing_statement_is_exact() {
    let plan = plan_tables_query(
        &VisibilityPolicy::Restricted(vec!["t1".to_string()]),
        TableSelect::Names,
    );
    match plan {
        TableQuery::Query { sql, bindings } => {
            assert_eq!(
                sql,
                "SELECT id, name FROM userTables WHERE id IN (?) AND tableType IN ('sale', 'rent')"
            );
            assert_eq!(bindings, vec!["t1".to_string()]);
        },
        TableQuery::Empty => panic!("restricted policy with ids must query"),
    }
}

#[test]
fn unordered_catalog_statement_has_no_ordering() {
    let plan = plan_tables_query(&VisibilityPolicy::Unrestricted, TableSelect::CatalogUnordered);
    match plan {
        TableQuery::Query { sql, .. } => {
            assert!(!sql.contains("ORDER BY"));
            assert!(sql.ends_with("IN ('sale', 'rent')"));
        },
        TableQuery::Empty => panic!("unrestricted search must query"),
    }
}

#[test]
fn repeated_parameters_are_overwritten_by_later_ones() {
    let params = vec![
        ("limit".to_string(), "5".to_string()),
        ("limit".to_string(), "7".to_string()),
    ];
    assert_eq!(limit_from_params(&params), 7);
}

#[test]
fn values_statement_splices_column_and_binds_values() {
    let (sql, bindings) = plan_values_query(
        &"brand".to_string(),
        &vec!["t1".to_string()],
        &vec![("color".to_string(), "red".to_string())],
    );
    assert_eq!(
        sql,
        "SELECT DISTINCT json_extract(data, '$.brand') as val FROM tableData WHERE tableId IN (?) AND json_extract(data, '$.brand') IS NOT NULL AND LOWER(json_extract(data, '$.color')) = LOWER(?)"
    );
    assert_eq!(bindings, vec!["t1".to_string(), "red".to_string()]);
}

#[test]
fn numeric_parameters_follow_the_integer_grammar() {
    assert_eq!(parse_u32("123"), Some(123));
    assert_eq!(parse_u32("+5"), Some(5));
    assert_eq!(parse_u32(""), None);
    assert_eq!(parse_u32("abc"), None);
    assert_eq!(parse_u32("12a"), None);
    assert_eq!(parse_u32(" 5"), None);
    assert_eq!(parse_u32("-5"), None);
    assert_eq!(parse_u32("4294967295"), Some(u32::MAX));
    assert_eq!(parse_u32("4294967296"), None);
}

#[test]
fn limit_defaults_and_caps() {
    let none: Vec<(String, String)> = vec![];
    assert_eq!(limit_from_params(&none), 100);
    let big = vec![("limit".to_string(), "5000".to_string())];
    assert_eq!(limit_from_params(&big), 1000);
    let junk = vec![("limit".to_string(), "x".to_string())];
    assert_eq!(limit_from_params(&junk), 100);
    let zero = vec![("limit".to_string(), "0".to_string())];
    assert_eq!(limit_from_params(&zero), 0);
}

#[test]
fn offset_and_quantity_defaults() {
    let none: Vec<(String, String)> = vec![];
    assert_eq!(offset_from_params(&none), 0);
    assert_eq!(quantity_from_params(&none), 1);
    let q = vec![("quantity".to_string(), "10".to_string())];
    assert_eq!(quantity_from_params(&q), 10);
}

#[test]
fn flat_flag_must_be_literally_true() {
    let yes = vec![("flat".to_string(), "true".to_string())];
    assert!(flat_from_params(&yes));
    let no = vec![("flat".to_string(), "TRUE".to_string())];
    assert!(!flat_from_params(&no));
    assert!(!flat_from_params(&vec![]));
}

#[test]
fn where_conditions_are_extracted_from_bracketed_keys() {
    let params = vec![
        ("where[color]".to_string(), "red".to_string()),
        ("limit".to_string(), "10".to_string()),
        ("where[]".to_string(), "x".to_string()),
        ("where[size".to_string(), "m".to_string()),
    ];
    let conds = extract_where_conditions(&params);
    assert_eq!(
        conds,
        vec![
            ("color".to_string(), "red".to_string()),
            ("".to_string(), "x".to_string()),
        ]
    );
}

#[test]
fn csv_splitting_keeps_empty_pieces() {
    assert_eq!(
        split_csv("a,,b"),
        vec!["a".to_string(), "".to_string(), "b".to_string()]
    );
    assert_eq!(split_csv(""), vec!["".to_string()]);
}

#[test]
fn search_columns_trim_and_drop_empties() {
    assert_eq!(
        search_columns(" a , b,,c "),
        vec!["a".to_string(), "b".to_string(), "c".to_string()]
    );
    assert_eq!(search_columns(""), Vec::<String>::new());
}

#[test]
fn projection_columns_trim_but_keep_empties() {
    assert_eq!(
        projection_columns("a, ,b "),
        vec!["a".to_string(), "".to_string(), "b".to_string()]
    );
}

#[test]
fn column_search_is_case_insensitive() {
    let search = vec!["Name".to_string(), "QTY".to_string()];
    let cols = vec!["name".to_string(), "qty".to_string(), "extra".to_string()];
    assert!(columns_all_present(&search, &cols));
    let missing = vec!["Name".to_string(), "absent".to_string()];
    assert!(!columns_all_present(&missing, &cols));
}

#[test]
fn unknown_table_falls_back_to_placeholders() {
    let tables = vec![TableMeta {
        id: "t1".to_string(),
        name: "Stock".to_string(),
        table_type: "sale".to_string(),
    }];
    let (name, ty) = meta_name_type(&tables, &"t1".to_string());
    assert_eq!((name, ty), ("Stock".to_string(), "sale".to_string()));
    let (name2, ty2) = meta_name_type(&tables, &"nope".to_string());
    assert_eq!((name2, ty2), ("Unknown".to_string(), "unknown".to_string()));
}

#[test]
fn get_routes_resolve_operations_and_identifiers() {
    assert_eq!(match_get_route(&segs("/api/public/tables")), Route::Tables);
    assert_eq!(
        match_get_route(&segs("/api/public/tables/search")),
        Route::TablesSearch
    );
    assert_eq!(
        match_get_route(&segs("/api/public/tables/t1/items")),
        Route::TableItems {
            table_id: "t1".to_string()
        }
    );
    assert_eq!(
        match_get_route(&segs("/api/public/tables/t1/items/r1")),
        Route::TableItem {
            table_id: "t1".to_string(),
            item_id: "r1".to_string()
        }
    );
    assert_eq!(
        match_get_route(&segs("/api/public/tables/t1/items/r1/availability")),
        Route::ItemAvailability {
            table_id: "t1".to_string(),
            item_id: "r1".to_string()
        }
    );
    assert_eq!(match_get_route(&segs("/api/public/records")), Route::Records);
    assert_eq!(
        match_get_route(&segs("/api/public/values/brand")),
        Route::Values {
            column: "brand".to_string()
        }
    );
    assert_eq!(match_get_route(&segs("/api/public/other")), Route::NotFound);
    assert_eq!(match_get_route(&segs("/api/public/tables//items")), Route::NotFound);
}

#[test]
fn post_routes_forward_write_shapes_only() {
    assert_eq!(match_post_route(&segs("/api/public/buy")), Route::ProxyWrite);
    assert_eq!(match_post_route(&segs("/api/public/rent")), Route::ProxyWrite);
    assert_eq!(match_post_route(&segs("/api/public/release")), Route::ProxyWrite);
    assert_eq!(match_post_route(&segs("/api/public/tables")), Route::NotFound);
}

#[test]
fn health_paths_need_no_credential() {
    assert!(is_health_path(&segs("/health")));
    assert!(is_health_path(&segs("/api/public/health")));
    assert!(!is_health_path(&segs("/api/public/tables")));
}

#[test]
fn error_kinds_carry_their_status() {
    assert_eq!(status_code(ErrorKind::Unauthorized), 401);
    assert_eq!(status_code(ErrorKind::NotFound), 404);
    assert_eq!(status_code(ErrorKind::Forbidden), 403);
    assert_eq!(status_code(ErrorKind::InvalidArgument), 400);
    assert_eq!(status_code(ErrorKind::UpstreamFailure), 500);
    assert_eq!(status_code(ErrorKind::WriteServiceUnavailable), 503);
    assert_eq!(status_code(ErrorKind::WriteForwardFailed), 502);
    assert_eq!(status_code(ErrorKind::MethodNotAllowed), 405);
}
