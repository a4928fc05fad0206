use public_api::cache::{
    entry_is_fresh, make_catalog_entry, make_query_page_entry, make_token_entry,
    read_catalog_entry, read_query_page_entry, token_entry_identity, CACHE_TTL_PUBLIC_TABLES,
    CACHE_TTL_QUERY_RESULTS,
};
use public_api::codec::{query_cache_key, token_cache_key, CATALOG_CACHE_KEY};
use public_api::policy::TokenIdentity;
use public_api::strutil::djb2;
use public_api::table::Table;

#[test]
fn djb2_of_empty_is_seed() {
    assert_eq!(djb2(b""), 5381);
}

#[test]
fn djb2_matches_known_value() {
    assert_eq!(djb2(b"hello"), 261238937);
}

#[test]
fn token_key_prefixes_raw_token() {
    assert_eq!(token_cache_key("abc123"), "auth:token:abc123");
}

#[test]
fn catalog_key_is_fixed() {
    assert_eq!(CATALOG_CACHE_KEY, "public:tables:all");
}

#[test]
fn query_key_without_predicates_uses_sentinel() {
    let ids = vec!["t1".to_string(), "t2".to_string()];
    let key = query_cache_key(&ids, &vec![], 100, 0);
    let expected = format!("query:{:x}:none:100:0", djb2(b"t1,t2"));
    assert_eq!(key, expected);
}

#[test]
fn query_key_sorts_predicates() {
    let ids = vec!["t1".to_string()];
    let conds = vec![
        ("b".to_string(), "2".to_string()),
        ("a".to_string(), "1".to_string()),
    ];
    let key = query_cache_key(&ids, &conds, 50, 10);
    let expected = format!("query:{:x}:{:x}:50:10", djb2(b"t1"), djb2(b"a=1&b=2"));
    assert_eq!(key, expected);
}

#[test]
fn query_key_is_order_independent() {
    let ids = vec!["t1".to_string(), "t2".to_string()];
    let conds1 = vec![
        ("color".to_string(), "red".to_string()),
        ("size".to_string(), "m".to_string()),
    ];
    let conds2 = vec![
        ("size".to_string(), "m".to_string()),
        ("color".to_string(), "red".to_string()),
    ];
    assert_eq!(
        query_cache_key(&ids, &conds1, 100, 0),
        query_cache_key(&ids, &conds2, 100, 0)
    );
}

#[test]
fn query_key_distinguishes_windows() {
    let ids = vec!["t1".to_string()];
    let k1 = query_cache_key(&ids, &vec![], 100, 0);
    let k2 = query_cache_key(&ids, &vec![], 100, 100);
    assert_ne!(k1, k2);
}

#[test]
fn freshness_window_is_half_open() {
    assert!(entry_is_fresh(100, 100, 60));
    assert!(entry_is_fresh(100, 159, 60));
    assert!(!entry_is_fresh(100, 160, 60));
    assert!(!entry_is_fresh(100, 99, 60));
}

#[test]
fn query_page_expires_at_sixty_seconds() {
    let recs = Vec::new();
    let entry = make_query_page_entry(recs, 3, 1000);
    assert_eq!(entry.cached_at, 1000);
    let hit = read_query_page_entry(entry.clone(), 1000 + CACHE_TTL_QUERY_RESULTS - 1);
    assert!(hit.is_some());
    let miss = read_query_page_entry(entry, 1000 + CACHE_TTL_QUERY_RESULTS);
    assert!(miss.is_none());
}

#[test]
fn catalog_expires_at_three_hundred_seconds() {
    let tables = vec![Table {
        id: "t1".to_string(),
        name: "Stock".to_string(),
        description: None,
        table_type: "sale".to_string(),
        row_count: 3,
    }];
    let entry = make_catalog_entry(tables.clone(), 500);
    let hit = read_catalog_entry(entry.clone(), 500 + CACHE_TTL_PUBLIC_TABLES - 1);
    assert_eq!(hit, Some(tables));
    let miss = read_catalog_entry(entry, 500 + CACHE_TTL_PUBLIC_TABLES);
    assert!(miss.is_none());
}

#[test]
fn token_entries_survive_any_age() {
    let identity = TokenIdentity {
        id: "customer-1".to_string(),
        table_access: Some("[\"t1\"]".to_string()),
    };
    let entry = make_token_entry(&identity, 0);
    let back = token_entry_identity(&entry);
    assert_eq!(back, identity);
}
