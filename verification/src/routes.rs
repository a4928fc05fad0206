//! Route resolution over the request path, split on `/`: which exposed
//! operation a request names, which identifiers it carries, and which
//! write-shaped requests are only forwarded to the sibling write
//! service rather than handled here.

use vstd::prelude::*;

verus! {

use crate::strutil::{string_eq, strings_views};

/// The operation a request path names.
#[derive(Debug, Clone, PartialEq, Eq)]
pub enum Route {
    /// The health probe; served without authentication.
    Health,
    /// The table-catalog listing.
    Tables,
    /// The column search over the catalog.
    TablesSearch,
    /// The item listing of one table.
    TableItems { table_id: String },
    /// One item of one table.
    TableItem { table_id: String, item_id: String },
    /// The availability check of one item.
    ItemAvailability { table_id: String, item_id: String },
    /// The filtered record listing.
    Records,
    /// The distinct values of one column.
    Values { column: String },
    /// A write-shaped request, forwarded as-is to the write service.
    ProxyWrite,
    /// No exposed operation.
    NotFound,
}

/// The mathematical shape of a resolved route.
pub enum RouteView {
    Health,
    Tables,
    TablesSearch,
    TableItems { table_id: Seq<char> },
    TableItem { table_id: Seq<char>, item_id: Seq<char> },
    ItemAvailability { table_id: Seq<char>, item_id: Seq<char> },
    Records,
    Values { column: Seq<char> },
    ProxyWrite,
    NotFound,
}

impl View for Route {
    type V = RouteView;

    open spec fn view(&self) -> RouteView {
        match self {
            Route::Health => RouteView::Health,
            Route::Tables => RouteView::Tables,
            Route::TablesSearch => RouteView::TablesSearch,
            Route::TableItems { table_id } => RouteView::TableItems { table_id: table_id@ },
            Route::TableItem { table_id, item_id } => RouteView::TableItem {
                table_id: table_id@,
                item_id: item_id@,
            },
            Route::ItemAvailability { table_id, item_id } => RouteView::ItemAvailability {
                table_id: table_id@,
                item_id: item_id@,
            },
            Route::Records => RouteView::Records,
            Route::Values { column } => RouteView::Values { column: column@ },
            Route::ProxyWrite => RouteView::ProxyWrite,
            Route::NotFound => RouteView::NotFound,
        }
    }
}

/// Whether the segments open with `/api/public/<head>`.
pub open spec fn spec_api_prefix(segs: Seq<Seq<char>>, head: Seq<char>) -> bool {
    segs.len() >= 4 && segs[0] == ""@ && segs[1] == "api"@ && segs[2] == "public"@ && segs[3]
        == head
}

/// Whether a path is the health probe: `/health` or
/// `/api/public/health`.
pub open spec fn spec_is_health(segs: Seq<Seq<char>>) -> bool {
    (segs.len() == 2 && segs[0] == ""@ && segs[1] == "health"@) || (segs.len() == 4
        && spec_api_prefix(segs, "health"@))
}

/// The operation a GET path resolves to, by its `/`-separated
/// segments. The per-item shapes are matched before the item-listing
/// shape, so `availability` binds tighter than a bare item id.
pub open spec fn spec_get_route(segs: Seq<Seq<char>>) -> RouteView {
    if segs.len() == 5 && spec_api_prefix(segs, "tables"@) && segs[4] == "search"@ {
        RouteView::TablesSearch
    } else if segs.len() == 8 && spec_api_prefix(segs, "tables"@) && segs[5] == "items"@ && segs[7]
        == "availability"@ {
        RouteView::ItemAvailability { table_id: segs[4], item_id: segs[6] }
    } else if segs.len() == 7 && spec_api_prefix(segs, "tables"@) && segs[5] == "items"@ {
        RouteView::TableItem { table_id: segs[4], item_id: segs[6] }
    } else if segs.len() == 6 && spec_api_prefix(segs, "tables"@) && segs[5] == "items"@ && segs[4]
        .len() > 0 {
        RouteView::TableItems { table_id: segs[4] }
    } else if segs.len() == 4 && spec_api_prefix(segs, "tables"@) {
        RouteView::Tables
    } else if segs.len() == 4 && spec_api_prefix(segs, "records"@) {
        RouteView::Records
    } else if segs.len() == 5 && spec_api_prefix(segs, "values"@) && segs[4].len() > 0 {
        RouteView::Values { column: segs[4] }
    } else {
        RouteView::NotFound
    }
}

/// The operation a POST path resolves to: the three write shapes are
/// forwarded to the write service, everything else is unknown.
pub open spec fn spec_post_route(segs: Seq<Seq<char>>) -> RouteView {
    if segs.len() == 4 && (spec_api_prefix(segs, "buy"@) || spec_api_prefix(segs, "rent"@)
        || spec_api_prefix(segs, "release"@)) {
        RouteView::ProxyWrite
    } else {
        RouteView::NotFound
    }
}

fn seg_is(segs: &Vec<String>, i: usize, lit: &str) -> (r: bool)
    requires
        i < segs@.len(),
    ensures
        r == (strings_views(segs@)[i as int] == lit@),
{
    string_eq(&segs[i], &lit.to_owned())
}

/// Decides whether a path is the health probe, which needs no
/// credential.
pub fn is_health_path(segs: &Vec<String>) -> (r: bool)
    ensures
        r == spec_is_health(strings_views(segs@)),
{
    if segs.len() == 2 {
        seg_is(segs, 0, "") && seg_is(segs, 1, "health")
    } else if segs.len() == 4 {
        seg_is(segs, 0, "") && seg_is(segs, 1, "api") && seg_is(segs, 2, "public") && seg_is(
            segs,
            3,
            "health",
        )
    } else {
        false
    }
}

fn has_api_prefix(segs: &Vec<String>, head: &str) -> (r: bool)
    ensures
        r == spec_api_prefix(strings_views(segs@), head@),
{
    segs.len() >= 4 && seg_is(segs, 0, "") && seg_is(segs, 1, "api") && seg_is(segs, 2, "public")
        && seg_is(segs, 3, head)
}

/// Resolves a GET path to its operation.
pub fn match_get_route(segs: &Vec<String>) -> (r: Route)
    ensures
        r@ == spec_get_route(strings_views(segs@)),
{
    if segs.len() == 5 && has_api_prefix(segs, "tables") && seg_is(segs, 4, "search") {
        Route::TablesSearch
    } else if segs.len() == 8 && has_api_prefix(segs, "tables") && seg_is(segs, 5, "items")
        && seg_is(segs, 7, "availability") {
        Route::ItemAvailability { table_id: segs[4].clone(), item_id: segs[6].clone() }
    } else if segs.len() == 7 && has_api_prefix(segs, "tables") && seg_is(segs, 5, "items") {
        Route::TableItem { table_id: segs[4].clone(), item_id: segs[6].clone() }
    } else if segs.len() == 6 && has_api_prefix(segs, "tables") && seg_is(segs, 5, "items")
        && !segs[4].as_str().is_empty() {
        Route::TableItems { table_id: segs[4].clone() }
    } else if segs.len() == 4 && has_api_prefix(segs, "tables") {
        Route::Tables
    } else if segs.len() == 4 && has_api_prefix(segs, "records") {
        Route::Records
    } else if segs.len() == 5 && has_api_prefix(segs, "values") && !segs[4].as_str().is_empty() {
        Route::Values { column: segs[4].clone() }
    } else {
        Route::NotFound
    }
}

/// Resolves a POST path to its operation.
pub fn match_post_route(segs: &Vec<String>) -> (r: Route)
    ensures
        r@ == spec_post_route(strings_views(segs@)),
{
    if segs.len() == 4 && (has_api_prefix(segs, "buy") || has_api_prefix(segs, "rent")
        || has_api_prefix(segs, "release")) {
        Route::ProxyWrite
    } else {
        Route::NotFound
    }
}

} // verus!
