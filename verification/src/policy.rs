//! Access resolution: a bearer credential resolves to a table-visibility
//! policy. Two reserved identities are unrestricted regardless of their
//! access spec; every other identity is restricted to the table ids its
//! spec lists, and an absent or unparsable spec means no access at all —
//! a valid policy that yields zero results, never an error.

use vstd::prelude::*;

verus! {

use vstd::string::{StrSliceExecFns, StringExecFns};
use crate::strutil::{string_eq, strings_views};

/// A token identity as the row store returns it: an id and an optional
/// serialized list of table ids.
#[derive(Debug, Clone, PartialEq, Eq)]
pub struct TokenIdentity {
    pub id: String,
    pub table_access: Option<String>,
}

/// The resolved access scope of a credential: either every exposed
/// table, or exactly the listed table ids.
#[derive(Debug, Clone, PartialEq, Eq)]
pub enum VisibilityPolicy {
    Unrestricted,
    Restricted(Vec<String>),
}

/// The mathematical shape of a visibility policy.
pub enum PolicyView {
    Unrestricted,
    Restricted(Seq<Seq<char>>),
}

impl View for VisibilityPolicy {
    type V = PolicyView;

    open spec fn view(&self) -> PolicyView {
        match self {
            VisibilityPolicy::Unrestricted => PolicyView::Unrestricted,
            VisibilityPolicy::Restricted(ids) => PolicyView::Restricted(strings_views(ids@)),
        }
    }
}

impl PolicyView {
    /// A restricted policy with an empty id set: the caller may see
    /// nothing, and no row-store query is ever issued for it.
    pub open spec fn is_empty_restricted(self) -> bool {
        match self {
            PolicyView::Unrestricted => false,
            PolicyView::Restricted(ids) => ids.len() == 0,
        }
    }
}

/// The token string inside a bearer authorization header: the text
/// after the `Bearer ` scheme prefix, or nothing for a missing or
/// malformed header.
pub open spec fn spec_parse_bearer(header: Option<Seq<char>>) -> Option<Seq<char>> {
    match header {
        Option::Some(h) => if h.len() >= 7 && h.take(7) == "Bearer "@ {
            Option::Some(h.skip(7))
        } else {
            Option::None
        },
        Option::None => Option::None,
    }
}

/// Extracts the raw token from an authorization header value, requiring
/// the `Bearer ` scheme.
pub fn parse_bearer(header: &Option<String>) -> (r: Option<String>)
    ensures
        match r {
            Option::Some(t) => spec_parse_bearer(
                match header {
                    Option::Some(h) => Option::Some(h@),
                    Option::None => Option::None,
                },
            ) == Option::Some(t@),
            Option::None => spec_parse_bearer(
                match header {
                    Option::Some(h) => Option::Some(h@),
                    Option::None => Option::None,
                },
            ) is None,
        },
{
    match header {
        Option::Some(h) => {
            let n = h.as_str().unicode_len();
            if n < 7 {
                return Option::None;
            }
            let prefix = h.as_str().substring_char(0, 7).to_owned();
            if string_eq(&prefix, &"Bearer ".to_owned()) {
                let token = h.as_str().substring_char(7, n).to_owned();
                proof {
                    assert(h@.subrange(0, 7) =~= h@.take(7));
                    assert(h@.subrange(7, h@.len() as int) =~= h@.skip(7));
                }
                Option::Some(token)
            } else {
                proof {
                    assert(h@.subrange(0, 7) =~= h@.take(7));
                }
                Option::None
            }
        },
        Option::None => Option::None,
    }
}

/// What parsing a table-access spec yields: the list of table ids when
/// the text is a JSON array of strings, nothing otherwise. A function
/// of the text alone.
pub uninterp spec fn parsed_id_list(s: Seq<char>) -> Option<Seq<Seq<char>>>;

/// Relies on `serde_json::from_str::<Vec<String>>`: parses a JSON array
/// of strings, failing on any other JSON shape or on invalid JSON.
#[verifier::external_body]
fn parse_id_list(s: &str) -> (r: Option<Vec<String>>)
    ensures
        parsed_id_list(s@) == match r {
            Option::Some(v) => Option::Some(strings_views(v@)),
            Option::None => Option::None::<Seq<Seq<char>>>,
        },
{
    serde_json::from_str::<Vec<String>>(s).ok()
}

/// The policy an identity resolves to: the two reserved identities are
/// unrestricted; anyone else is restricted to the ids their access spec
/// parses to, with an absent or unparsable spec giving the empty set.
pub open spec fn spec_policy(id: Seq<char>, table_access: Option<Seq<char>>) -> PolicyView {
    if id == "admin-token"@ || id == "frontend-token"@ {
        PolicyView::Unrestricted
    } else {
        match table_access {
            Option::Some(s) => match parsed_id_list(s) {
                Option::Some(ids) => PolicyView::Restricted(ids),
                Option::None => PolicyView::Restricted(Seq::empty()),
            },
            Option::None => PolicyView::Restricted(Seq::empty()),
        }
    }
}

/// Derives the visibility policy for a resolved token identity.
pub fn derive_policy(token: &TokenIdentity) -> (r: VisibilityPolicy)
    ensures
        r@ == spec_policy(
            token.id@,
            match token.table_access {
                Option::Some(s) => Option::Some(s@),
                Option::None => Option::None,
            },
        ),
{
    if string_eq(&token.id, &"admin-token".to_owned()) || string_eq(
        &token.id,
        &"frontend-token".to_owned(),
    ) {
        return VisibilityPolicy::Unrestricted;
    }
    match &token.table_access {
        Option::Some(access) => match parse_id_list(access.as_str()) {
            Option::Some(ids) => VisibilityPolicy::Restricted(ids),
            Option::None => {
                let empty: Vec<String> = Vec::new();
                proof {
                    assert(strings_views(empty@) =~= Seq::<Seq<char>>::empty());
                }
                VisibilityPolicy::Restricted(empty)
            },
        },
        Option::None => {
            let empty: Vec<String> = Vec::new();
            proof {
                assert(strings_views(empty@) =~= Seq::<Seq<char>>::empty());
            }
            VisibilityPolicy::Restricted(empty)
        },
    }
}

/// Whether a policy grants access to a table: unrestricted access sees
/// `public` and `shared` tables; restricted access sees exactly its
/// granted ids, with visibility deliberately not re-checked — an
/// explicit grant supersedes visibility.
pub open spec fn spec_has_access(
    policy: PolicyView,
    table_id: Seq<char>,
    visibility: Seq<char>,
) -> bool {
    match policy {
        PolicyView::Unrestricted => visibility == "public"@ || visibility == "shared"@,
        PolicyView::Restricted(ids) => ids.contains(table_id),
    }
}

/// Decides whether the policy may touch the given table.
pub fn has_table_access(policy: &VisibilityPolicy, table_id: &String, visibility: &String) -> (r:
    bool)
    ensures
        r == spec_has_access(policy@, table_id@, visibility@),
{
    match policy {
        VisibilityPolicy::Unrestricted => string_eq(visibility, &"public".to_owned()) || string_eq(
            visibility,
            &"shared".to_owned(),
        ),
        VisibilityPolicy::Restricted(ids) => crate::strutil::contains_string(ids, table_id),
    }
}

/// Whether a table type is exposed through this surface at all: only
/// `sale` and `rent` tables ever are, regardless of visibility.
pub open spec fn spec_exposed_type(table_type: Seq<char>) -> bool {
    table_type == "sale"@ || table_type == "rent"@
}

/// Decides whether a table's type is exposed through this surface.
pub fn is_exposed_type(table_type: &String) -> (r: bool)
    ensures
        r == spec_exposed_type(table_type@),
{
    string_eq(table_type, &"sale".to_owned()) || string_eq(table_type, &"rent".to_owned())
}

} // verus!
