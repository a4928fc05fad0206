//! Cache-key derivation: short, stable keys from semantically
//! normalized query shape, so that logically identical queries collide
//! and distinct ones do not. Filter predicates are rendered, sorted and
//! hashed, which makes predicate order irrelevant; the table-id list is
//! hashed in its given order (callers are expected to supply it in a
//! canonical order, e.g. straight from one catalog query).

use vstd::prelude::*;

verus! {

use vstd::string::{StringExecFns, StringSliceAdditionalSpecFns};
use crate::strutil::{
    append_dec, append_hex, byte_views, bytes_le_fn, djb2, extend_bytes, join_bytes,
    join_string_bytes, lemma_bytes_le_total_ordering, sort_byte_strings, spec_dec, spec_djb2,
    spec_hex, spec_join, str_bytes, strings_bytes,
};

/// Key under which the public table catalog is cached.
pub const CATALOG_CACHE_KEY: &'static str = "public:tables:all";

/// The cache key for a resolved token identity: `auth:token:` followed
/// by the raw bearer token string.
pub open spec fn spec_token_key(token: Seq<char>) -> Seq<char> {
    "auth:token:"@ + token
}

/// Derives the token-cache key for a raw bearer token.
pub fn token_cache_key(token: &str) -> (r: String)
    ensures
        r@ == spec_token_key(token@),
{
    let mut key = "auth:token:".to_owned();
    key.append(token);
    key
}

/// One filter predicate rendered as `column=value`, in bytes.
pub open spec fn spec_render_cond(col: Seq<char>, val: Seq<char>) -> Seq<u8> {
    str_bytes(col) + seq![61u8] + str_bytes(val)
}

/// The rendered forms of a predicate list.
pub open spec fn cond_renders(conds: Seq<(String, String)>) -> Seq<Seq<u8>> {
    conds.map_values(|kv: (String, String)| spec_render_cond(kv.0@, kv.1@))
}

fn render_cond(col: &String, val: &String) -> (r: Vec<u8>)
    ensures
        r@ == spec_render_cond(col@, val@),
{
    let mut out: Vec<u8> = Vec::new();
    extend_bytes(&mut out, col.as_str().as_bytes());
    out.push(61);
    extend_bytes(&mut out, val.as_str().as_bytes());
    proof {
        assert(out@ =~= spec_render_cond(col@, val@));
    }
    out
}

/// The hash component over the filter predicates: the literal sentinel
/// `none` when there are no predicates, otherwise the hex digest of the
/// rendered predicates sorted byte-lexicographically and joined by `&`.
pub open spec fn spec_where_component(conds: Seq<Seq<u8>>) -> Seq<char> {
    if conds.len() == 0 {
        "none"@
    } else {
        spec_hex(spec_djb2(spec_join(conds.sort_by(bytes_le_fn()), 38)) as nat)
    }
}

/// The full query-page cache key:
/// `query:{tableHash}:{whereHash}:{limit}:{offset}`, with the two
/// hashes as lowercase hex digests and limit/offset included literally.
pub open spec fn spec_query_key(
    ids: Seq<Seq<u8>>,
    conds: Seq<Seq<u8>>,
    limit: u32,
    offset: u32,
) -> Seq<char> {
    "query:"@ + spec_hex(spec_djb2(spec_join(ids, 44)) as nat) + ":"@ + spec_where_component(conds)
        + ":"@ + spec_dec(limit as nat) + ":"@ + spec_dec(offset as nat)
}

/// Derives the deterministic cache key for a query-result page from the
/// table-id list, the filter predicates, and the pagination window.
pub fn query_cache_key(
    table_ids: &Vec<String>,
    conds: &Vec<(String, String)>,
    limit: u32,
    offset: u32,
) -> (r: String)
    ensures
        r@ == spec_query_key(strings_bytes(table_ids@), cond_renders(conds@), limit, offset),
{
    let joined_ids = join_string_bytes(table_ids, 44);
    let table_hash = djb2(joined_ids.as_slice());

    let mut key = "query:".to_owned();
    append_hex(&mut key, table_hash);
    key.append(":");

    if conds.len() == 0 {
        key.append("none");
        proof {
            assert(cond_renders(conds@).len() == 0);
        }
    } else {
        let mut rendered: Vec<Vec<u8>> = Vec::new();
        let mut i: usize = 0;
        while i < conds.len()
            invariant
                0 <= i <= conds@.len(),
                byte_views(rendered@) =~= cond_renders(conds@).take(i as int),
            decreases conds@.len() - i,
        {
            rendered.push(render_cond(&conds[i].0, &conds[i].1));
            proof {
                assert(byte_views(rendered@) =~= cond_renders(conds@).take(
                    i as int,
                ).push(spec_render_cond(conds@[i as int].0@, conds@[i as int].1@)));
                assert(cond_renders(conds@).take(i + 1) =~= cond_renders(conds@).take(
                    i as int,
                ).push(cond_renders(conds@)[i as int]));
            }
            i = i + 1;
        }
        proof {
            assert(cond_renders(conds@).take(conds@.len() as int) =~= cond_renders(conds@));
        }
        let sorted = sort_byte_strings(rendered);
        let joined = join_bytes(&sorted, 38);
        let where_hash = djb2(joined.as_slice());
        append_hex(&mut key, where_hash);
    }

    key.append(":");
    append_dec(&mut key, limit);
    key.append(":");
    append_dec(&mut key, offset);
    proof {
        assert(key@ =~= spec_query_key(
            strings_bytes(table_ids@),
            cond_renders(conds@),
            limit,
            offset,
        ));
    }
    key
}

/// Mapping a function over two sequences with the same multiset of
/// elements yields the same multiset of images.
proof fn lemma_map_values_multiset<A, B>(s1: Seq<A>, s2: Seq<A>, f: spec_fn(A) -> B)
    requires
        s1.to_multiset() == s2.to_multiset(),
    ensures
        s1.map_values(f).to_multiset() == s2.map_values(f).to_multiset(),
    decreases s1.len(),
{
    broadcast use vstd::seq_lib::group_to_multiset_ensures;
    broadcast use vstd::multiset::group_multiset_axioms;

    assert(s1.to_multiset().len() == s1.len());
    assert(s2.to_multiset().len() == s2.len());
    if s1.len() == 0 {
        assert(s2.len() == 0);
        assert(s1.map_values(f) =~= s2.map_values(f));
    } else {
        let x = s1.last();
        assert(s1.to_multiset().contains(x)) by {
            assert(s1[s1.len() - 1] == x);
        }
        assert(s2.to_multiset().contains(x));
        assert(s2.contains(x));
        let j = choose|j: int| 0 <= j < s2.len() && s2[j] == x;
        let s1r = s1.drop_last();
        let s2r = s2.remove(j);
        assert(s1 =~= s1r.push(x));
        vstd::seq_lib::to_multiset_build(s1r, x);
        assert(s1r.to_multiset() =~= s1.to_multiset().remove(x));
        assert(s2r.to_multiset() =~= s2.to_multiset().remove(x));
        lemma_map_values_multiset(s1r, s2r, f);
        assert(s1.map_values(f) =~= s1r.map_values(f).push(f(x)));
        vstd::seq_lib::to_multiset_build(s1r.map_values(f), f(x));
        assert(s2.map_values(f).remove(j) =~= s2r.map_values(f));
        assert(s2.map_values(f)[j] == f(x));
        assert(s2r.map_values(f).to_multiset() =~= s2.map_values(f).to_multiset().remove(f(x)));
        assert(s2.map_values(f).to_multiset().contains(f(x))) by {
            assert(s2.map_values(f)[j] == f(x));
        }
        assert(s1.map_values(f).to_multiset() =~= s2.map_values(f).to_multiset());
    }
}

/// Two predicate lists holding the same predicates, in any orders,
/// derive the identical query-page cache key: rendering maps equal
/// multisets to equal multisets, and sorting by a total order maps
/// equal multisets to the one sorted sequence.
pub proof fn lemma_query_key_order_independent(
    ids: Seq<Seq<u8>>,
    conds1: Seq<(String, String)>,
    conds2: Seq<(String, String)>,
    limit: u32,
    offset: u32,
)
    requires
        conds1.to_multiset() == conds2.to_multiset(),
    ensures
        spec_query_key(ids, cond_renders(conds1), limit, offset) == spec_query_key(
            ids,
            cond_renders(conds2),
            limit,
            offset,
        ),
{
    broadcast use vstd::seq_lib::group_to_multiset_ensures;

    let r1 = cond_renders(conds1);
    let r2 = cond_renders(conds2);
    lemma_map_values_multiset(conds1, conds2, |kv: (String, String)| spec_render_cond(kv.0@, kv.1@));
    assert(r1.to_multiset() == r2.to_multiset());
    assert(r1.to_multiset().len() == r1.len());
    assert(r2.to_multiset().len() == r2.len());
    assert(r1.len() == r2.len());
    if r1.len() != 0 {
        lemma_bytes_le_total_ordering();
        r1.lemma_sort_by_ensures(bytes_le_fn());
        r2.lemma_sort_by_ensures(bytes_le_fn());
        vstd::seq_lib::lemma_sorted_unique(
            r1.sort_by(bytes_le_fn()),
            r2.sort_by(bytes_le_fn()),
            bytes_le_fn(),
        );
    }
}

} // verus!
