//! Query-parameter handling: parameter lookup over the decoded query
//! pairs, numeric parsing with the host language's integer grammar,
//! the limit/offset defaults and cap, and extraction of `where[column]`
//! filter predicates.

use vstd::prelude::*;

verus! {

use vstd::string::{StrSliceExecFns, StringExecFns};
use crate::strutil::string_eq;

/// The view of decoded query pairs.
pub open spec fn params_view(p: Seq<(String, String)>) -> Seq<(Seq<char>, Seq<char>)> {
    p.map_values(|kv: (String, String)| (kv.0@, kv.1@))
}

/// The value of the last pair holding `key`: a repeated parameter is
/// overwritten by its later occurrence, as a map built from the pairs
/// would have it.
pub open spec fn spec_last_param(
    params: Seq<(Seq<char>, Seq<char>)>,
    key: Seq<char>,
) -> Option<Seq<char>>
    decreases params.len(),
{
    if params.len() == 0 {
        Option::None
    } else if params.last().0 == key {
        Option::Some(params.last().1)
    } else {
        spec_last_param(params.drop_last(), key)
    }
}

/// Looks a parameter up among the decoded query pairs.
pub fn get_param(params: &Vec<(String, String)>, key: &String) -> (r: Option<String>)
    ensures
        match r {
            Option::Some(v) => spec_last_param(params_view(params@), key@) == Option::Some(v@),
            Option::None => spec_last_param(params_view(params@), key@) is None,
        },
{
    let ghost pv = params_view(params@);
    let mut i: usize = params.len();
    proof {
        assert(pv.take(pv.len() as int) =~= pv);
    }
    while i > 0
        invariant
            0 <= i <= params@.len(),
            pv == params_view(params@),
            spec_last_param(pv, key@) == spec_last_param(pv.take(i as int), key@),
        decreases i,
    {
        if string_eq(&params[i - 1].0, key) {
            proof {
                assert(pv.take(i as int).last() == pv[i - 1]);
            }
            return Option::Some(params[i - 1].1.clone());
        }
        proof {
            assert(pv.take(i as int).last() == pv[i - 1]);
            assert(pv.take(i as int).drop_last() =~= pv.take(i - 1));
        }
        i = i - 1;
    }
    proof {
        assert(pv.take(0) =~= Seq::<(Seq<char>, Seq<char>)>::empty());
    }
    Option::None
}

/// Whether a character is a decimal digit.
pub open spec fn spec_is_digit(c: char) -> bool {
    48 <= c as u32 <= 57
}

/// The numeric value of a digit string, most significant first.
pub open spec fn spec_digits_value(s: Seq<char>) -> nat
    decreases s.len(),
{
    if s.len() == 0 {
        0
    } else {
        spec_digits_value(s.drop_last()) * 10 + (s.last() as u32 - 48) as nat
    }
}

/// A longer digit prefix never has a smaller value.
proof fn lemma_digits_value_mono(digits: Seq<char>, j: int)
    requires
        0 <= j <= digits.len(),
        forall|k: int| 0 <= k < digits.len() ==> spec_is_digit(#[trigger] digits[k]),
    ensures
        spec_digits_value(digits) >= spec_digits_value(digits.take(j)),
    decreases digits.len() - j,
{
    if j < digits.len() {
        assert(digits.take(j + 1).drop_last() =~= digits.take(j));
        assert(digits.take(j + 1).last() == digits[j]);
        assert(spec_digits_value(digits.take(j + 1)) >= spec_digits_value(digits.take(j)));
        lemma_digits_value_mono(digits, j + 1);
    } else {
        assert(digits.take(j) =~= digits);
    }
}

/// The digit part of a number: the text with an optional leading `+`
/// removed.
pub open spec fn spec_u32_digits(s: Seq<char>) -> Seq<char> {
    if s.len() > 0 && s[0] == '+' {
        s.drop_first()
    } else {
        s
    }
}

/// Whether every character is a decimal digit.
pub open spec fn spec_all_digits(s: Seq<char>) -> bool {
    forall|k: int| 0 <= k < s.len() ==> spec_is_digit(#[trigger] s[k])
}

/// What parsing an unsigned 32-bit number accepts: an optional leading
/// `+`, then one or more decimal digits whose value fits.
pub open spec fn spec_parse_u32(s: Seq<char>) -> Option<u32> {
    if spec_u32_digits(s).len() == 0 {
        Option::None
    } else if !spec_all_digits(spec_u32_digits(s)) {
        Option::None
    } else if spec_digits_value(spec_u32_digits(s)) > u32::MAX {
        Option::None
    } else {
        Option::Some(spec_digits_value(spec_u32_digits(s)) as u32)
    }
}

/// Parses an unsigned 32-bit number: an optional leading `+`, then
/// decimal digits; anything else, or a value out of range, is nothing.
pub fn parse_u32(s: &str) -> (r: Option<u32>)
    ensures
        r == spec_parse_u32(s@),
{
    let n = s.unicode_len();
    let start: usize = if n > 0 && s.get_char(0) == '+' {
        1
    } else {
        0
    };
    let ghost digits = if start == 1 {
        s@.drop_first()
    } else {
        s@
    };
    proof {
        assert(digits.len() == n - start);
        assert(forall|k: int| 0 <= k < digits.len() ==> digits[k] == s@[k + start]);
    }
    if n == start {
        return Option::None;
    }
    let mut acc: u64 = 0;
    let mut i: usize = start;
    while i < n
        invariant
            start <= i <= n,
            n == s@.len(),
            start == 0 || start == 1,
            (start == 1) == (s@.len() > 0 && s@[0] == '+'),
            digits == if start == 1 {
                s@.drop_first()
            } else {
                s@
            },
            digits.len() == n - start,
            forall|k: int| 0 <= k < digits.len() ==> digits[k] == s@[k + start],
            forall|k: int| 0 <= k < i - start ==> spec_is_digit(#[trigger] digits[k]),
            acc == spec_digits_value(digits.take(i - start)),
            acc <= u32::MAX,
        decreases n - i,
    {
        let c = s.get_char(i);
        let v = c as u32;
        if v < 48 || v > 57 {
            proof {
                assert(digits[i - start] == s@[i as int]);
                assert(!spec_is_digit(digits[i - start]));
                assert(0 <= i - start < digits.len());
                assert(digits == spec_u32_digits(s@));
                assert(spec_u32_digits(s@)[i - start] == digits[i - start]);
                assert(!spec_all_digits(spec_u32_digits(s@)));
                assert(spec_parse_u32(s@) is None);
            }
            return Option::None;
        }
        acc = acc * 10 + (v - 48) as u64;
        proof {
            assert(digits.take(i - start + 1).drop_last() =~= digits.take(i - start));
            assert(digits.take(i - start + 1).last() == digits[i - start]);
            assert(digits[i - start] == s@[i as int]);
        }
        if acc > 0xffff_ffff {
            proof {
                assert(digits == spec_u32_digits(s@));
                if spec_all_digits(digits) {
                    lemma_digits_value_mono(digits, i - start + 1);
                    assert(spec_digits_value(digits) > u32::MAX);
                } else {
                    assert(!spec_all_digits(spec_u32_digits(s@)));
                }
                assert(spec_parse_u32(s@) is None);
            }
            return Option::None;
        }
        i = i + 1;
    }
    proof {
        assert(digits.take(n - start) =~= digits);
        assert(digits == spec_u32_digits(s@));
        assert(spec_all_digits(digits));
        assert(spec_parse_u32(s@) == Option::Some(acc as u32));
    }
    Option::Some(acc as u32)
}

/// The page size a request asks for: the `limit` parameter when it
/// parses, else 100, capped at 1000. A `limit` of 0 is passed through,
/// without a floor: a caller dividing by it must reject it first.
pub open spec fn spec_limit(params: Seq<(Seq<char>, Seq<char>)>) -> u32 {
    let parsed = match spec_last_param(params, "limit"@) {
        Option::Some(v) => spec_parse_u32(v),
        Option::None => Option::None,
    };
    let raw = match parsed {
        Option::Some(x) => x,
        Option::None => 100u32,
    };
    if raw > 1000 {
        1000u32
    } else {
        raw
    }
}

/// Reads the page size from the query parameters: default 100, capped
/// at 1000.
pub fn limit_from_params(params: &Vec<(String, String)>) -> (r: u32)
    ensures
        r == spec_limit(params_view(params@)),
        r <= 1000,
{
    let raw = match get_param(params, &"limit".to_owned()) {
        Option::Some(v) => match parse_u32(v.as_str()) {
            Option::Some(x) => x,
            Option::None => 100,
        },
        Option::None => 100,
    };
    if raw > 1000 {
        1000
    } else {
        raw
    }
}

/// The page offset a request asks for: the `offset` parameter when it
/// parses, else 0.
pub open spec fn spec_offset(params: Seq<(Seq<char>, Seq<char>)>) -> u32 {
    let parsed = match spec_last_param(params, "offset"@) {
        Option::Some(v) => spec_parse_u32(v),
        Option::None => Option::None,
    };
    match parsed {
        Option::Some(x) => x,
        Option::None => 0u32,
    }
}

/// Reads the page offset from the query parameters: default 0.
pub fn offset_from_params(params: &Vec<(String, String)>) -> (r: u32)
    ensures
        r == spec_offset(params_view(params@)),
{
    match get_param(params, &"offset".to_owned()) {
        Option::Some(v) => match parse_u32(v.as_str()) {
            Option::Some(x) => x,
            Option::None => 0,
        },
        Option::None => 0,
    }
}

/// The quantity an availability check asks for: the `quantity`
/// parameter when it parses, else 1.
pub open spec fn spec_quantity(params: Seq<(Seq<char>, Seq<char>)>) -> u32 {
    let parsed = match spec_last_param(params, "quantity"@) {
        Option::Some(v) => spec_parse_u32(v),
        Option::None => Option::None,
    };
    match parsed {
        Option::Some(x) => x,
        Option::None => 1u32,
    }
}

/// Reads the requested quantity from the query parameters: default 1.
pub fn quantity_from_params(params: &Vec<(String, String)>) -> (r: u32)
    ensures
        r == spec_quantity(params_view(params@)),
{
    match get_param(params, &"quantity".to_owned()) {
        Option::Some(v) => match parse_u32(v.as_str()) {
            Option::Some(x) => x,
            Option::None => 1,
        },
        Option::None => 1,
    }
}

/// Whether the flat listing form is asked for: the `flat` parameter
/// equal to `true`, literally.
pub open spec fn spec_flat_mode(params: Seq<(Seq<char>, Seq<char>)>) -> bool {
    spec_last_param(params, "flat"@) == Option::Some("true"@)
}

/// Reads the `flat` flag from the query parameters.
pub fn flat_from_params(params: &Vec<(String, String)>) -> (r: bool)
    ensures
        r == spec_flat_mode(params_view(params@)),
{
    match get_param(params, &"flat".to_owned()) {
        Option::Some(v) => string_eq(&v, &"true".to_owned()),
        Option::None => false,
    }
}

/// Whether a parameter key has the `where[column]` shape.
pub open spec fn spec_is_where_key(k: Seq<char>) -> bool {
    k.len() >= 7 && k.take(6) == "where["@ && k.last() == ']'
}

/// The column inside a `where[column]` key.
pub open spec fn spec_where_column(k: Seq<char>) -> Seq<char> {
    k.subrange(6, k.len() - 1)
}

/// The filter predicates among the query parameters, in parameter
/// order: each `where[column]=value` pair becomes a `column=value`
/// predicate.
pub open spec fn spec_where_conds(
    params: Seq<(Seq<char>, Seq<char>)>,
) -> Seq<(Seq<char>, Seq<char>)>
    decreases params.len(),
{
    if params.len() == 0 {
        Seq::empty()
    } else {
        let rest = spec_where_conds(params.drop_last());
        if spec_is_where_key(params.last().0) {
            rest.push((spec_where_column(params.last().0), params.last().1))
        } else {
            rest
        }
    }
}

/// Extracts the `where[column]=value` filter predicates from the query
/// parameters.
pub fn extract_where_conditions(params: &Vec<(String, String)>) -> (r: Vec<(String, String)>)
    ensures
        params_view(r@) == spec_where_conds(params_view(params@)),
{
    let ghost pv = params_view(params@);
    let mut out: Vec<(String, String)> = Vec::new();
    let mut i: usize = 0;
    proof {
        assert(pv.take(0) =~= Seq::<(Seq<char>, Seq<char>)>::empty());
        assert(params_view(out@) =~= spec_where_conds(pv.take(0)));
    }
    while i < params.len()
        invariant
            0 <= i <= params@.len(),
            pv == params_view(params@),
            params_view(out@) == spec_where_conds(pv.take(i as int)),
        decreases params@.len() - i,
    {
        let ghost outv = params_view(out@);
        let key = &params[i].0;
        let n = key.as_str().unicode_len();
        proof {
            assert(pv[i as int] == (params@[i as int].0@, params@[i as int].1@));
            assert(pv.take(i + 1).drop_last() =~= pv.take(i as int));
            assert(pv.take(i + 1).last() == pv[i as int]);
        }
        if n >= 7 {
            let prefix = key.as_str().substring_char(0, 6).to_owned();
            let is_where = string_eq(&prefix, &"where[".to_owned()) && key.as_str().get_char(n - 1)
                == ']';
            proof {
                assert(key@.subrange(0, 6) =~= key@.take(6));
            }
            if is_where {
                let col = key.as_str().substring_char(6, n - 1).to_owned();
                out.push((col, params[i].1.clone()));
                proof {
                    assert(spec_is_where_key(pv[i as int].0));
                    assert(params_view(out@) =~= outv.push(
                        (spec_where_column(pv[i as int].0), pv[i as int].1),
                    ));
                }
            } else {
                proof {
                    assert(!spec_is_where_key(pv[i as int].0));
                }
            }
        } else {
            proof {
                assert(!spec_is_where_key(pv[i as int].0));
            }
        }
        i = i + 1;
    }
    proof {
        assert(pv.take(params@.len() as int) =~= pv);
    }
    out
}

/// The comma-separated pieces of a text, empty pieces kept: an empty
/// text is one empty piece, as the host language's splitter has it.
pub open spec fn spec_split_csv(s: Seq<char>) -> Seq<Seq<char>>
    decreases s.len(),
{
    if s.len() == 0 {
        seq![Seq::<char>::empty()]
    } else if s[0] == ',' {
        seq![Seq::<char>::empty()] + spec_split_csv(s.drop_first())
    } else {
        let rest = spec_split_csv(s.drop_first());
        seq![seq![s[0]] + rest[0]] + rest.drop_first()
    }
}

/// A split has at least one piece.
proof fn lemma_split_csv_len(s: Seq<char>)
    ensures
        spec_split_csv(s).len() >= 1,
    decreases s.len(),
{
    if s.len() > 0 {
        lemma_split_csv_len(s.drop_first());
    }
}

/// The first piece of `pieces` extended at the front with `cur`.
pub open spec fn spec_prepend_piece(cur: Seq<char>, pieces: Seq<Seq<char>>) -> Seq<Seq<char>> {
    seq![cur + pieces[0]] + pieces.drop_first()
}

/// Splits a text on commas, keeping empty pieces.
pub fn split_csv(s: &str) -> (r: Vec<String>)
    ensures
        crate::strutil::strings_views(r@) == spec_split_csv(s@),
{
    let n = s.unicode_len();
    let mut done: Vec<String> = Vec::new();
    let mut cur = String::new();
    let mut i: usize = 0;
    proof {
        assert(s@.skip(0) =~= s@);
        assert(crate::strutil::strings_views(done@) + spec_prepend_piece(
            cur@,
            spec_split_csv(s@.skip(0)),
        ) =~~= spec_prepend_piece(cur@, spec_split_csv(s@)));
        lemma_split_csv_len(s@);
    }
    while i < n
        invariant
            0 <= i <= n,
            n == s@.len(),
            crate::strutil::strings_views(done@) + spec_prepend_piece(
                cur@,
                spec_split_csv(s@.skip(i as int)),
            ) == spec_split_csv(s@),
        decreases n - i,
    {
        let c = s.get_char(i);
        let ghost dv0 = crate::strutil::strings_views(done@);
        let ghost cv0 = cur@;
        proof {
            lemma_split_csv_len(s@.skip(i + 1));
            assert(s@.skip(i as int)[0] == s@[i as int]);
            assert(s@.skip(i as int).drop_first() =~= s@.skip(i + 1));
            assert(s@.skip(i as int).len() > 0);
        }
        if c == ',' {
            done.push(cur);
            cur = String::new();
            proof {
                let p = spec_split_csv(s@.skip(i + 1));
                assert(spec_split_csv(s@.skip(i as int)) == seq![Seq::<char>::empty()] + p);
                assert(spec_prepend_piece(cv0, seq![Seq::<char>::empty()] + p) =~~= seq![cv0] + p);
                assert(spec_prepend_piece(Seq::<char>::empty(), p) =~~= p);
                assert(crate::strutil::strings_views(done@) =~= dv0.push(cv0));
                assert(dv0.push(cv0) + p =~~= dv0 + (seq![cv0] + p));
                assert(crate::strutil::strings_views(done@) + spec_prepend_piece(cur@, p) =~~= dv0
                    + spec_prepend_piece(cv0, spec_split_csv(s@.skip(i as int))));
            }
        } else {
            crate::strutil::append_char(&mut cur, c);
            proof {
                let p = spec_split_csv(s@.skip(i + 1));
                assert(spec_split_csv(s@.skip(i as int)) == spec_prepend_piece(
                    seq![s@[i as int]],
                    p,
                ));
                assert(cur@ == cv0.push(c));
                assert(spec_prepend_piece(cur@, p) =~~= spec_prepend_piece(
                    cv0,
                    spec_prepend_piece(seq![s@[i as int]], p),
                ));
            }
        }
        i = i + 1;
    }
    proof {
        assert(s@.skip(n as int) =~= Seq::<char>::empty());
        assert(spec_split_csv(Seq::<char>::empty()) == seq![Seq::<char>::empty()]);
        assert(spec_prepend_piece(cur@, seq![Seq::<char>::empty()]) =~~= seq![cur@]);
    }
    done.push(cur);
    proof {
        assert(crate::strutil::strings_views(done@) =~~= spec_split_csv(s@));
    }
    done
}

/// The split pieces, each trimmed: the column allow-list of a record
/// projection.
pub open spec fn spec_projection_columns(s: Seq<char>) -> Seq<Seq<char>> {
    spec_split_csv(s).map_values(|c: Seq<char>| crate::strutil::trim_of(c))
}

/// Parses a projection column list: split on commas, each name
/// trimmed, empty names kept.
pub fn projection_columns(s: &str) -> (r: Vec<String>)
    ensures
        crate::strutil::strings_views(r@) == spec_projection_columns(s@),
{
    let pieces = split_csv(s);
    let ghost pv = spec_split_csv(s@);
    let mut out: Vec<String> = Vec::new();
    let mut i: usize = 0;
    while i < pieces.len()
        invariant
            0 <= i <= pieces@.len(),
            pv == spec_split_csv(s@),
            crate::strutil::strings_views(pieces@) == pv,
            crate::strutil::strings_views(out@) == pv.map_values(
                |c: Seq<char>| crate::strutil::trim_of(c),
            ).take(i as int),
        decreases pieces@.len() - i,
    {
        out.push(crate::strutil::trim_str(pieces[i].as_str()));
        proof {
            let m = pv.map_values(|c: Seq<char>| crate::strutil::trim_of(c));
            assert(pieces@[i as int]@ == pv[i as int]);
            assert(m.take(i + 1) =~= m.take(i as int).push(m[i as int]));
            assert(crate::strutil::strings_views(out@) =~= m.take(i as int).push(
                crate::strutil::trim_of(pv[i as int]),
            ));
        }
        i = i + 1;
    }
    proof {
        let m = pv.map_values(|c: Seq<char>| crate::strutil::trim_of(c));
        assert(m.take(pieces@.len() as int) =~= m);
    }
    out
}

/// Only the nonempty entries, in order.
pub open spec fn spec_nonempty(cols: Seq<Seq<char>>) -> Seq<Seq<char>>
    decreases cols.len(),
{
    if cols.len() == 0 {
        Seq::empty()
    } else if cols.last().len() > 0 {
        spec_nonempty(cols.drop_last()).push(cols.last())
    } else {
        spec_nonempty(cols.drop_last())
    }
}

/// The column names a table search asks for: the `columns` parameter
/// split on commas, trimmed, empty names dropped.
pub open spec fn spec_search_columns(s: Seq<char>) -> Seq<Seq<char>> {
    spec_nonempty(spec_projection_columns(s))
}

/// Parses a search column list: split on commas, trimmed, empty names
/// dropped.
pub fn search_columns(s: &str) -> (r: Vec<String>)
    ensures
        crate::strutil::strings_views(r@) == spec_search_columns(s@),
{
    let trimmed = projection_columns(s);
    let ghost tv = spec_projection_columns(s@);
    let mut out: Vec<String> = Vec::new();
    let mut i: usize = 0;
    proof {
        assert(tv.take(0) =~= Seq::<Seq<char>>::empty());
        assert(crate::strutil::strings_views(out@) =~= spec_nonempty(tv.take(0)));
    }
    while i < trimmed.len()
        invariant
            0 <= i <= trimmed@.len(),
            tv == spec_projection_columns(s@),
            crate::strutil::strings_views(trimmed@) == tv,
            crate::strutil::strings_views(out@) == spec_nonempty(tv.take(i as int)),
        decreases trimmed@.len() - i,
    {
        proof {
            assert(tv.take(i + 1).drop_last() =~= tv.take(i as int));
            assert(tv.take(i + 1).last() == tv[i as int]);
            assert(trimmed@[i as int]@ == tv[i as int]);
        }
        if !trimmed[i].as_str().is_empty() {
            out.push(trimmed[i].clone());
            proof {
                assert(crate::strutil::strings_views(out@) =~= spec_nonempty(
                    tv.take(i as int),
                ).push(tv[i as int]));
            }
        }
        i = i + 1;
    }
    proof {
        assert(tv.take(trimmed@.len() as int) =~= tv);
    }
    out
}

} // verus!
