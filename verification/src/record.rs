//! Record projection: a stored row carries an opaque JSON object as its
//! payload. The payload is modelled as an ordered list of top-level
//! fields, each holding a scalar the logic can read (a boolean, an
//! integer, a string) or the serialized text of anything else. A row is
//! flattened into a client-facing record by inserting the reserved
//! metadata fields first and then overlaying the payload fields, so a
//! payload key that collides with a reserved name overwrites it — a
//! documented quirk that is preserved, not fixed.

use vstd::prelude::*;

verus! {

use vstd::string::StringExecFns;

/// One top-level value of a row payload, as the logic reads it.
#[derive(Debug, Clone, PartialEq, Eq)]
pub enum FieldValue {
    /// A JSON boolean.
    Bool(bool),
    /// A JSON number representable as a signed 64-bit integer.
    Int(i64),
    /// A JSON string, held as its character content.
    Text(String),
    /// Any other JSON value (null, float, array, object), held as its
    /// serialized text and carried through untouched.
    Raw(String),
}

/// The mathematical shape of a field value.
pub enum FieldVal {
    Bool(bool),
    Int(int),
    Text(Seq<char>),
    Raw(Seq<char>),
}

impl View for FieldValue {
    type V = FieldVal;

    open spec fn view(&self) -> FieldVal {
        match self {
            FieldValue::Bool(b) => FieldVal::Bool(*b),
            FieldValue::Int(n) => FieldVal::Int(*n as int),
            FieldValue::Text(s) => FieldVal::Text(s@),
            FieldValue::Raw(s) => FieldVal::Raw(s@),
        }
    }
}

/// The view of a field list: keys as character sequences, values as
/// their mathematical shapes.
pub open spec fn payload_view(p: Seq<(String, FieldValue)>) -> Seq<(Seq<char>, FieldVal)> {
    p.map_values(|kv: (String, FieldValue)| (kv.0@, kv.1@))
}

/// What parsing a payload string yields: the top-level fields of the
/// JSON object it holds, in the deterministic order the parser reports
/// them, each converted to its `FieldVal` shape; an empty list when the
/// text is not a JSON object. A function of the text alone.
pub uninterp spec fn parsed_payload(s: Seq<char>) -> Seq<(Seq<char>, FieldVal)>;

/// Relies on `serde_json::from_str` to parse the payload text and on
/// `serde_json::Value`'s serialization for the values kept as raw text.
/// Numbers that fit `i64` (per `Number::as_i64`) become `Int`, booleans
/// `Bool`, strings `Text`, everything else `Raw`. A text that fails to
/// parse or is not an object degrades to an empty field list.
#[verifier::external_body]
pub(crate) fn parse_payload(data: &str) -> (r: Vec<(String, FieldValue)>)
    ensures
        payload_view(r@) == parsed_payload(data@),
{
    match serde_json::from_str::<serde_json::Value>(data) {
        Ok(serde_json::Value::Object(m)) => m.into_iter().map(|(k, v)| (k, match v {
            serde_json::Value::Bool(b) => FieldValue::Bool(b),
            serde_json::Value::String(s) => FieldValue::Text(s),
            serde_json::Value::Number(ref n) if n.as_i64().is_some() => FieldValue::Int(n.as_i64().unwrap()),
            other => FieldValue::Raw(other.to_string()),
        })).collect(),
        _ => Vec::new(),
    }
}

/// A flattened, client-facing record: row and table metadata merged
/// with the payload's top-level fields.
#[derive(Debug, Clone, PartialEq, Eq)]
pub struct FlatRecord {
    pub fields: Vec<(String, FieldValue)>,
}

impl View for FlatRecord {
    type V = Seq<(Seq<char>, FieldVal)>;

    open spec fn view(&self) -> Seq<(Seq<char>, FieldVal)> {
        payload_view(self.fields@)
    }
}

/// Map-style insertion into an ordered field list: the first field with
/// the same key has its value replaced in place; a fresh key is
/// appended at the end.
pub open spec fn spec_field_insert(
    fields: Seq<(Seq<char>, FieldVal)>,
    key: Seq<char>,
    val: FieldVal,
) -> Seq<(Seq<char>, FieldVal)>
    decreases fields.len(),
{
    if fields.len() == 0 {
        seq![(key, val)]
    } else if fields[0].0 == key {
        seq![(key, val)] + fields.drop_first()
    } else {
        seq![fields[0]] + spec_field_insert(fields.drop_first(), key, val)
    }
}

/// The field list after overlaying every payload field in order.
pub open spec fn spec_overlay(
    acc: Seq<(Seq<char>, FieldVal)>,
    payload: Seq<(Seq<char>, FieldVal)>,
) -> Seq<(Seq<char>, FieldVal)>
    decreases payload.len(),
{
    if payload.len() == 0 {
        acc
    } else {
        spec_overlay(spec_field_insert(acc, payload[0].0, payload[0].1), payload.drop_first())
    }
}

/// The flattened form of a row: reserved fields first, then the payload
/// fields overlaid, then the timestamps when present.
pub open spec fn spec_flatten(
    row_id: Seq<char>,
    table_id: Seq<char>,
    table_name: Seq<char>,
    table_type: Seq<char>,
    payload: Seq<(Seq<char>, FieldVal)>,
    created_at: Option<Seq<char>>,
    updated_at: Option<Seq<char>>,
) -> Seq<(Seq<char>, FieldVal)> {
    let base = seq![
        ("id"@, FieldVal::Text(row_id)),
        ("tableId"@, FieldVal::Text(table_id)),
        ("tableName"@, FieldVal::Text(table_name)),
        ("tableType"@, FieldVal::Text(table_type)),
    ];
    let merged = spec_overlay(base, payload);
    let with_created = match created_at {
        Option::Some(c) => spec_field_insert(merged, "createdAt"@, FieldVal::Text(c)),
        Option::None => merged,
    };
    match updated_at {
        Option::Some(u) => spec_field_insert(with_created, "updatedAt"@, FieldVal::Text(u)),
        Option::None => with_created,
    }
}

/// The first position holding `key`, or the length if none does.
pub open spec fn spec_key_index(fields: Seq<(Seq<char>, FieldVal)>, key: Seq<char>) -> int
    decreases fields.len(),
{
    if fields.len() == 0 {
        0
    } else if fields[0].0 == key {
        0
    } else {
        1 + spec_key_index(fields.drop_first(), key)
    }
}

proof fn lemma_field_insert_shape(fields: Seq<(Seq<char>, FieldVal)>, key: Seq<char>, val: FieldVal)
    ensures
        0 <= spec_key_index(fields, key) <= fields.len(),
        spec_key_index(fields, key) < fields.len() ==> fields[spec_key_index(fields, key)].0 == key
            && spec_field_insert(fields, key, val) =~= fields.update(
            spec_key_index(fields, key),
            (key, val),
        ),
        spec_key_index(fields, key) == fields.len() ==> spec_field_insert(fields, key, val)
            =~= fields.push((key, val)),
        forall|j: int|
            0 <= j < spec_key_index(fields, key) ==> (#[trigger] fields[j]).0 != key,
    decreases fields.len(),
{
    if fields.len() == 0 {
    } else if fields[0].0 == key {
    } else {
        lemma_field_insert_shape(fields.drop_first(), key, val);
        let i = spec_key_index(fields, key);
        assert(i == 1 + spec_key_index(fields.drop_first(), key));
        if i < fields.len() {
            assert(fields.drop_first()[i - 1].0 == key);
            assert(fields[i].0 == key);
            assert(spec_field_insert(fields, key, val) =~= seq![fields[0]]
                + fields.drop_first().update(i - 1, (key, val)));
            assert(seq![fields[0]] + fields.drop_first().update(i - 1, (key, val)) =~= fields.update(
                i,
                (key, val),
            ));
        } else {
            assert(spec_field_insert(fields, key, val) =~= seq![fields[0]]
                + fields.drop_first().push((key, val)));
            assert(seq![fields[0]] + fields.drop_first().push((key, val)) =~= fields.push(
                (key, val),
            ));
        }
        assert forall|j: int| 0 <= j < spec_key_index(fields, key) implies (#[trigger] fields[j]).0
            != key by {
            if j > 0 {
                assert(fields.drop_first()[j - 1] == fields[j]);
            }
        }
    }
}

/// Inserts a field into an ordered field list, replacing the value of
/// the first field with the same key or appending a fresh one.
pub fn field_insert(fields: &mut Vec<(String, FieldValue)>, key: String, val: FieldValue)
    ensures
        payload_view(final(fields)@) == spec_field_insert(payload_view(old(fields)@), key@, val@),
{
    let ghost gk = key@;
    let ghost gv = val@;
    proof {
        lemma_field_insert_shape(payload_view(fields@), gk, gv);
    }
    let ghost orig = payload_view(fields@);
    let mut i: usize = 0;
    while i < fields.len()
        invariant
            0 <= i <= fields@.len(),
            gk == key@,
            gv == val@,
            orig == payload_view(fields@),
            orig == payload_view(old(fields)@),
            forall|j: int| 0 <= j < i ==> (#[trigger] orig[j]).0 != gk,
        decreases fields@.len() - i,
    {
        if crate::strutil::string_eq(&fields[i].0, &key) {
            proof {
                let j = i as int;
                assert(payload_view(fields@)[j] == (fields@[j].0@, fields@[j].1@));
                assert(orig[j].0 == gk);
                assert(spec_key_index(orig, gk) == i) by {
                    lemma_key_index_first(orig, gk, i as int);
                }
            }
            fields.remove(i);
            fields.insert(i, (key, val));
            proof {
                lemma_field_insert_shape(orig, gk, gv);
                assert(spec_field_insert(orig, gk, gv) =~= orig.update(i as int, (gk, gv)));
                assert(payload_view(fields@) =~= orig.update(i as int, (gk, gv)));
                assert(payload_view(fields@) == spec_field_insert(orig, gk, gv));
            }
            return ;
        }
        i = i + 1;
    }
    proof {
        assert(spec_key_index(orig, gk) == orig.len()) by {
            lemma_key_index_first(orig, gk, orig.len() as int);
        }
        assert(spec_field_insert(orig, gk, gv) =~= orig.push((gk, gv)));
    }
    fields.push((key, val));
    proof {
        assert(payload_view(fields@) =~= orig.push((gk, gv)));
        assert(payload_view(fields@) == spec_field_insert(orig, gk, gv));
    }
}

/// The first index whose key matches is exactly `spec_key_index`.
proof fn lemma_key_index_first(fields: Seq<(Seq<char>, FieldVal)>, key: Seq<char>, i: int)
    requires
        0 <= i <= fields.len(),
        forall|j: int| 0 <= j < i ==> (#[trigger] fields[j]).0 != key,
        i < fields.len() ==> fields[i].0 == key,
    ensures
        spec_key_index(fields, key) == i,
    decreases fields.len(),
{
    if fields.len() > 0 && i > 0 {
        assert(fields[0].0 != key);
        assert forall|j: int| 0 <= j < i - 1 implies (#[trigger] fields.drop_first()[j]).0
            != key by {
            assert(fields.drop_first()[j] == fields[j + 1]);
        }
        assert(i - 1 < fields.drop_first().len() ==> fields.drop_first()[i - 1].0 == key);
        lemma_key_index_first(fields.drop_first(), key, i - 1);
    }
}

/// Flattens a row whose payload has already been parsed: reserved
/// metadata fields are inserted first and the payload fields are then
/// overlaid in order, so a payload key colliding with a reserved field
/// name overwrites the reserved value.
pub fn flatten_fields(
    row_id: &str,
    table_id: &str,
    table_name: &str,
    table_type: &str,
    payload: Vec<(String, FieldValue)>,
    created_at: &Option<String>,
    updated_at: &Option<String>,
) -> (r: FlatRecord)
    ensures
        r@ == spec_flatten(
            row_id@,
            table_id@,
            table_name@,
            table_type@,
            payload_view(payload@),
            match created_at {
                Option::Some(c) => Option::Some(c@),
                Option::None => Option::None,
            },
            match updated_at {
                Option::Some(u) => Option::Some(u@),
                Option::None => Option::None,
            },
        ),
{
    let ghost pv = payload_view(payload@);
    let mut fields: Vec<(String, FieldValue)> = Vec::new();
    fields.push(("id".to_owned(), FieldValue::Text(row_id.to_owned())));
    fields.push(("tableId".to_owned(), FieldValue::Text(table_id.to_owned())));
    fields.push(("tableName".to_owned(), FieldValue::Text(table_name.to_owned())));
    fields.push(("tableType".to_owned(), FieldValue::Text(table_type.to_owned())));
    let ghost base = payload_view(fields@);
    proof {
        assert(base =~= seq![
            ("id"@, FieldVal::Text(row_id@)),
            ("tableId"@, FieldVal::Text(table_id@)),
            ("tableName"@, FieldVal::Text(table_name@)),
            ("tableType"@, FieldVal::Text(table_type@)),
        ]);
    }
    let mut payload = payload;
    let n = payload.len();
    let mut i: usize = 0;
    proof {
        assert(pv.skip(0) =~= pv);
        assert(pv.len() == payload@.len());
        assert(payload@.len() == n);
    }
    while payload.len() > 0
        invariant
            0 <= i <= pv.len(),
            pv.len() <= usize::MAX,
            i == pv.len() - payload@.len(),
            payload_view(payload@) == pv.skip(i as int),
            spec_overlay(payload_view(fields@), pv.skip(i as int)) == spec_overlay(base, pv),
        decreases payload@.len(),
    {
        let ghost prev = payload@;
        let ghost acc = payload_view(fields@);
        let kv = payload.remove(0);
        proof {
            assert(payload_view(prev)[0] == (kv.0@, kv.1@));
            assert(payload_view(payload@) =~= payload_view(prev).drop_first());
            assert(pv.skip(i as int)[0] == (kv.0@, kv.1@));
            assert(pv.skip(i as int).drop_first() =~= pv.skip(i + 1));
        }
        field_insert(&mut fields, kv.0, kv.1);
        proof {
            assert(spec_overlay(acc, pv.skip(i as int)) == spec_overlay(
                spec_field_insert(acc, kv.0@, kv.1@),
                pv.skip(i as int).drop_first(),
            ));
            assert(prev.len() > 0);
            assert(i < pv.len());
        }
        i = i + 1;
    }
    proof {
        assert(pv.skip(pv.len() as int) =~= Seq::<(Seq<char>, FieldVal)>::empty());
        assert(payload_view(fields@) == spec_overlay(base, pv));
    }
    match created_at {
        Option::Some(c) => {
            field_insert(&mut fields, "createdAt".to_owned(), FieldValue::Text(c.clone()));
        },
        Option::None => {},
    }
    match updated_at {
        Option::Some(u) => {
            field_insert(&mut fields, "updatedAt".to_owned(), FieldValue::Text(u.clone()));
        },
        Option::None => {},
    }
    FlatRecord { fields }
}

/// Flattens a stored row into a client-facing record. A payload text
/// that does not parse as a JSON object degrades to an empty object, so
/// one malformed row cannot abort a listing.
pub fn flatten_record(
    row_id: &str,
    table_id: &str,
    table_name: &str,
    table_type: &str,
    data: &str,
    created_at: &Option<String>,
    updated_at: &Option<String>,
) -> (r: FlatRecord)
    ensures
        r@ == spec_flatten(
            row_id@,
            table_id@,
            table_name@,
            table_type@,
            parsed_payload(data@),
            match created_at {
                Option::Some(c) => Option::Some(c@),
                Option::None => Option::None,
            },
            match updated_at {
                Option::Some(u) => Option::Some(u@),
                Option::None => Option::None,
            },
        ),
{
    let payload = parse_payload(data);
    flatten_fields(row_id, table_id, table_name, table_type, payload, created_at, updated_at)
}

/// Flattening is a pure function of the row and table values: any two
/// records flattened from the same inputs are equal, with no hidden
/// state to diverge on.
pub proof fn lemma_flatten_deterministic(
    r1: FlatRecord,
    r2: FlatRecord,
    row_id: Seq<char>,
    table_id: Seq<char>,
    table_name: Seq<char>,
    table_type: Seq<char>,
    payload: Seq<(Seq<char>, FieldVal)>,
    created_at: Option<Seq<char>>,
    updated_at: Option<Seq<char>>,
)
    requires
        r1@ == spec_flatten(row_id, table_id, table_name, table_type, payload, created_at, updated_at),
        r2@ == spec_flatten(row_id, table_id, table_name, table_type, payload, created_at, updated_at),
    ensures
        r1@ == r2@,
{
}

/// The value of the first field holding `key`, if any.
pub open spec fn spec_lookup(fields: Seq<(Seq<char>, FieldVal)>, key: Seq<char>) -> Option<FieldVal>
    decreases fields.len(),
{
    if fields.len() == 0 {
        Option::None
    } else if fields[0].0 == key {
        Option::Some(fields[0].1)
    } else {
        spec_lookup(fields.drop_first(), key)
    }
}

/// The value of the last payload field holding `key`, if any: when a
/// payload repeats a key, the later field wins the overlay.
pub open spec fn spec_payload_value(
    payload: Seq<(Seq<char>, FieldVal)>,
    key: Seq<char>,
) -> Option<FieldVal>
    decreases payload.len(),
{
    if payload.len() == 0 {
        Option::None
    } else if payload.last().0 == key {
        Option::Some(payload.last().1)
    } else {
        spec_payload_value(payload.drop_last(), key)
    }
}

proof fn lemma_lookup_insert(fields: Seq<(Seq<char>, FieldVal)>, key: Seq<char>, val: FieldVal, k2: Seq<char>)
    ensures
        spec_lookup(spec_field_insert(fields, key, val), k2) == if k2 == key {
            Option::Some(val)
        } else {
            spec_lookup(fields, k2)
        },
    decreases fields.len(),
{
    if fields.len() == 0 {
        assert(spec_field_insert(fields, key, val) =~= seq![(key, val)]);
        let t = spec_field_insert(fields, key, val);
        assert(t[0] == (key, val));
        if k2 != key {
            assert(spec_lookup(t, k2) == spec_lookup(t.drop_first(), k2));
            assert(t.drop_first() =~= fields);
        }
    } else if fields[0].0 == key {
        let t = spec_field_insert(fields, key, val);
        assert(t =~= seq![(key, val)] + fields.drop_first());
        assert(t[0] == (key, val));
        if k2 != key {
            assert(t.drop_first() =~= fields.drop_first());
        }
    } else {
        let t = spec_field_insert(fields, key, val);
        assert(t =~= seq![fields[0]] + spec_field_insert(fields.drop_first(), key, val));
        assert(t[0] == fields[0]);
        assert(t.drop_first() =~= spec_field_insert(fields.drop_first(), key, val));
        lemma_lookup_insert(fields.drop_first(), key, val, k2);
    }
}

proof fn lemma_overlay_push(
    acc: Seq<(Seq<char>, FieldVal)>,
    payload: Seq<(Seq<char>, FieldVal)>,
    x: (Seq<char>, FieldVal),
)
    ensures
        spec_overlay(acc, payload.push(x)) == spec_field_insert(spec_overlay(acc, payload), x.0, x.1),
    decreases payload.len(),
{
    if payload.len() == 0 {
        assert(payload.push(x)[0] == x);
        assert(payload.push(x).drop_first() =~= Seq::<(Seq<char>, FieldVal)>::empty());
        assert(spec_overlay(acc, payload) == acc);
        assert(spec_overlay(
            spec_field_insert(acc, x.0, x.1),
            Seq::<(Seq<char>, FieldVal)>::empty(),
        ) == spec_field_insert(acc, x.0, x.1));
        assert(spec_overlay(acc, payload.push(x)) == spec_overlay(
            spec_field_insert(acc, x.0, x.1),
            payload.push(x).drop_first(),
        ));
    } else {
        assert(payload.push(x)[0] == payload[0]);
        assert(payload.push(x).drop_first() =~= payload.drop_first().push(x));
        lemma_overlay_push(
            spec_field_insert(acc, payload[0].0, payload[0].1),
            payload.drop_first(),
            x,
        );
    }
}

proof fn lemma_overlay_lookup(
    acc: Seq<(Seq<char>, FieldVal)>,
    payload: Seq<(Seq<char>, FieldVal)>,
    key: Seq<char>,
)
    ensures
        spec_lookup(spec_overlay(acc, payload), key) == match spec_payload_value(payload, key) {
            Option::Some(v) => Option::Some(v),
            Option::None => spec_lookup(acc, key),
        },
    decreases payload.len(),
{
    if payload.len() > 0 {
        let front = payload.drop_last();
        let x = payload.last();
        assert(payload =~= front.push(x));
        lemma_overlay_push(acc, front, x);
        lemma_lookup_insert(spec_overlay(acc, front), x.0, x.1, key);
        lemma_overlay_lookup(acc, front, key);
    }
}

/// Reserved-field overlay: a payload field whose key collides with any
/// already-inserted field — the reserved metadata in particular —
/// overwrites that field's value in the flattened record, because the
/// reserved fields are inserted first and the payload is overlaid
/// afterwards. The timestamps are excluded only because they are
/// inserted after the payload and would overwrite it in turn.
pub proof fn lemma_flatten_payload_overrides(
    row_id: Seq<char>,
    table_id: Seq<char>,
    table_name: Seq<char>,
    table_type: Seq<char>,
    payload: Seq<(Seq<char>, FieldVal)>,
    created_at: Option<Seq<char>>,
    updated_at: Option<Seq<char>>,
    key: Seq<char>,
    val: FieldVal,
)
    requires
        spec_payload_value(payload, key) == Option::Some(val),
        key != "createdAt"@,
        key != "updatedAt"@,
    ensures
        spec_lookup(
            spec_flatten(row_id, table_id, table_name, table_type, payload, created_at, updated_at),
            key,
        ) == Option::Some(val),
{
    let base = seq![
        ("id"@, FieldVal::Text(row_id)),
        ("tableId"@, FieldVal::Text(table_id)),
        ("tableName"@, FieldVal::Text(table_name)),
        ("tableType"@, FieldVal::Text(table_type)),
    ];
    let merged = spec_overlay(base, payload);
    lemma_overlay_lookup(base, payload, key);
    assert(spec_lookup(merged, key) == Option::Some(val));
    let with_created = match created_at {
        Option::Some(c) => spec_field_insert(merged, "createdAt"@, FieldVal::Text(c)),
        Option::None => merged,
    };
    match created_at {
        Option::Some(c) => {
            lemma_lookup_insert(merged, "createdAt"@, FieldVal::Text(c), key);
        },
        Option::None => {},
    }
    assert(spec_lookup(with_created, key) == Option::Some(val));
    match updated_at {
        Option::Some(u) => {
            lemma_lookup_insert(with_created, "updatedAt"@, FieldVal::Text(u), key);
        },
        Option::None => {},
    }
}

/// Whether a flattened-record key is reserved metadata, always kept by
/// a column projection.
pub open spec fn spec_reserved_key(key: Seq<char>) -> bool {
    key == "id"@ || key == "tableId"@ || key == "tableName"@ || key == "tableType"@
}

/// The record restricted to reserved fields and allow-listed columns,
/// in the order they already stand in.
pub open spec fn spec_project(
    fields: Seq<(Seq<char>, FieldVal)>,
    cols: Seq<Seq<char>>,
) -> Seq<(Seq<char>, FieldVal)>
    decreases fields.len(),
{
    if fields.len() == 0 {
        Seq::empty()
    } else if spec_reserved_key(fields[0].0) || cols.contains(fields[0].0) {
        seq![fields[0]] + spec_project(fields.drop_first(), cols)
    } else {
        spec_project(fields.drop_first(), cols)
    }
}

fn is_reserved_key(s: &String) -> (r: bool)
    ensures
        r == spec_reserved_key(s@),
{
    crate::strutil::string_eq(s, &"id".to_owned()) || crate::strutil::string_eq(
        s,
        &"tableId".to_owned(),
    ) || crate::strutil::string_eq(s, &"tableName".to_owned()) || crate::strutil::string_eq(
        s,
        &"tableType".to_owned(),
    )
}

/// Applies a column allow-list to a flattened record: reserved fields
/// are always retained, every other field is dropped unless its key is
/// named in the list. Applied after flattening and after any cache
/// population, so cached pages stay reusable across projections.
pub fn project_columns(rec: FlatRecord, cols: &Vec<String>) -> (r: FlatRecord)
    ensures
        r@ == spec_project(rec@, crate::strutil::strings_views(cols@)),
{
    let ghost pv = rec@;
    let ghost cv = crate::strutil::strings_views(cols@);
    let mut fields = rec.fields;
    let n = fields.len();
    let mut out: Vec<(String, FieldValue)> = Vec::new();
    let mut i: usize = 0;
    proof {
        assert(pv.skip(0) =~= pv);
        assert(pv.len() == fields@.len());
        assert(fields@.len() == n);
        assert(payload_view(out@) + spec_project(pv, cv) =~= spec_project(pv, cv));
    }
    while fields.len() > 0
        invariant
            0 <= i <= pv.len(),
            pv.len() <= usize::MAX,
            cv == crate::strutil::strings_views(cols@),
            i == pv.len() - fields@.len(),
            payload_view(fields@) == pv.skip(i as int),
            payload_view(out@) + spec_project(pv.skip(i as int), cv) == spec_project(pv, cv),
        decreases fields@.len(),
    {
        let ghost prev = fields@;
        let ghost outv = payload_view(out@);
        let kv = fields.remove(0);
        proof {
            assert(payload_view(prev)[0] == (kv.0@, kv.1@));
            assert(payload_view(fields@) =~= payload_view(prev).drop_first());
            assert(pv.skip(i as int)[0] == (kv.0@, kv.1@));
            assert(pv.skip(i as int).drop_first() =~= pv.skip(i + 1));
        }
        let keep = is_reserved_key(&kv.0) || crate::strutil::contains_string(cols, &kv.0);
        if keep {
            out.push(kv);
            proof {
                assert(payload_view(out@) =~= outv.push((pv.skip(i as int)[0].0, pv.skip(
                    i as int,
                )[0].1)));
                assert(spec_project(pv.skip(i as int), cv) == seq![pv.skip(i as int)[0]]
                    + spec_project(pv.skip(i + 1), cv));
                assert(payload_view(out@) + spec_project(pv.skip(i + 1), cv) =~= outv
                    + spec_project(pv.skip(i as int), cv));
            }
        } else {
            proof {
                assert(spec_project(pv.skip(i as int), cv) == spec_project(pv.skip(i + 1), cv));
            }
        }
        i = i + 1;
    }
    proof {
        assert(pv.skip(pv.len() as int) =~= Seq::<(Seq<char>, FieldVal)>::empty());
        assert(spec_project(pv.skip(pv.len() as int), cv) =~= Seq::<(Seq<char>, FieldVal)>::empty());
        assert(payload_view(out@) + Seq::<(Seq<char>, FieldVal)>::empty() =~= payload_view(out@));
    }
    FlatRecord { fields: out }
}

/// Applies a column allow-list to a whole page of records.
pub fn project_records(records: Vec<FlatRecord>, cols: &Vec<String>) -> (r: Vec<FlatRecord>)
    ensures
        r@.len() == records@.len(),
        forall|i: int|
            0 <= i < records@.len() ==> (#[trigger] r@[i])@ == spec_project(
                records@[i]@,
                crate::strutil::strings_views(cols@),
            ),
{
    let ghost rv = records@;
    let mut records = records;
    let n = records.len();
    let mut out: Vec<FlatRecord> = Vec::new();
    let mut i: usize = 0;
    proof {
        assert(rv.len() == n);
    }
    while records.len() > 0
        invariant
            0 <= i <= rv.len(),
            rv.len() <= usize::MAX,
            i == rv.len() - records@.len(),
            records@ == rv.skip(i as int),
            out@.len() == i,
            forall|j: int|
                0 <= j < i ==> (#[trigger] out@[j])@ == spec_project(
                    rv[j]@,
                    crate::strutil::strings_views(cols@),
                ),
        decreases records@.len(),
    {
        let ghost prev = records@;
        let rec = records.remove(0);
        proof {
            assert(prev[0] == rv[i as int]);
            assert(records@ =~= rv.skip(i + 1));
        }
        out.push(project_columns(rec, cols));
        i = i + 1;
    }
    proof {
        assert(rv.skip(rv.len() as int) =~= Seq::<FlatRecord>::empty());
    }
    out
}

} // verus!
