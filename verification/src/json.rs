//! A JSON document tree owned by this library, its mathematical view, and
//! the object operations (lookup, insert) that the sing-box translation uses.
//!
//! Writing JSON text is done by `serde_json`; the tree is carried over into a
//! `serde_json::Value` one node at a time.
use vstd::prelude::*;

use crate::error::XboardError;

verus! {

#[verifier::external_type_specification]
#[verifier::external_body]
pub struct ExJsonValue(serde_json::Value);

#[verifier::external_type_specification]
#[verifier::external_body]
pub struct ExJsonNumber(serde_json::Number);

/// A JSON node. Objects keep their entries in insertion order; `serde_json`
/// writes them sorted by key.
pub enum Json {
    Null,
    Bool(bool),
    /// A non-negative integer.
    UInt(u64),
    /// A negative integer.
    NegInt(i64),
    /// A number with a fraction or exponent, carried through untouched.
    Float(serde_json::Number),
    Str(String),
    Array(Vec<Json>),
    Object(Vec<(String, Json)>),
}

/// The mathematical value of a [`Json`] node.
pub enum JsonV {
    Null,
    Bool(bool),
    UInt(u64),
    NegInt(i64),
    Float(serde_json::Number),
    Str(Seq<char>),
    Array(Seq<JsonV>),
    Object(Seq<(Seq<char>, JsonV)>),
}

impl View for Json {
    type V = JsonV;

    open spec fn view(&self) -> JsonV
        decreases self, 1nat,
    {
        match self {
            Json::Null => JsonV::Null,
            Json::Bool(b) => JsonV::Bool(*b),
            Json::UInt(u) => JsonV::UInt(*u),
            Json::NegInt(i) => JsonV::NegInt(*i),
            Json::Float(n) => JsonV::Float(*n),
            Json::Str(s) => JsonV::Str(s@),
            Json::Array(v) => JsonV::Array(arr_view(v@)),
            Json::Object(v) => JsonV::Object(obj_view(v@)),
        }
    }
}

/// The view of a list of nodes.
pub open spec fn arr_view(v: Seq<Json>) -> Seq<JsonV>
    decreases v, 0nat,
{
    if v.len() == 0 {
        Seq::empty()
    } else {
        arr_view(v.drop_last()).push(v.last().view())
    }
}

/// The view of the entries of an object.
pub open spec fn obj_view(v: Seq<(String, Json)>) -> Seq<(Seq<char>, JsonV)>
    decreases v, 0nat,
{
    if v.len() == 0 {
        Seq::empty()
    } else {
        obj_view(v.drop_last()).push((v.last().0@, v.last().1.view()))
    }
}

pub proof fn lemma_arr_view(v: Seq<Json>)
    ensures
        arr_view(v).len() == v.len(),
        forall|i: int| 0 <= i < v.len() ==> #[trigger] arr_view(v)[i] == v[i]@,
    decreases v.len(),
{
    if v.len() > 0 {
        lemma_arr_view(v.drop_last());
        assert(arr_view(v) == arr_view(v.drop_last()).push(v.last().view()));
    } else {
        assert(arr_view(v) == Seq::<JsonV>::empty());
    }
}

pub proof fn lemma_obj_view(v: Seq<(String, Json)>)
    ensures
        obj_view(v).len() == v.len(),
        forall|i: int| 0 <= i < v.len() ==> #[trigger] obj_view(v)[i] == (v[i].0@, v[i].1@),
    decreases v.len(),
{
    if v.len() > 0 {
        lemma_obj_view(v.drop_last());
        assert(obj_view(v) == obj_view(v.drop_last()).push((v.last().0@, v.last().1.view())));
    } else {
        assert(obj_view(v) == Seq::<(Seq<char>, JsonV)>::empty());
    }
}

/// The first index at or after `start` whose key is `key`, or -1.
pub open spec fn first_field_from(o: Seq<(Seq<char>, JsonV)>, key: Seq<char>, start: int) -> int
    decreases o.len() - start,
{
    if start < 0 || start >= o.len() {
        -1
    } else if o[start].0 == key {
        start
    } else {
        first_field_from(o, key, start + 1)
    }
}

pub open spec fn field_index(o: Seq<(Seq<char>, JsonV)>, key: Seq<char>) -> int {
    first_field_from(o, key, 0)
}

pub open spec fn obj_has(o: Seq<(Seq<char>, JsonV)>, key: Seq<char>) -> bool {
    field_index(o, key) >= 0
}

/// `Map::get`.
pub open spec fn obj_get(o: Seq<(Seq<char>, JsonV)>, key: Seq<char>) -> Option<JsonV> {
    if obj_has(o, key) {
        Some(o[field_index(o, key)].1)
    } else {
        None
    }
}

/// `Map::insert`: an existing key gets the new value, a new key is added.
pub open spec fn obj_put(o: Seq<(Seq<char>, JsonV)>, key: Seq<char>, v: JsonV) -> Seq<
    (Seq<char>, JsonV),
> {
    if obj_has(o, key) {
        o.update(field_index(o, key), (key, v))
    } else {
        o.push((key, v))
    }
}

pub open spec fn no_field_between(o: Seq<(Seq<char>, JsonV)>, key: Seq<char>, lo: int, hi: int) -> bool {
    forall|j: int| lo <= j < hi ==> #[trigger] o[j].0 != key
}

proof fn lemma_first_field_from(o: Seq<(Seq<char>, JsonV)>, key: Seq<char>, start: int)
    requires
        0 <= start <= o.len(),
    ensures
        ({
            let r = first_field_from(o, key, start);
            ||| (r == -1 && no_field_between(o, key, start, o.len() as int))
            ||| (start <= r < o.len() && o[r].0 == key && no_field_between(o, key, start, r))
        }),
    decreases o.len() - start,
{
    if start < o.len() && o[start].0 != key {
        lemma_first_field_from(o, key, start + 1);
    }
}

pub proof fn lemma_field_index(o: Seq<(Seq<char>, JsonV)>, key: Seq<char>)
    ensures
        field_index(o, key) == -1 <==> no_field_between(o, key, 0, o.len() as int),
        field_index(o, key) != -1 ==> {
            let r = field_index(o, key);
            &&& 0 <= r < o.len()
            &&& o[r].0 == key
            &&& no_field_between(o, key, 0, r)
        },
{
    lemma_first_field_from(o, key, 0);
}

pub proof fn lemma_field_index_is(o: Seq<(Seq<char>, JsonV)>, key: Seq<char>, r: int)
    requires
        (r == -1 && no_field_between(o, key, 0, o.len() as int)) || (0 <= r < o.len() && o[r].0
            == key && no_field_between(o, key, 0, r)),
    ensures
        field_index(o, key) == r,
{
    lemma_field_index(o, key);
    let k = field_index(o, key);
    if k != -1 && r != -1 {
        if k < r {
            assert(o[k].0 == key);
        } else if r < k {
            assert(o[r].0 == key);
        }
    } else if k == -1 && r != -1 {
        assert(o[r].0 == key);
    } else if k != -1 && r == -1 {
        assert(o[k].0 == key);
    }
}

/// No two fields of an object have the same name, as `serde_json::Map`
/// guarantees.
pub open spec fn fields_unique(o: Seq<(Seq<char>, JsonV)>) -> bool {
    forall|i: int, j: int| 0 <= i < j < o.len() ==> (#[trigger] o[i]).0 != (#[trigger] o[j]).0
}

/// Every object in a node, at any depth, has unique field names.
pub open spec fn deep_fields_unique(v: JsonV) -> bool
    decreases v,
{
    match v {
        JsonV::Array(a) => forall|i: int| 0 <= i < a.len() ==> #[trigger] deep_fields_unique(a[i]),
        JsonV::Object(o) => fields_unique(o) && forall|i: int|
            0 <= i < o.len() ==> #[trigger] deep_fields_unique(o[i].1),
        _ => true,
    }
}

/// Inserting a field keeps the field names of an object unique.
pub proof fn lemma_obj_put_keeps_unique(o: Seq<(Seq<char>, JsonV)>, key: Seq<char>, v: JsonV)
    requires
        fields_unique(o),
    ensures
        fields_unique(obj_put(o, key, v)),
{
    lemma_field_index(o, key);
    let o2 = obj_put(o, key, v);
    if obj_has(o, key) {
        assert forall|i: int, j: int| 0 <= i < j < o2.len() implies (#[trigger] o2[i]).0 != (#[trigger] o2[j]).0 by {
            assert(o2[i].0 == o[i].0);
            assert(o2[j].0 == o[j].0);
        }
    } else {
        assert forall|i: int, j: int| 0 <= i < j < o2.len() implies (#[trigger] o2[i]).0 != (#[trigger] o2[j]).0 by {
            assert(o2[i] == o[i]);
            if j < o.len() {
                assert(o2[j] == o[j]);
            }
        }
    }
}

/// Reading a field after an insert: the inserted key gives the new value,
/// every other key gives what it gave before.
pub proof fn lemma_obj_get_put(o: Seq<(Seq<char>, JsonV)>, key: Seq<char>, v: JsonV, other: Seq<char>)
    ensures
        obj_get(obj_put(o, key, v), key) == Some(v),
        other != key ==> obj_get(obj_put(o, key, v), other) == obj_get(o, other),
        obj_has(obj_put(o, key, v), other) == (other == key || obj_has(o, other)),
        obj_put(o, key, v).len() == o.len() + (if obj_has(o, key) { 0int } else { 1int }),
{
    let o2 = obj_put(o, key, v);
    lemma_field_index(o, key);
    lemma_field_index(o, other);
    if obj_has(o, key) {
        let i = field_index(o, key);
        assert forall|j: int| 0 <= j < o.len() implies o2[j].0 == o[j].0 by {}
        lemma_field_index_is(o2, key, i);
        if other != key {
            let k = field_index(o, other);
            if k == -1 {
                assert(no_field_between(o2, other, 0, o2.len() as int));
            } else {
                assert(no_field_between(o2, other, 0, k));
            }
            lemma_field_index_is(o2, other, k);
        }
    } else {
        let n = o.len() as int;
        assert(o2[n].0 == key);
        assert(no_field_between(o2, key, 0, n));
        lemma_field_index_is(o2, key, n);
        if other != key {
            let k = field_index(o, other);
            if k == -1 {
                assert(no_field_between(o2, other, 0, o2.len() as int));
            } else {
                assert(no_field_between(o2, other, 0, k));
            }
            lemma_field_index_is(o2, other, k);
        }
    }
}

/// A field of a node that is an object.
pub open spec fn field_of(v: JsonV, key: Seq<char>) -> Option<JsonV> {
    match v {
        JsonV::Object(o) => obj_get(o, key),
        _ => None,
    }
}

/// A string node.
pub open spec fn js(s: &str) -> JsonV {
    JsonV::Str(s@)
}

// ---------------------------------------------------------------------------
// Executable access
// ---------------------------------------------------------------------------
/// Where the key `key` sits in an object.
pub fn find_field(o: &Vec<(String, Json)>, key: &str) -> (r: Option<usize>)
    ensures
        match r {
            Some(i) => i < o@.len() && field_index(obj_view(o@), key@) == i as int,
            None => field_index(obj_view(o@), key@) == -1,
        },
{
    let ghost ov = obj_view(o@);
    proof {
        lemma_obj_view(o@);
    }
    let mut i: usize = 0;
    while i < o.len()
        invariant
            0 <= i <= o@.len(),
            ov == obj_view(o@),
            ov.len() == o@.len(),
            forall|j: int| 0 <= j < o@.len() ==> #[trigger] ov[j] == (o@[j].0@, o@[j].1@),
            no_field_between(ov, key@, 0, i as int),
        decreases o@.len() - i,
    {
        if crate::yaml::str_equal(o[i].0.as_str(), key) {
            proof {
                lemma_field_index_is(ov, key@, i as int);
            }
            return Some(i);
        }
        i = i + 1;
    }
    proof {
        lemma_field_index_is(ov, key@, -1);
    }
    None
}

/// `Map::get`.
pub fn obj_lookup<'a>(o: &'a Vec<(String, Json)>, key: &str) -> (r: Option<&'a Json>)
    ensures
        match r {
            Some(v) => obj_get(obj_view(o@), key@) == Some(v@),
            None => obj_get(obj_view(o@), key@) is None,
        },
{
    proof {
        lemma_field_index(obj_view(o@), key@);
        lemma_obj_view(o@);
    }
    match find_field(o, key) {
        Some(i) => Some(&o[i].1),
        None => None,
    }
}

/// `Map::insert`.
pub fn obj_insert(o: &mut Vec<(String, Json)>, key: &str, v: Json)
    ensures
        obj_view(final(o)@) == obj_put(obj_view(old(o)@), key@, v@),
{
    let ghost ov = obj_view(o@);
    let ghost vv = v@;
    match find_field(o, key) {
        Some(i) => {
            o.set(i, (key.to_owned(), v));
            proof {
                lemma_obj_view(o@);
                lemma_obj_view(old(o)@);
            }
            assert(obj_view(o@) =~= ov.update(i as int, (key@, vv)));
        },
        None => {
            o.push((key.to_owned(), v));
            proof {
                lemma_obj_view(o@);
                lemma_obj_view(old(o)@);
            }
            assert(obj_view(o@) =~= ov.push((key@, vv)));
        },
    }
}

/// Insert a string field.
pub fn obj_insert_str(o: &mut Vec<(String, Json)>, key: &str, s: &str)
    ensures
        obj_view(final(o)@) == obj_put(obj_view(old(o)@), key@, JsonV::Str(s@)),
{
    obj_insert(o, key, Json::Str(s.to_owned()));
}

/// A new empty object.
pub fn new_object() -> (r: Vec<(String, Json)>)
    ensures
        r@.len() == 0,
        obj_view(r@) == Seq::<(Seq<char>, JsonV)>::empty(),
{
    let r: Vec<(String, Json)> = Vec::new();
    assert(obj_view(r@) =~= Seq::<(Seq<char>, JsonV)>::empty());
    r
}

/// A new empty array.
pub fn new_array() -> (r: Vec<Json>)
    ensures
        r@.len() == 0,
        arr_view(r@) == Seq::<JsonV>::empty(),
{
    let r: Vec<Json> = Vec::new();
    assert(arr_view(r@) =~= Seq::<JsonV>::empty());
    r
}

/// `Vec::push` on an array.
pub fn arr_push(a: &mut Vec<Json>, v: Json)
    ensures
        arr_view(final(a)@) == arr_view(old(a)@).push(v@),
{
    let ghost before = a@;
    a.push(v);
    assert(a@.drop_last() =~= before);
}

/// Push a string node.
pub fn arr_push_str(a: &mut Vec<Json>, s: &str)
    ensures
        arr_view(final(a)@) == arr_view(old(a)@).push(JsonV::Str(s@)),
{
    arr_push(a, Json::Str(s.to_owned()));
}

/// `Value::as_str`.
pub fn json_as_str(v: &Json) -> (r: Option<&String>)
    ensures
        match r {
            Some(s) => v@ == JsonV::Str(s@),
            None => !(v@ is Str),
        },
{
    match v {
        Json::Str(s) => Some(s),
        _ => None,
    }
}

/// `Value::get` on a node: the field of an object, `None` otherwise.
pub fn json_field<'a>(v: &'a Json, key: &str) -> (r: Option<&'a Json>)
    ensures
        match r {
            Some(x) => field_of(v@, key@) == Some(x@),
            None => field_of(v@, key@) is None,
        },
{
    match v {
        Json::Object(o) => obj_lookup(o, key),
        _ => None,
    }
}

// ---------------------------------------------------------------------------
// Text
// ---------------------------------------------------------------------------
/// What `serde_json::to_string_pretty` writes for a node, or `None` when it
/// fails.
pub uninterp spec fn json_pretty(doc: JsonV) -> Option<Seq<char>>;

/// Carries a [`Json`] node into a `serde_json::Value`, variant by variant;
/// object entries are inserted in order.
#[verifier::external_body]
fn json_into_value(j: Json) -> serde_json::Value {
    match j {
        Json::Null => serde_json::Value::Null,
        Json::Bool(b) => serde_json::Value::Bool(b),
        Json::UInt(u) => serde_json::Value::Number(u.into()),
        Json::NegInt(i) => serde_json::Value::Number(i.into()),
        Json::Float(n) => serde_json::Value::Number(n),
        Json::Str(s) => serde_json::Value::String(s),
        Json::Array(a) => serde_json::Value::Array(a.into_iter().map(json_into_value).collect()),
        Json::Object(o) => serde_json::Value::Object(o.into_iter().map(|(k, v)| (k, json_into_value(v))).collect()),
    }
}

/// What `serde_json::from_str::<serde_json::Value>` makes of a text, as a
/// node, or `None` when it rejects the text.
pub uninterp spec fn json_parsed(text: Seq<char>) -> Option<JsonV>;

/// Carries a parsed `serde_json::Value` into a [`Json`] node, variant by
/// variant; a number goes to `UInt` when `as_u64` reads it, to `NegInt`
/// when only `as_i64` does, and stays a `serde_json::Number` otherwise.
#[verifier::external_body]
fn json_from_value(v: serde_json::Value) -> Json {
    match v {
        serde_json::Value::Null => Json::Null,
        serde_json::Value::Bool(b) => Json::Bool(b),
        serde_json::Value::Number(n) => match (n.as_u64(), n.as_i64()) {
            (Some(u), _) => Json::UInt(u),
            (None, Some(i)) => Json::NegInt(i),
            (None, None) => Json::Float(n),
        },
        serde_json::Value::String(s) => Json::Str(s),
        serde_json::Value::Array(a) => Json::Array(a.into_iter().map(json_from_value).collect()),
        serde_json::Value::Object(o) => Json::Object(o.into_iter().map(|(k, v)| (k, json_from_value(v))).collect()),
    }
}

/// `serde_json::from_str::<serde_json::Value>`: the contract claims that
/// the outcome is the one `json_parsed` names for the text, and that every
/// object of a parsed node has unique field names (a `serde_json::Map` holds
/// each key once).
#[verifier::external_body]
pub(crate) fn parse_json(text: &str) -> (r: Result<Json, serde_json::Error>)
    ensures
        match r {
            Ok(j) => json_parsed(text@) == Some(j@) && deep_fields_unique(j@),
            Err(_) => json_parsed(text@) is None,
        },
{
    serde_json::from_str::<serde_json::Value>(text).map(json_from_value)
}

/// `serde_json::Number`'s `Display` for a number with a fraction or an
/// exponent; the text is not specified here.
#[verifier::external_body]
pub(crate) fn number_text(n: &serde_json::Number) -> String {
    n.to_string()
}

/// `serde_json::to_string_pretty` of a node: the contract claims only that
/// the outcome is the one `json_pretty` names for the node.
#[verifier::external_body]
pub(crate) fn emit_json_pretty(doc: Json) -> (r: Result<String, serde_json::Error>)
    ensures
        match r {
            Ok(s) => json_pretty(doc@) == Some(s@),
            Err(_) => json_pretty(doc@) is None,
        },
{
    serde_json::to_string_pretty(&json_into_value(doc))
}

/// Parse JSON text into a node; a text `serde_json` rejects is a `Json`
/// error.
pub fn json_document(text: &str) -> (r: Result<Json, XboardError>)
    ensures
        match r {
            Ok(j) => json_parsed(text@) == Some(j@) && deep_fields_unique(j@),
            Err(e) => json_parsed(text@) is None && e is Json,
        },
{
    match parse_json(text) {
        Ok(j) => Ok(j),
        Err(e) => Err(XboardError::Json(e)),
    }
}

/// Write a node as pretty-printed JSON text; a failure is a `Json` error.
pub fn json_text(doc: Json) -> (r: Result<String, XboardError>)
    ensures
        match r {
            Ok(s) => json_pretty(doc@) == Some(s@),
            Err(e) => json_pretty(doc@) is None && e is Json,
        },
{
    match emit_json_pretty(doc) {
        Ok(s) => Ok(s),
        Err(e) => Err(XboardError::Json(e)),
    }
}

} // verus!
