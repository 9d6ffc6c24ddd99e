//! The library's own model of a JSON document, and the trusted boundary
//! through which raw transcript lines are parsed into it.
//!
//! A transcript line is parsed by serde_json; the resulting tree is moved,
//! variant by variant, into the library's `Json` type, so that every rule
//! about what a record means can be stated and verified over plain values.

use vstd::prelude::*;

verus! {

/// Mathematical model of one JSON value as this library reads it.
///
/// `rendered` is the value's canonical text form (the form serde_json
/// prints); the display rules fall back to it for values the transcript
/// format gives no finer meaning to.
pub ghost struct JsonV {
    pub rendered: Seq<char>,
    pub node: JsonNodeV,
}

/// The structural part of [`JsonV`].
pub ghost enum JsonNodeV {
    Null,
    Bool(bool),
    /// A number that is a nonnegative integer within `u64` range.
    UInt(u64),
    Str(Seq<char>),
    Arr(Seq<JsonV>),
    Obj(Seq<(Seq<char>, JsonV)>),
    /// Any other number; only its `rendered` form is kept.
    OtherNum,
}

/// One JSON value, as handed across the trusted boundary.
pub struct Json {
    /// Canonical text form of the whole value.
    pub rendered: String,
    pub node: JsonNode,
}

/// The structural part of [`Json`].
pub enum JsonNode {
    Null,
    Bool(bool),
    UInt(u64),
    Str(String),
    Arr(Vec<Json>),
    Obj(Vec<(String, Json)>),
    OtherNum,
}

pub open spec fn json_view(j: Json) -> JsonV
    decreases j,
{
    JsonV { rendered: j.rendered@, node: node_view(j.node) }
}

pub open spec fn node_view(n: JsonNode) -> JsonNodeV
    decreases n,
    via node_view_decreases
{
    match n {
        JsonNode::Null => JsonNodeV::Null,
        JsonNode::Bool(b) => JsonNodeV::Bool(b),
        JsonNode::UInt(u) => JsonNodeV::UInt(u),
        JsonNode::Str(s) => JsonNodeV::Str(s@),
        JsonNode::Arr(items) => JsonNodeV::Arr(arr_view(items@)),
        JsonNode::Obj(fields) => JsonNodeV::Obj(obj_view(fields@)),
        JsonNode::OtherNum => JsonNodeV::OtherNum,
    }
}

#[via_fn]
proof fn node_view_decreases(n: JsonNode) {
    match n {
        JsonNode::Arr(items) => {
            assert(decreases_to!(n => items));
            assert(decreases_to!(items => items@));
        },
        JsonNode::Obj(fields) => {
            assert(decreases_to!(n => fields));
            assert(decreases_to!(fields => fields@));
        },
        _ => {},
    }
}

pub open spec fn arr_view(items: Seq<Json>) -> Seq<JsonV>
    decreases items,
{
    if items.len() == 0 {
        Seq::empty()
    } else {
        seq![json_view(items[0])] + arr_view(items.drop_first())
    }
}

pub open spec fn obj_view(fields: Seq<(String, Json)>) -> Seq<(Seq<char>, JsonV)>
    decreases fields,
    via obj_view_decreases
{
    if fields.len() == 0 {
        Seq::empty()
    } else {
        seq![(fields[0].0@, json_view(fields[0].1))] + obj_view(fields.drop_first())
    }
}

#[via_fn]
proof fn obj_view_decreases(fields: Seq<(String, Json)>) {
    if fields.len() > 0 {
        assert(decreases_to!(fields => fields[0]));
        assert(decreases_to!(fields[0] => fields[0].1));
    }
}

impl View for Json {
    type V = JsonV;

    open spec fn view(&self) -> JsonV {
        json_view(*self)
    }
}

impl DeepView for Json {
    type V = JsonV;

    open spec fn deep_view(&self) -> JsonV {
        json_view(*self)
    }
}

#[verifier::external_type_specification]
#[verifier::external_body]
pub struct ExSerdeValue(serde_json::Value);

/// What parsing one line of JSON text yields: `None` on malformed input,
/// otherwise the parsed tree. The result depends on the line alone.
pub uninterp spec fn json_of_text(line: Seq<char>) -> Option<JsonV>;

/// Relies on `serde_json::from_str::<serde_json::Value>`: parses one JSON
/// document, rejecting malformed input; the parsed tree (and its canonical
/// rendering) is a function of the line's characters alone.
#[verifier::external_body]
pub(crate) fn parse_json_text(line: &str) -> (r: Option<Json>)
    ensures
        r.deep_view() == json_of_text(line@),
{
    serde_json::from_str::<serde_json::Value>(line).ok().map(|v| json_tree(&v))
}

/// Conversion used by `parse_json_text`: moves a `serde_json::Value` tree
/// into the library's `Json`, one arm per variant; `rendered` comes from
/// serde_json's canonical `Display` of the value, integers in `u64` range
/// from `serde_json::Number::as_u64`.
#[verifier::external_body]
fn json_tree(v: &serde_json::Value) -> Json {
    let node = match v {
        serde_json::Value::Null => JsonNode::Null,
        serde_json::Value::Bool(b) => JsonNode::Bool(*b),
        serde_json::Value::Number(n) => n.as_u64().map_or(JsonNode::OtherNum, JsonNode::UInt),
        serde_json::Value::String(s) => JsonNode::Str(s.clone()),
        serde_json::Value::Array(a) => JsonNode::Arr(a.iter().map(json_tree).collect()),
        serde_json::Value::Object(o) => JsonNode::Obj(
            o.iter().map(|(k, x)| (k.clone(), json_tree(x))).collect(),
        ),
    };
    Json { rendered: v.to_string(), node }
}

/// First binding of `key` among an object's fields, if any.
pub open spec fn obj_get(fields: Seq<(Seq<char>, JsonV)>, key: Seq<char>) -> Option<JsonV>
    decreases fields,
{
    if fields.len() == 0 {
        None
    } else if fields[0].0 == key {
        Some(fields[0].1)
    } else {
        obj_get(fields.drop_first(), key)
    }
}

pub proof fn lemma_arr_view(items: Seq<Json>)
    ensures
        arr_view(items).len() == items.len(),
        forall|i: int| 0 <= i < items.len() ==> arr_view(items)[i] == json_view(items[i]),
    decreases items,
{
    if items.len() > 0 {
        lemma_arr_view(items.drop_first());
        assert forall|i: int| 0 <= i < items.len() implies arr_view(items)[i] == json_view(
            items[i],
        ) by {
            if i > 0 {
                assert(arr_view(items)[i] == arr_view(items.drop_first())[i - 1]);
            }
        }
    }
}

pub proof fn lemma_obj_view(fields: Seq<(String, Json)>)
    ensures
        obj_view(fields).len() == fields.len(),
        forall|i: int|
            0 <= i < fields.len() ==> obj_view(fields)[i] == (
                fields[i].0@,
                json_view(fields[i].1),
            ),
    decreases fields,
{
    if fields.len() > 0 {
        lemma_obj_view(fields.drop_first());
        assert forall|i: int| 0 <= i < fields.len() implies obj_view(fields)[i] == (
            fields[i].0@,
            json_view(fields[i].1),
        ) by {
            if i > 0 {
                assert(obj_view(fields)[i] == obj_view(fields.drop_first())[i - 1]);
            }
        }
    }
}

/// Structural copy of a JSON tree.
pub fn clone_json(j: &Json) -> (r: Json)
    ensures
        r@ == j@,
    decreases *j,
{
    let rendered = j.rendered.clone();
    let node = clone_node(&j.node);
    Json { rendered, node }
}

fn clone_node(n: &JsonNode) -> (r: JsonNode)
    ensures
        node_view(r) == node_view(*n),
    decreases *n,
{
    match n {
        JsonNode::Null => JsonNode::Null,
        JsonNode::Bool(b) => JsonNode::Bool(*b),
        JsonNode::UInt(u) => JsonNode::UInt(*u),
        JsonNode::Str(s) => JsonNode::Str(s.clone()),
        JsonNode::OtherNum => JsonNode::OtherNum,
        JsonNode::Arr(items) => {
            let mut out: Vec<Json> = Vec::new();
            let mut i: usize = 0;
            while i < items.len()
                invariant
                    *n == JsonNode::Arr(*items),
                    i <= items@.len(),
                    out@.len() == i,
                    forall|k: int| 0 <= k < i ==> json_view(out@[k]) == json_view(items@[k]),
                decreases items@.len() - i,
            {
                proof {
                    assert(*n == JsonNode::Arr(*items));
                    assert(decreases_to!(*n => (*n)->Arr_0));
                    assert((*n)->Arr_0 == *items);
                    assert(decreases_to!(*items => items@));
                    assert(decreases_to!(items@ => items@[i as int]));
                }
                let c = clone_json(&items[i]);
                out.push(c);
                i += 1;
            }
            proof {
                lemma_arr_view(out@);
                lemma_arr_view(items@);
                assert(arr_view(out@) =~= arr_view(items@));
            }
            JsonNode::Arr(out)
        },
        JsonNode::Obj(fields) => {
            let mut out: Vec<(String, Json)> = Vec::new();
            let mut i: usize = 0;
            while i < fields.len()
                invariant
                    *n == JsonNode::Obj(*fields),
                    i <= fields@.len(),
                    out@.len() == i,
                    forall|k: int|
                        0 <= k < i ==> out@[k].0@ == fields@[k].0@ && json_view(out@[k].1)
                            == json_view(fields@[k].1),
                decreases fields@.len() - i,
            {
                proof {
                    assert(*n == JsonNode::Obj(*fields));
                    assert(decreases_to!(*n => (*n)->Obj_0));
                    assert((*n)->Obj_0 == *fields);
                    assert(decreases_to!(*fields => fields@));
                    assert(decreases_to!(fields@ => fields@[i as int]));
                    assert(decreases_to!(fields@[i as int] => fields@[i as int].1));
                }
                let name = fields[i].0.clone();
                let c = clone_json(&fields[i].1);
                out.push((name, c));
                i += 1;
            }
            proof {
                lemma_obj_view(out@);
                lemma_obj_view(fields@);
                assert(obj_view(out@) =~= obj_view(fields@));
            }
            JsonNode::Obj(out)
        },
    }
}

/// Looks `key` up among an object's fields, as [`obj_get`] does.
pub fn find_field<'a>(fields: &'a Vec<(String, Json)>, key: &str) -> (r: Option<&'a Json>)
    ensures
        match r {
            Some(v) => obj_get(obj_view(fields@), key@) == Some(v@),
            None => obj_get(obj_view(fields@), key@) is None,
        },
{
    let k = String::from_str(key);
    let ghost fv = obj_view(fields@);
    proof {
        lemma_obj_view(fields@);
        assert(fv.skip(0) =~= fv);
    }
    let mut i: usize = 0;
    while i < fields.len()
        invariant
            i <= fields@.len(),
            k@ == key@,
            fv == obj_view(fields@),
            fv.len() == fields@.len(),
            forall|j: int|
                0 <= j < fields@.len() ==> fv[j] == (fields@[j].0@, json_view(fields@[j].1)),
            obj_get(fv, key@) == obj_get(fv.skip(i as int), key@),
        decreases fields@.len() - i,
    {
        let hit = fields[i].0 == k;
        proof {
            assert(fv.skip(i as int)[0] == fv[i as int]);
        }
        if hit {
            proof {
                assert(obj_get(fv.skip(i as int), key@) == Some(fv[i as int].1));
            }
            return Some(&fields[i].1);
        }
        proof {
            assert(fv.skip(i as int).drop_first() =~= fv.skip(i as int + 1));
            assert(obj_get(fv.skip(i as int), key@) == obj_get(fv.skip(i as int + 1), key@));
        }
        i += 1;
    }
    proof {
        assert(fv.skip(fields@.len() as int) =~= Seq::<(Seq<char>, JsonV)>::empty());
    }
    None
}

// ---------------------------------------------------------------------------
// Field-extraction rules, as specifications.
// ---------------------------------------------------------------------------
/// A required string field: present with a string value, or the record is
/// malformed.
pub open spec fn req_str_field(f: Seq<(Seq<char>, JsonV)>, key: Seq<char>) -> Option<Seq<char>> {
    match obj_get(f, key) {
        Some(v) => match v.node {
            JsonNodeV::Str(s) => Some(s),
            _ => None,
        },
        None => None,
    }
}

/// An optional string field: absent or null means no value; any non-string
/// value makes the record malformed (outer `None`).
pub open spec fn opt_str_field(f: Seq<(Seq<char>, JsonV)>, key: Seq<char>) -> Option<
    Option<Seq<char>>,
> {
    match obj_get(f, key) {
        Some(v) => match v.node {
            JsonNodeV::Null => Some(None),
            JsonNodeV::Str(s) => Some(Some(s)),
            _ => None,
        },
        None => Some(None),
    }
}

/// An optional boolean field, under the same shape rules as
/// [`opt_str_field`].
pub open spec fn opt_bool_field(f: Seq<(Seq<char>, JsonV)>, key: Seq<char>) -> Option<
    Option<bool>,
> {
    match obj_get(f, key) {
        Some(v) => match v.node {
            JsonNodeV::Null => Some(None),
            JsonNodeV::Bool(b) => Some(Some(b)),
            _ => None,
        },
        None => Some(None),
    }
}


/// Reads a required string field of an object.
pub(crate) fn get_req_str(fields: &Vec<(String, Json)>, key: &str) -> (r: Option<String>)
    ensures
        r.deep_view() == req_str_field(obj_view(fields@), key@),
{
    match find_field(fields, key) {
        Some(v) => match &v.node {
            JsonNode::Str(s) => Some(s.clone()),
            _ => None,
        },
        None => None,
    }
}

/// Reads an optional string field of an object.
pub(crate) fn get_opt_str(fields: &Vec<(String, Json)>, key: &str) -> (r: Option<Option<String>>)
    ensures
        r.deep_view() == opt_str_field(obj_view(fields@), key@),
{
    match find_field(fields, key) {
        Some(v) => match &v.node {
            JsonNode::Null => Some(None),
            JsonNode::Str(s) => Some(Some(s.clone())),
            _ => None,
        },
        None => Some(None),
    }
}

/// Reads an optional boolean field of an object.
pub(crate) fn get_opt_bool(fields: &Vec<(String, Json)>, key: &str) -> (r: Option<Option<bool>>)
    ensures
        r.deep_view() == opt_bool_field(obj_view(fields@), key@),
{
    match find_field(fields, key) {
        Some(v) => match &v.node {
            JsonNode::Null => Some(None),
            JsonNode::Bool(b) => Some(Some(*b)),
            _ => None,
        },
        None => Some(None),
    }
}


} // verus!

