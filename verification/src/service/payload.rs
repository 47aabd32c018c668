//! Point payloads: the JSON object that is stored with each question, the
//! vector-store values it becomes, and how the fields of a search hit are
//! read back.
//!
//! Floating-point numbers never appear here as such. A value that is a float
//! on the wire is carried by what the logic needs of it: the bit pattern of an
//! `f32` on the way in, and on the way out the results of the three casts that
//! the readers apply (to `u64`, to `f32`, and to text), computed where floats
//! are handled.
use vstd::prelude::*;

use crate::model::question::QuestionInput;
use crate::text::{i64_to_decimal, signed_decimal};

verus! {

// ---------------------------------------------------------------------------
// The JSON payload
// ---------------------------------------------------------------------------

/// A JSON number, as `serde_json` keeps it.
#[derive(Debug, Clone, Copy, PartialEq, Eq, Structural)]
pub enum JsonNumber {
    /// A non-negative integer.
    PosInt(u64),
    /// A negative integer.
    NegInt(i64),
    /// A finite float that came from an `f32` (its bit pattern).
    Float32(u32),
}

/// A JSON value.
#[derive(Debug)]
pub enum JsonValue {
    Null,
    Bool(bool),
    Number(JsonNumber),
    String(String),
    Array(Vec<JsonValue>),
    /// The members, in key order.
    Object(Vec<(String, JsonValue)>),
}

/// The mathematical content of a `JsonValue`.
pub enum JsonModel {
    Null,
    Bool(bool),
    Number(JsonNumber),
    Str(Seq<char>),
    Array(Seq<JsonModel>),
    Object(Seq<(Seq<char>, JsonModel)>),
}

/// The content of `v`.
pub open spec fn json_model(v: JsonValue) -> JsonModel
    decreases v,
{
    match v {
        JsonValue::Null => JsonModel::Null,
        JsonValue::Bool(b) => JsonModel::Bool(b),
        JsonValue::Number(n) => JsonModel::Number(n),
        JsonValue::String(s) => JsonModel::Str(s@),
        JsonValue::Array(items) => JsonModel::Array(
            Seq::new(
                items@.len(),
                |i: int|
                    if 0 <= i < items@.len() {
                        json_model(items@[i])
                    } else {
                        JsonModel::Null
                    },
            ),
        ),
        JsonValue::Object(members) => JsonModel::Object(
            Seq::new(
                members@.len(),
                |i: int|
                    if 0 <= i < members@.len() {
                        (members@[i].0@, json_model(members@[i].1))
                    } else {
                        (Seq::empty(), JsonModel::Null)
                    },
            ),
        ),
    }
}

// ---------------------------------------------------------------------------
// Values sent to the vector store
// ---------------------------------------------------------------------------

/// Where a double that is sent to the store comes from; the store receives
/// the nearest `f64`.
#[derive(Debug, Clone, Copy, PartialEq, Eq, Structural)]
pub enum DoubleSource {
    /// An integer too large for `i64`.
    FromU64(u64),
    /// An `f32` (its bit pattern), which widens exactly.
    FromF32(u32),
}

/// A payload value as the vector store takes it.
#[derive(Debug)]
pub enum PointValue {
    Null,
    Bool(bool),
    Integer(i64),
    Double(DoubleSource),
    Text(String),
    List(Vec<PointValue>),
}

/// The mathematical content of a `PointValue`.
pub enum PointModel {
    Null,
    Bool(bool),
    Integer(i64),
    Double(DoubleSource),
    Text(Seq<char>),
    List(Seq<PointModel>),
}

/// The content of `v`.
pub open spec fn point_model(v: PointValue) -> PointModel
    decreases v,
{
    match v {
        PointValue::Null => PointModel::Null,
        PointValue::Bool(b) => PointModel::Bool(b),
        PointValue::Integer(i) => PointModel::Integer(i),
        PointValue::Double(d) => PointModel::Double(d),
        PointValue::Text(s) => PointModel::Text(s@),
        PointValue::List(items) => PointModel::List(
            Seq::new(
                items@.len(),
                |i: int|
                    if 0 <= i < items@.len() {
                        point_model(items@[i])
                    } else {
                        PointModel::Null
                    },
            ),
        ),
    }
}

/// The store value for a JSON value: integers that fit `i64` stay integers,
/// other numbers become doubles, arrays are converted element by element,
/// and objects, which a payload field cannot hold, become null.
pub open spec fn point_of_json(v: JsonModel) -> PointModel
    decreases v,
{
    match v {
        JsonModel::Null => PointModel::Null,
        JsonModel::Bool(b) => PointModel::Bool(b),
        JsonModel::Number(n) => match n {
            JsonNumber::PosInt(u) => if u <= i64::MAX {
                PointModel::Integer(u as i64)
            } else {
                PointModel::Double(DoubleSource::FromU64(u))
            },
            JsonNumber::NegInt(i) => PointModel::Integer(i),
            JsonNumber::Float32(bits) => PointModel::Double(DoubleSource::FromF32(bits)),
        },
        JsonModel::Str(s) => PointModel::Text(s),
        JsonModel::Array(items) => PointModel::List(
            Seq::new(
                items.len(),
                |i: int|
                    if 0 <= i < items.len() {
                        point_of_json(items[i])
                    } else {
                        PointModel::Null
                    },
            ),
        ),
        JsonModel::Object(_) => PointModel::Null,
    }
}

/// Converts a JSON value into the value that the vector store keeps.
pub fn json_to_value(v: &JsonValue) -> (r: PointValue)
    ensures
        point_model(r) == point_of_json(json_model(*v)),
    decreases v,
{
    match v {
        JsonValue::Null => PointValue::Null,
        JsonValue::Bool(b) => PointValue::Bool(*b),
        JsonValue::Number(n) => match n {
            JsonNumber::PosInt(u) => {
                if *u <= 0x7fff_ffff_ffff_ffffu64 {
                    PointValue::Integer(*u as i64)
                } else {
                    PointValue::Double(DoubleSource::FromU64(*u))
                }
            },
            JsonNumber::NegInt(i) => PointValue::Integer(*i),
            JsonNumber::Float32(bits) => PointValue::Double(DoubleSource::FromF32(*bits)),
        },
        JsonValue::String(s) => PointValue::Text(s.clone()),
        JsonValue::Array(items) => {
            let mut out: Vec<PointValue> = Vec::new();
            let mut k: usize = 0;
            while k < items.len()
                invariant
                    *v == JsonValue::Array(*items),
                    k <= items.len(),
                    out.len() == k,
                    forall|j: int|
                        0 <= j < k ==> point_model(#[trigger] out@[j]) == point_of_json(
                            json_model(items@[j]),
                        ),
                decreases items.len() - k,
            {
                proof {
                    assert(decreases_to!(*v => (*v)->Array_0));
                    assert(decreases_to!(items@ => items@[k as int]));
                }
                let p = json_to_value(&items[k]);
                out.push(p);
                k = k + 1;
            }
            let r = PointValue::List(out);
            assert(point_model(r)->List_0 =~= point_of_json(json_model(*v))->List_0);
            r
        },
        JsonValue::Object(_) => PointValue::Null,
    }
}

/// The payload entries for a point: the members of a JSON object, each
/// converted with `json_to_value`; nothing for any other JSON value.
pub open spec fn payload_of_json(v: JsonModel) -> Seq<(Seq<char>, PointModel)> {
    match v {
        JsonModel::Object(members) => Seq::new(
            members.len(),
            |i: int| (members[i].0, point_of_json(members[i].1)),
        ),
        _ => Seq::empty(),
    }
}

/// The content of a list of payload entries.
pub open spec fn entries_model(entries: Seq<(String, PointValue)>) -> Seq<(Seq<char>, PointModel)> {
    Seq::new(entries.len(), |i: int| (entries[i].0@, point_model(entries[i].1)))
}

/// The payload entries of a point whose payload is `v`.
pub fn payload_entries(v: &JsonValue) -> (r: Vec<(String, PointValue)>)
    ensures
        entries_model(r@) == payload_of_json(json_model(*v)),
{
    let mut out: Vec<(String, PointValue)> = Vec::new();
    match v {
        JsonValue::Object(members) => {
            let mut k: usize = 0;
            while k < members.len()
                invariant
                    *v == JsonValue::Object(*members),
                    k <= members.len(),
                    out.len() == k,
                    forall|j: int|
                        0 <= j < k ==> (#[trigger] out@[j]).0@ == members@[j].0@ && point_model(
                            out@[j].1,
                        ) == point_of_json(json_model(members@[j].1)),
                decreases members.len() - k,
            {
                let key = members[k].0.clone();
                let value = json_to_value(&members[k].1);
                out.push((key, value));
                k = k + 1;
            }
            assert(entries_model(out@) =~= payload_of_json(json_model(*v)));
        },
        _ => {
            assert(entries_model(out@) =~= payload_of_json(json_model(*v)));
        },
    }
    out
}

// ---------------------------------------------------------------------------
// The payload of a question
// ---------------------------------------------------------------------------

/// The bit pattern of a finite `f32`: its exponent is not all ones.
pub open spec fn f32_bits_finite(bits: u32) -> bool {
    (bits >> 23u32) & 0xffu32 != 0xffu32
}

/// The JSON for an optional integer.
pub open spec fn opt_u64_json(v: Option<u64>) -> JsonModel {
    match v {
        Some(n) => JsonModel::Number(JsonNumber::PosInt(n)),
        None => JsonModel::Null,
    }
}

/// The JSON for an optional `f32`: `serde_json` writes a non-finite float as null.
pub open spec fn opt_f32_json(v: Option<u32>) -> JsonModel {
    match v {
        Some(bits) => if f32_bits_finite(bits) {
            JsonModel::Number(JsonNumber::Float32(bits))
        } else {
            JsonModel::Null
        },
        None => JsonModel::Null,
    }
}

/// The JSON array of the knowledge points.
pub open spec fn strings_json(items: Seq<String>) -> JsonModel {
    JsonModel::Array(Seq::new(items.len(), |i: int| JsonModel::Str(items[i]@)))
}

/// The payload stored with a question: an object with its id, its type,
/// its stem, its subject, its grade, its difficulty and its knowledge points,
/// members in key order.
pub open spec fn question_payload_json(q: QuestionInput) -> JsonModel {
    JsonModel::Object(
        seq![
            ("difficult"@, opt_f32_json(q.difficult_bits)),
            ("grade_id"@, opt_u64_json(q.grade_id)),
            ("knowledge_points"@, strings_json(q.knowledge_points@)),
            ("ptype_id"@, opt_u64_json(q.ptype_id)),
            ("question_id"@, JsonModel::Number(JsonNumber::PosInt(q.id))),
            ("stem"@, JsonModel::Str(q.stem@)),
            ("subject_id"@, opt_u64_json(q.subject_id)),
        ],
    )
}

fn opt_u64_value(v: Option<u64>) -> (r: JsonValue)
    ensures
        json_model(r) == opt_u64_json(v),
{
    match v {
        Some(n) => JsonValue::Number(JsonNumber::PosInt(n)),
        None => JsonValue::Null,
    }
}

fn opt_f32_value(v: Option<u32>) -> (r: JsonValue)
    ensures
        json_model(r) == opt_f32_json(v),
{
    match v {
        Some(bits) => {
            if (bits >> 23u32) & 0xffu32 != 0xffu32 {
                JsonValue::Number(JsonNumber::Float32(bits))
            } else {
                JsonValue::Null
            }
        },
        None => JsonValue::Null,
    }
}

fn strings_value(items: &Vec<String>) -> (r: JsonValue)
    ensures
        json_model(r) == strings_json(items@),
{
    let mut out: Vec<JsonValue> = Vec::new();
    let mut k: usize = 0;
    while k < items.len()
        invariant
            k <= items.len(),
            out.len() == k,
            forall|j: int| 0 <= j < k ==> json_model(#[trigger] out@[j]) == JsonModel::Str(items@[j]@),
        decreases items.len() - k,
    {
        out.push(JsonValue::String(items[k].clone()));
        k = k + 1;
    }
    let r = JsonValue::Array(out);
    assert(json_model(r)->Array_0 =~= strings_json(items@)->Array_0);
    r
}

/// The JSON payload stored with `q`.
pub fn question_payload(q: &QuestionInput) -> (r: JsonValue)
    ensures
        json_model(r) == question_payload_json(*q),
{
    let k0 = String::from_str("difficult");
    let v0 = opt_f32_value(q.difficult_bits);
    let k1 = String::from_str("grade_id");
    let v1 = opt_u64_value(q.grade_id);
    let k2 = String::from_str("knowledge_points");
    let v2 = strings_value(&q.knowledge_points);
    let k3 = String::from_str("ptype_id");
    let v3 = opt_u64_value(q.ptype_id);
    let k4 = String::from_str("question_id");
    let v4 = JsonValue::Number(JsonNumber::PosInt(q.id));
    let k5 = String::from_str("stem");
    let v5 = JsonValue::String(q.stem.clone());
    let k6 = String::from_str("subject_id");
    let v6 = opt_u64_value(q.subject_id);
    let ghost expected = question_payload_json(*q)->Object_0;
    assert(expected[0] == (k0@, json_model(v0)));
    assert(expected[1] == (k1@, json_model(v1)));
    assert(expected[2] == (k2@, json_model(v2)));
    assert(expected[3] == (k3@, json_model(v3)));
    assert(expected[4] == (k4@, json_model(v4)));
    assert(expected[5] == (k5@, json_model(v5)));
    assert(expected[6] == (k6@, json_model(v6)));
    let mut members: Vec<(String, JsonValue)> = Vec::new();
    members.push((k0, v0));
    members.push((k1, v1));
    members.push((k2, v2));
    members.push((k3, v3));
    members.push((k4, v4));
    members.push((k5, v5));
    members.push((k6, v6));
    let r = JsonValue::Object(members);
    assert(json_model(r)->Object_0 =~= question_payload_json(*q)->Object_0);
    r
}

// ---------------------------------------------------------------------------
// Values read back from the vector store
// ---------------------------------------------------------------------------

/// A payload value of a search hit.
#[derive(Debug)]
pub enum StoredValue {
    Null,
    Bool(bool),
    /// An integer, with the bit pattern of the `f32` nearest to it.
    Integer { value: i64, as_f32_bits: u32 },
    /// A double, with what it gives cast to `u64` (saturating, NaN as 0),
    /// cast to `f32` (its bit pattern), and written as text.
    Double { as_u64: u64, as_f32_bits: u32, text: String },
    Text(String),
    List(Vec<StoredValue>),
    /// A nested object.
    Struct,
}

/// The text of a value: a string itself, a number written out.
pub open spec fn stored_str(v: StoredValue) -> Option<Seq<char>> {
    match v {
        StoredValue::Text(s) => Some(s@),
        StoredValue::Integer { value, .. } => Some(signed_decimal(value as int)),
        StoredValue::Double { text, .. } => Some(text@),
        _ => None,
    }
}

/// The unsigned integer of a value: a non-negative integer, or a double cast.
pub open spec fn stored_u64(v: StoredValue) -> Option<u64> {
    match v {
        StoredValue::Integer { value, .. } => if value >= 0 {
            Some(value as u64)
        } else {
            None
        },
        StoredValue::Double { as_u64, .. } => Some(as_u64),
        _ => None,
    }
}

/// The `f32` (bit pattern) of a numeric value.
pub open spec fn stored_f32_bits(v: StoredValue) -> Option<u32> {
    match v {
        StoredValue::Integer { as_f32_bits, .. } => Some(as_f32_bits),
        StoredValue::Double { as_f32_bits, .. } => Some(as_f32_bits),
        _ => None,
    }
}

/// The texts of the elements of `items` that have one, in order.
pub open spec fn texts_of(items: Seq<StoredValue>) -> Seq<Seq<char>>
    decreases items.len(),
{
    if items.len() == 0 {
        Seq::empty()
    } else {
        let rest = texts_of(items.drop_last());
        match stored_str(items.last()) {
            Some(s) => rest.push(s),
            None => rest,
        }
    }
}

/// The list of texts in a value: the texts of a list's elements, a string
/// alone, or nothing.
pub open spec fn stored_strings(v: StoredValue) -> Seq<Seq<char>> {
    match v {
        StoredValue::List(items) => texts_of(items@),
        StoredValue::Text(s) => seq![s@],
        _ => Seq::empty(),
    }
}

/// The views of a list of strings.
pub open spec fn string_views(v: Seq<String>) -> Seq<Seq<char>> {
    Seq::new(v.len(), |i: int| v[i]@)
}

/// The text of a value, when it has one.
pub fn value_to_str(v: &StoredValue) -> (r: Option<String>)
    ensures
        r matches Some(s) ==> stored_str(*v) == Some(s@),
        r is None ==> stored_str(*v) is None,
{
    match v {
        StoredValue::Text(s) => Some(s.clone()),
        StoredValue::Integer { value, .. } => Some(i64_to_decimal(*value)),
        StoredValue::Double { text, .. } => Some(text.clone()),
        _ => None,
    }
}

/// The unsigned integer of a value, when it has one.
pub fn value_to_u64(v: &StoredValue) -> (r: Option<u64>)
    ensures
        r == stored_u64(*v),
{
    match v {
        StoredValue::Integer { value, .. } => {
            if *value >= 0 {
                Some(*value as u64)
            } else {
                None
            }
        },
        StoredValue::Double { as_u64, .. } => Some(*as_u64),
        _ => None,
    }
}

/// The `f32` (bit pattern) of a value, when it is a number.
pub fn value_to_f32(v: &StoredValue) -> (r: Option<u32>)
    ensures
        r == stored_f32_bits(*v),
{
    match v {
        StoredValue::Integer { as_f32_bits, .. } => Some(*as_f32_bits),
        StoredValue::Double { as_f32_bits, .. } => Some(*as_f32_bits),
        _ => None,
    }
}

/// The texts held by a value.
pub fn value_list_to_strings(v: &StoredValue) -> (r: Vec<String>)
    ensures
        string_views(r@) == stored_strings(*v),
{
    let mut out: Vec<String> = Vec::new();
    match v {
        StoredValue::List(items) => {
            let mut k: usize = 0;
            while k < items.len()
                invariant
                    k <= items.len(),
                    string_views(out@) == texts_of(items@.take(k as int)),
                decreases items.len() - k,
            {
                assert(items@.take(k + 1).drop_last() =~= items@.take(k as int));
                match value_to_str(&items[k]) {
                    Some(s) => {
                        out.push(s);
                    },
                    None => {},
                }
                assert(string_views(out@) =~= texts_of(items@.take(k + 1)));
                k = k + 1;
            }
            assert(items@.take(items.len() as int) =~= items@);
        },
        StoredValue::Text(s) => {
            out.push(s.clone());
            assert(string_views(out@) =~= stored_strings(*v));
        },
        _ => {
            assert(string_views(out@) =~= stored_strings(*v));
        },
    }
    out
}

} // verus!
