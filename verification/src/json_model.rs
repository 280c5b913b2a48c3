//! The library's own model of a JSON document, and the trusted boundary to
//! serde_json that turns raw text into a value of that model.
//!
//! All logic in this crate reads and writes `JsonValue`; serde_json is
//! called only inside the two trusted wrappers below, which parse text and
//! convert the parsed `serde_json::Value` into the model, one variant to
//! one variant.

use vstd::prelude::*;

verus! {

/// Mathematical view of a JSON value.
#[verifier::ext_equal]
pub enum JsonView {
    Null,
    Bool(bool),
    Int(int),
    OtherNumber,
    Str(Seq<char>),
    Arr(Seq<JsonView>),
    Obj(Seq<(Seq<char>, JsonView)>),
}

/// A JSON value as this library holds it. A number with no exact signed
/// 64-bit integer representation is kept abstract as `OtherNumber`: no
/// field this library reads may hold one, and nothing it writes produces
/// one.
#[derive(Debug)]
pub enum JsonValue {
    Null,
    Bool(bool),
    Int(i64),
    OtherNumber,
    Str(String),
    Arr(Vec<JsonValue>),
    Obj(Vec<(String, JsonValue)>),
}

/// The views of a list of JSON values, in order.
pub open spec fn json_list_view(s: Seq<JsonValue>) -> Seq<JsonView>
    decreases s,
{
    Seq::new(
        s.len(),
        |i: int|
            if 0 <= i < s.len() {
                json_view(s[i])
            } else {
                arbitrary()
            },
    )
}

/// The views of the members of a JSON object, in order.
pub open spec fn json_obj_view(s: Seq<(String, JsonValue)>) -> Seq<(Seq<char>, JsonView)>
    decreases s,
{
    Seq::new(
        s.len(),
        |i: int|
            if 0 <= i < s.len() {
                (s[i].0@, json_view(s[i].1))
            } else {
                arbitrary()
            },
    )
}

/// The view of a JSON value, taken recursively.
pub open spec fn json_view(j: JsonValue) -> JsonView
    decreases j,
{
    match j {
        JsonValue::Null => JsonView::Null,
        JsonValue::Bool(b) => JsonView::Bool(b),
        JsonValue::Int(i) => JsonView::Int(i as int),
        JsonValue::OtherNumber => JsonView::OtherNumber,
        JsonValue::Str(s) => JsonView::Str(s@),
        JsonValue::Arr(a) => {
            proof {
                assert(decreases_to!(j => a));
                assert(decreases_to!(a => a@));
            }
            JsonView::Arr(json_list_view(a@))
        },
        JsonValue::Obj(m) => {
            proof {
                assert(decreases_to!(j => m));
                assert(decreases_to!(m => m@));
            }
            JsonView::Obj(json_obj_view(m@))
        },
    }
}

impl DeepView for JsonValue {
    type V = JsonView;

    open spec fn deep_view(&self) -> JsonView {
        json_view(*self)
    }
}

/// The first value under `key` among an object's members, if any.
pub open spec fn lookup(obj: Seq<(Seq<char>, JsonView)>, key: Seq<char>) -> Option<JsonView>
    decreases obj.len(),
{
    if obj.len() == 0 {
        None
    } else if obj[0].0 == key {
        Some(obj[0].1)
    } else {
        lookup(obj.drop_first(), key)
    }
}

/// Finds the first member of `obj` named `key`.
pub fn lookup_member<'a>(obj: &'a Vec<(String, JsonValue)>, key: &String) -> (r: Option<
    &'a JsonValue,
>)
    ensures
        match r {
            Some(v) => lookup(obj.deep_view(), key@) == Some(v.deep_view()) && exists|i: int|
                0 <= i < obj@.len() && *v == obj@[i].1,
            None => lookup(obj.deep_view(), key@) is None,
        },
{
    let ghost objv = obj.deep_view();
    proof {
        assert(objv.skip(0) =~= objv);
    }
    let mut i: usize = 0;
    while i < obj.len()
        invariant
            0 <= i <= obj.len(),
            objv == obj.deep_view(),
            lookup(objv.skip(i as int), key@) == lookup(objv, key@),
        decreases obj.len() - i,
    {
        proof {
            assert(objv.skip(i as int)[0] == objv[i as int]);
            assert(objv.skip(i as int).drop_first() =~= objv.skip(i as int + 1));
        }
        if obj[i].0 == *key {
            return Some(&obj[i].1);
        }
        i += 1;
    }
    proof {
        assert(objv.skip(obj.len() as int) =~= Seq::<(Seq<char>, JsonView)>::empty());
    }
    None
}

// ---------------------------------------------------------------------------
// The trusted boundary to serde_json.
// ---------------------------------------------------------------------------
/// serde_json's JSON value type, held only inside the trusted boundary.
#[verifier::external_type_specification]
#[verifier::external_body]
pub struct ExValue(serde_json::Value);

/// The model a `serde_json::Value` stands for, as the conversion below
/// computes it.
pub uninterp spec fn value_model(v: serde_json::Value) -> JsonView;

/// What serde_json's parser yields on a given text: the model of the parsed
/// value, or `None` where the text is not a JSON document. The result
/// depends on the text alone.
pub uninterp spec fn parsed_json(s: Seq<char>) -> Option<JsonView>;

/// Relies on serde_json::from_str::<Value>: a pure parse whose result
/// depends on the text alone, `Err` where the parser does not accept the
/// text (it is not valid JSON, or nests beyond the parser's depth limit).
#[verifier::external_body]
fn parse_document(s: &str) -> (r: Option<serde_json::Value>)
    ensures
        match r {
            Some(v) => parsed_json(s@) == Some(value_model(v)),
            None => parsed_json(s@) is None,
        },
{
    match serde_json::from_str::<serde_json::Value>(s) {
        Ok(v) => Some(v),
        Err(_) => None,
    }
}

/// Relies on serde_json::Value being the six JSON variants, and on
/// Number::as_i64 returning the exact integer value where one exists: the
/// conversion maps each variant of the parsed value to the same variant of
/// the library's model, member order kept.
#[verifier::external_body]
fn json_of_value(v: &serde_json::Value) -> (r: JsonValue)
    ensures
        r.deep_view() == value_model(*v),
{
    match v {
        serde_json::Value::Null => JsonValue::Null,
        serde_json::Value::Bool(b) => JsonValue::Bool(*b),
        serde_json::Value::Number(n) => match n.as_i64() {
            Some(i) => JsonValue::Int(i),
            None => JsonValue::OtherNumber,
        },
        serde_json::Value::String(s) => JsonValue::Str(s.clone()),
        serde_json::Value::Array(a) => JsonValue::Arr(a.iter().map(json_of_value).collect()),
        serde_json::Value::Object(m) => JsonValue::Obj(
            m.iter().map(|(k, w)| (k.clone(), json_of_value(w))).collect(),
        ),
    }
}

/// Parses a JSON text into the library's model of it, or `None` where the
/// text is not a JSON document.
pub fn parse_json_text(s: &str) -> (r: Option<JsonValue>)
    ensures
        match r {
            Some(j) => parsed_json(s@) == Some(j.deep_view()),
            None => parsed_json(s@) is None,
        },
{
    match parse_document(s) {
        Some(v) => Some(json_of_value(&v)),
        None => None,
    }
}

} // verus!
