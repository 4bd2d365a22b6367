//! The library's own JSON document tree, its mathematical model, and the
//! trusted boundary to `serde_json` for parsing and printing.
//!
//! Numbers are carried as their decimal text: the library never computes with
//! them, it only moves them between the wire and the tree.

use vstd::prelude::*;

verus! {

/// Mathematical model of a JSON tree.
pub enum JsonVal {
    Null,
    Bool(bool),
    Num(Seq<char>),
    Str(Seq<char>),
    Arr(Seq<JsonVal>),
    Obj(Seq<(Seq<char>, JsonVal)>),
}

/// A JSON value: the tagged variant representation used for parameter
/// defaults, request bodies, and response payloads.
#[derive(Debug, PartialEq)]
pub enum JsonValue {
    Null,
    Bool(bool),
    /// The decimal text of a number, as it appeared on the wire.
    Number(String),
    String(String),
    Array(Vec<JsonValue>),
    Object(Vec<(String, JsonValue)>),
}

/// The model of a JSON value.
pub open spec fn jval_of(v: JsonValue) -> JsonVal
    decreases v,
{
    match v {
        JsonValue::Null => JsonVal::Null,
        JsonValue::Bool(b) => JsonVal::Bool(b),
        JsonValue::Number(s) => JsonVal::Num(s@),
        JsonValue::String(s) => JsonVal::Str(s@),
        JsonValue::Array(items) => JsonVal::Arr(jvals_of(items@)),
        JsonValue::Object(fields) => JsonVal::Obj(jfields_of(fields@)),
    }
}

/// The models of a sequence of JSON values.
pub open spec fn jvals_of(items: Seq<JsonValue>) -> Seq<JsonVal>
    decreases items,
{
    if items.len() == 0 {
        Seq::empty()
    } else {
        seq![jval_of(items[0])] + jvals_of(items.subrange(1, items.len() as int))
    }
}

/// The models of a sequence of JSON object fields.
pub open spec fn jfields_of(fields: Seq<(String, JsonValue)>) -> Seq<(Seq<char>, JsonVal)>
    decreases fields,
{
    if fields.len() == 0 {
        Seq::empty()
    } else {
        seq![(fields[0].0@, jval_of(fields[0].1))] + jfields_of(
            fields.subrange(1, fields.len() as int),
        )
    }
}

/// `jvals_of` maps each element to its model, in place.
pub proof fn lemma_jvals_of(items: Seq<JsonValue>)
    ensures
        jvals_of(items).len() == items.len(),
        forall|i: int| 0 <= i < items.len() ==> jvals_of(items)[i] == jval_of(#[trigger] items[i]),
    decreases items.len(),
{
    if items.len() > 0 {
        let tail = items.subrange(1, items.len() as int);
        lemma_jvals_of(tail);
        assert forall|i: int| 0 <= i < items.len() implies jvals_of(items)[i] == jval_of(
            #[trigger] items[i],
        ) by {
            if i > 0 {
                assert(tail[i - 1] == items[i]);
            }
        }
    }
}

/// `jfields_of` maps each field to its model, in place.
pub proof fn lemma_jfields_of(fields: Seq<(String, JsonValue)>)
    ensures
        jfields_of(fields).len() == fields.len(),
        forall|i: int|
            0 <= i < fields.len() ==> jfields_of(fields)[i] == ((#[trigger] fields[i]).0@, jval_of(
                fields[i].1,
            )),
    decreases fields.len(),
{
    if fields.len() > 0 {
        let tail = fields.subrange(1, fields.len() as int);
        lemma_jfields_of(tail);
        assert forall|i: int| 0 <= i < fields.len() implies jfields_of(fields)[i] == ((
        #[trigger] fields[i]).0@, jval_of(fields[i].1)) by {
            if i > 0 {
                assert(tail[i - 1] == fields[i]);
            }
        }
    }
}

impl DeepView for JsonValue {
    type V = JsonVal;

    open spec fn deep_view(&self) -> JsonVal {
        jval_of(*self)
    }
}

/// A deep copy of a JSON value; the copy has the same model.
pub fn clone_value(v: &JsonValue) -> (r: JsonValue)
    ensures
        jval_of(r) == jval_of(*v),
    decreases *v,
{
    match v {
        JsonValue::Null => JsonValue::Null,
        JsonValue::Bool(b) => JsonValue::Bool(*b),
        JsonValue::Number(s) => JsonValue::Number(s.clone()),
        JsonValue::String(s) => JsonValue::String(s.clone()),
        JsonValue::Array(items) => {
            let cloned = clone_values_from(items, 0);
            proof {
                lemma_jvals_of(cloned@);
                lemma_jvals_of(items@);
                assert forall|j: int| 0 <= j < jvals_of(cloned@).len() implies jvals_of(cloned@)[j]
                    == jvals_of(items@)[j] by {
                    assert(jval_of(cloned@[j]) == jval_of(items@[j]));
                }
                assert(jvals_of(cloned@) =~= jvals_of(items@));
            }
            JsonValue::Array(cloned)
        },
        JsonValue::Object(fields) => {
            let cloned = clone_fields_from(fields, 0);
            proof {
                lemma_jfields_of(cloned@);
                lemma_jfields_of(fields@);
                assert forall|j: int|
                    0 <= j < jfields_of(cloned@).len() implies jfields_of(cloned@)[j] == jfields_of(
                    fields@,
                )[j] by {
                    assert(cloned@[j].0@ == fields@[j].0@ && jval_of(cloned@[j].1) == jval_of(
                        fields@[j].1,
                    ));
                }
                assert(jfields_of(cloned@) =~= jfields_of(fields@));
            }
            JsonValue::Object(cloned)
        },
    }
}

/// Deep copies of the elements of `items` from position `i` on.
fn clone_values_from(items: &Vec<JsonValue>, i: usize) -> (r: Vec<JsonValue>)
    requires
        i <= items@.len(),
    ensures
        r@.len() == items@.len() - i,
        forall|j: int| 0 <= j < r@.len() ==> jval_of(#[trigger] r@[j]) == jval_of(items@[i + j]),
    decreases *items, items@.len() - i,
{
    if i == items.len() {
        Vec::new()
    } else {
        let first = clone_value(&items[i]);
        let mut rest = clone_values_from(items, i + 1);
        rest.insert(0, first);
        rest
    }
}

/// Deep copies of the fields of `fields` from position `i` on.
fn clone_fields_from(fields: &Vec<(String, JsonValue)>, i: usize) -> (r: Vec<(String, JsonValue)>)
    requires
        i <= fields@.len(),
    ensures
        r@.len() == fields@.len() - i,
        forall|j: int|
            0 <= j < r@.len() ==> (#[trigger] r@[j]).0@ == fields@[i + j].0@ && jval_of(r@[j].1)
                == jval_of(fields@[i + j].1),
    decreases *fields, fields@.len() - i,
{
    if i == fields.len() {
        Vec::new()
    } else {
        let key = fields[i].0.clone();
        let val = clone_value(&fields[i].1);
        let mut rest = clone_fields_from(fields, i + 1);
        rest.insert(0, (key, val));
        rest
    }
}

/// Deep copies of all elements of `items`; the models are unchanged.
pub fn clone_values(items: &Vec<JsonValue>) -> (r: Vec<JsonValue>)
    ensures
        jvals_of(r@) == jvals_of(items@),
{
    let r = clone_values_from(items, 0);
    proof {
        lemma_jvals_of(r@);
        lemma_jvals_of(items@);
        assert forall|j: int| 0 <= j < jvals_of(r@).len() implies jvals_of(r@)[j] == jvals_of(
            items@,
        )[j] by {
            assert(jval_of(r@[j]) == jval_of(items@[j]));
        }
        assert(jvals_of(r@) =~= jvals_of(items@));
    }
    r
}

/// Deep copies of all fields of `fields`; the models are unchanged.
pub fn clone_fields(fields: &Vec<(String, JsonValue)>) -> (r: Vec<(String, JsonValue)>)
    ensures
        jfields_of(r@) == jfields_of(fields@),
{
    let r = clone_fields_from(fields, 0);
    proof {
        lemma_jfields_of(r@);
        lemma_jfields_of(fields@);
        assert forall|j: int| 0 <= j < jfields_of(r@).len() implies jfields_of(r@)[j] == jfields_of(
            fields@,
        )[j] by {
            assert(r@[j].0@ == fields@[j].0@ && jval_of(r@[j].1) == jval_of(fields@[j].1));
        }
        assert(jfields_of(r@) =~= jfields_of(fields@));
    }
    r
}

impl Clone for JsonValue {
    /// Cloning preserves the model of the value.
    fn clone(&self) -> (r: Self)
        ensures
            r.deep_view() == self.deep_view(),
    {
        clone_value(self)
    }
}

/// The value bound to the first occurrence of `name` among `fields`, if any.
pub open spec fn spec_lookup(fields: Seq<(Seq<char>, JsonVal)>, name: Seq<char>) -> Option<JsonVal>
    decreases fields.len(),
{
    if fields.len() == 0 {
        None
    } else if fields[0].0 == name {
        Some(fields[0].1)
    } else {
        spec_lookup(fields.drop_first(), name)
    }
}

/// Looks `name` up among object fields, returning the first binding.
pub fn obj_lookup<'a>(fields: &'a Vec<(String, JsonValue)>, name: &str) -> (r: Option<
    &'a JsonValue,
>)
    ensures
        match r {
            Some(v) => spec_lookup(jfields_of(fields@), name@) == Some(jval_of(*v)) && exists|
                i: int,
            |
                0 <= i < fields@.len() && *v == (#[trigger] fields@[i]).1,
            None => spec_lookup(jfields_of(fields@), name@) is None,
        },
{
    let ghost model = jfields_of(fields@);
    proof {
        lemma_jfields_of(fields@);
        assert(model.skip(0) =~= model);
    }
    let mut i: usize = 0;
    while i < fields.len()
        invariant
            i <= fields@.len(),
            model == jfields_of(fields@),
            model.len() == fields@.len(),
            forall|j: int|
                0 <= j < fields@.len() ==> #[trigger] model[j] == (fields@[j].0@, jval_of(
                    fields@[j].1,
                )),
            spec_lookup(model, name@) == spec_lookup(model.skip(i as int), name@),
        decreases fields@.len() - i,
    {
        proof {
            assert(model.skip(i as int)[0] == model[i as int]);
        }
        if crate::text::string_eq_str(&fields[i].0, name) {
            assert(fields@[i as int].1 == fields@[i as int].1);
            return Some(&fields[i].1);
        }
        proof {
            assert(model.skip(i as int).drop_first() =~= model.skip(i as int + 1));
        }
        i = i + 1;
    }
    None
}

/// A successful lookup returns the value of some field.
pub proof fn lemma_lookup_member(fields: Seq<(Seq<char>, JsonVal)>, name: Seq<char>)
    requires
        spec_lookup(fields, name) is Some,
    ensures
        exists|i: int|
            0 <= i < fields.len() && (#[trigger] fields[i]).1 == spec_lookup(fields, name).unwrap(),
    decreases fields.len(),
{
    if fields.len() > 0 && fields[0].0 != name {
        lemma_lookup_member(fields.drop_first(), name);
        let i = choose|i: int|
            0 <= i < fields.drop_first().len() && (#[trigger] fields.drop_first()[i]).1
                == spec_lookup(fields.drop_first(), name).unwrap();
        assert(fields[i + 1] == fields.drop_first()[i]);
    }
}

/// What `serde_json` parses the given text to, if anything.
pub uninterp spec fn spec_parse_json(s: Seq<char>) -> Option<JsonVal>;

/// The message `serde_json` reports for text it does not parse.
pub uninterp spec fn spec_parse_json_error(s: Seq<char>) -> Seq<char>;

/// The pretty-printed text of a JSON tree.
pub uninterp spec fn spec_pretty_text(v: JsonVal) -> Seq<char>;

/// The compact text of a JSON tree.
pub uninterp spec fn spec_compact_text(v: JsonVal) -> Seq<char>;

#[verifier::external_type_specification]
#[verifier::external_body]
pub struct ExSerdeValue(serde_json::Value);

/// Converts a `serde_json` tree into the library's own tree, one constructor
/// for one; a number keeps its decimal text.
#[verifier::external_body]
fn value_of_serde(v: &serde_json::Value) -> JsonValue {
    match v {
        serde_json::Value::Null => JsonValue::Null,
        serde_json::Value::Bool(b) => JsonValue::Bool(*b),
        serde_json::Value::Number(n) => JsonValue::Number(n.to_string()),
        serde_json::Value::String(s) => JsonValue::String(s.clone()),
        serde_json::Value::Array(items) => JsonValue::Array(
            items.iter().map(value_of_serde).collect(),
        ),
        serde_json::Value::Object(fields) => JsonValue::Object(
            fields.iter().map(|(k, x)| (k.clone(), value_of_serde(x))).collect(),
        ),
    }
}

/// Rebuilds a `serde_json` tree from the library's own tree, one constructor
/// for one; number text that `serde_json` does not accept becomes a string.
#[verifier::external_body]
fn serde_of_value(v: &JsonValue) -> serde_json::Value {
    match v {
        JsonValue::Null => serde_json::Value::Null,
        JsonValue::Bool(b) => serde_json::Value::Bool(*b),
        JsonValue::Number(s) => match s.parse::<serde_json::Number>() {
            Ok(n) => serde_json::Value::Number(n),
            Err(_) => serde_json::Value::String(s.clone()),
        },
        JsonValue::String(s) => serde_json::Value::String(s.clone()),
        JsonValue::Array(items) => serde_json::Value::Array(
            items.iter().map(serde_of_value).collect(),
        ),
        JsonValue::Object(fields) => serde_json::Value::Object(
            fields.iter().map(|(k, x)| (k.clone(), serde_of_value(x))).collect(),
        ),
    }
}

/// Relies on `serde_json::from_str::<serde_json::Value>`: parses JSON text,
/// and both the outcome and the failure message are functions of the text
/// alone. The parsed tree is converted into the library's own
/// representation; a failure carries serde's own message.
#[verifier::external_body]
pub fn parse_json(s: &str) -> (r: Result<JsonValue, String>)
    ensures
        match r {
            Ok(v) => spec_parse_json(s@) == Some(v.deep_view()),
            Err(e) => spec_parse_json(s@) is None && e@ == spec_parse_json_error(s@),
        },
{
    match serde_json::from_str::<serde_json::Value>(s) {
        Ok(v) => Ok(value_of_serde(&v)),
        Err(e) => Err(e.to_string()),
    }
}

/// Relies on `serde_json::to_string_pretty`: pretty-prints a JSON tree, and
/// the text depends on the tree alone.
#[verifier::external_body]
pub fn to_pretty_string(v: &JsonValue) -> (r: String)
    ensures
        r@ == spec_pretty_text(v.deep_view()),
{
    serde_json::to_string_pretty(&serde_of_value(v)).unwrap_or_default()
}

/// Relies on the `Display` of `serde_json::Value`: the compact JSON text of a
/// tree, which depends on the tree alone.
#[verifier::external_body]
pub fn to_compact_string(v: &JsonValue) -> (r: String)
    ensures
        r@ == spec_compact_text(v.deep_view()),
{
    serde_of_value(v).to_string()
}

} // verus!
