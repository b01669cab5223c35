//! JSON values.

use vstd::prelude::*;

use crate::ratio::Ratio;
use crate::text::same_text;

verus! {

/// A JSON number that is no integer: the bits of the double and those of the
/// nearest single.
#[derive(Clone, Copy, Debug, PartialEq, Eq, Structural)]
pub struct JsonFloat {
    pub bits: u64,
    pub single: Ratio,
}

/// A JSON value.
#[derive(Debug, PartialEq, Eq)]
pub enum Json {
    Null,
    Bool(bool),
    /// An integer from zero up.
    Unsigned(u64),
    /// An integer below zero.
    Negative(i64),
    /// Any other number that was read.
    Float(JsonFloat),
    /// A single-precision number to be written.
    Single(Ratio),
    Text(String),
    Array(Vec<Json>),
    Object(Vec<(String, Json)>),
}

/// A JSON value as a mathematical value.
pub ghost enum JsonModel {
    Null,
    Bool(bool),
    Unsigned(u64),
    Negative(i64),
    Float(JsonFloat),
    Single(Ratio),
    Text(Seq<char>),
    Array(Seq<JsonModel>),
    Object(Seq<(Seq<char>, JsonModel)>),
}

/// What a JSON value holds.
pub open spec fn json_model(j: Json) -> JsonModel
    decreases j,
{
    match j {
        Json::Null => JsonModel::Null,
        Json::Bool(b) => JsonModel::Bool(b),
        Json::Unsigned(n) => JsonModel::Unsigned(n),
        Json::Negative(n) => JsonModel::Negative(n),
        Json::Float(f) => JsonModel::Float(f),
        Json::Single(r) => JsonModel::Single(r),
        Json::Text(s) => JsonModel::Text(s@),
        Json::Array(items) => JsonModel::Array(
            Seq::new(
                items@.len(),
                |i: int|
                    if 0 <= i < items@.len() {
                        json_model(items@[i])
                    } else {
                        JsonModel::Null
                    },
            ),
        ),
        Json::Object(fields) => JsonModel::Object(
            Seq::new(
                fields@.len(),
                |i: int|
                    if 0 <= i < fields@.len() {
                        (fields@[i].0@, json_model(fields@[i].1))
                    } else {
                        (Seq::empty(), JsonModel::Null)
                    },
            ),
        ),
    }
}

impl View for Json {
    type V = JsonModel;

    open spec fn view(&self) -> JsonModel {
        json_model(*self)
    }
}

/// What an optional JSON value holds.
pub open spec fn optional_json(j: Option<Json>) -> Option<JsonModel> {
    match j {
        Some(v) => Some(v@),
        None => None,
    }
}

/// The value of the first field with a name, from position `from` on.
pub open spec fn field_from(fields: Seq<(Seq<char>, JsonModel)>, key: Seq<char>, from: int) -> Option<
    JsonModel,
>
    decreases fields.len() - from,
{
    if from < 0 || from >= fields.len() {
        None
    } else if fields[from].0 == key {
        Some(fields[from].1)
    } else {
        field_from(fields, key, from + 1)
    }
}

impl JsonModel {
    /// The value of a field of an object.
    pub open spec fn get(self, key: Seq<char>) -> Option<JsonModel> {
        match self {
            JsonModel::Object(fields) => field_from(fields, key, 0),
            _ => None,
        }
    }

    /// The text of a field that is a string.
    pub open spec fn text_at(self, key: Seq<char>) -> Option<Seq<char>> {
        match self.get(key) {
            Some(JsonModel::Text(s)) => Some(s),
            _ => None,
        }
    }

    /// The number of a field that is an integer from zero up.
    pub open spec fn unsigned_at(self, key: Seq<char>) -> Option<u64> {
        match self.get(key) {
            Some(JsonModel::Unsigned(n)) => Some(n),
            _ => None,
        }
    }

    /// The truth value of a field that is one.
    pub open spec fn bool_at(self, key: Seq<char>) -> Option<bool> {
        match self.get(key) {
            Some(JsonModel::Bool(b)) => Some(b),
            _ => None,
        }
    }

    /// The items of a field that is an array.
    pub open spec fn items_at(self, key: Seq<char>) -> Option<Seq<JsonModel>> {
        match self.get(key) {
            Some(JsonModel::Array(items)) => Some(items),
            _ => None,
        }
    }

    /// A field that is a number, as a split ratio. Of whole numbers only the
    /// side on which they lie of the span of ratios is kept.
    pub open spec fn ratio_at(self, key: Seq<char>) -> Option<Ratio> {
        match self.get(key) {
            Some(JsonModel::Unsigned(n)) => Some(
                Ratio {
                    bits: if n == 0 {
                        0
                    } else {
                        0x3f80_0000
                    },
                },
            ),
            Some(JsonModel::Negative(_)) => Some(Ratio { bits: 0xbf80_0000 }),
            Some(JsonModel::Float(f)) => Some(f.single),
            Some(JsonModel::Single(r)) => Some(r),
            _ => None,
        }
    }
}

impl Json {
    /// A copy of the value.
    pub fn copy(&self) -> (j: Json)
        ensures
            j@ == self@,
        decreases self,
    {
        match self {
            Json::Null => Json::Null,
            Json::Bool(b) => Json::Bool(*b),
            Json::Unsigned(n) => Json::Unsigned(*n),
            Json::Negative(n) => Json::Negative(*n),
            Json::Float(f) => Json::Float(*f),
            Json::Single(r) => Json::Single(*r),
            Json::Text(s) => Json::Text(s.clone()),
            Json::Array(items) => {
                let mut out: Vec<Json> = Vec::new();
                let mut i: usize = 0;
                while i < items.len()
                    invariant
                        i <= items@.len(),
                        *self == Json::Array(*items),
                        out@.len() == i,
                        forall|k: int| 0 <= k < i ==> json_model(#[trigger] out@[k]) == json_model(
                            items@[k],
                        ),
                    decreases items@.len() - i,
                {
                    assert(decreases_to!(*self => self->Array_0));
                    assert(decreases_to!(self->Array_0@ => self->Array_0@[i as int]));
                    out.push(items[i].copy());
                    i = i + 1;
                }
                let j = Json::Array(out);
                assert(j@->Array_0 =~= self@->Array_0);
                j
            },
            Json::Object(fields) => {
                let mut out: Vec<(String, Json)> = Vec::new();
                let mut i: usize = 0;
                while i < fields.len()
                    invariant
                        i <= fields@.len(),
                        *self == Json::Object(*fields),
                        out@.len() == i,
                        forall|k: int|
                            0 <= k < i ==> (#[trigger] out@[k]).0@ == fields@[k].0@ && json_model(
                                out@[k].1,
                            ) == json_model(fields@[k].1),
                    decreases fields@.len() - i,
                {
                    assert(decreases_to!(*self => self->Object_0));
                    assert(decreases_to!(self->Object_0@ => self->Object_0@[i as int]));
                    assert(decreases_to!(self->Object_0@[i as int] => self->Object_0@[i as int].1));
                    let key = fields[i].0.clone();
                    let value = fields[i].1.copy();
                    out.push((key, value));
                    i = i + 1;
                }
                let j = Json::Object(out);
                assert(j@->Object_0 =~= self@->Object_0);
                j
            },
        }
    }

    /// The value of a field of an object.
    pub fn get(&self, key: &str) -> (v: Option<&Json>)
        ensures
            match v {
                Some(j) => self@.get(key@) == Some(j@),
                None => self@.get(key@) is None,
            },
    {
        match self {
            Json::Object(fields) => {
                let ghost model = self@->Object_0;
                let mut i: usize = 0;
                while i < fields.len()
                    invariant
                        i <= fields@.len(),
                        *self == Json::Object(*fields),
                        model == self@->Object_0,
                        self@.get(key@) == field_from(model, key@, i as int),
                    decreases fields@.len() - i,
                {
                    assert(model[i as int] == (fields@[i as int].0@, fields@[i as int].1@));
                    if same_text(fields[i].0.as_str(), key) {
                        return Some(&fields[i].1);
                    }
                    i = i + 1;
                }
                None
            },
            _ => None,
        }
    }

    /// The text of a field that is a string.
    pub fn text_at(&self, key: &str) -> (s: Option<&str>)
        ensures
            match s {
                Some(t) => self@.text_at(key@) == Some(t@),
                None => self@.text_at(key@) is None,
            },
    {
        match self.get(key) {
            Some(Json::Text(s)) => Some(s.as_str()),
            _ => None,
        }
    }

    /// The number of a field that is an integer from zero up.
    pub fn unsigned_at(&self, key: &str) -> (n: Option<u64>)
        ensures
            n == self@.unsigned_at(key@),
    {
        match self.get(key) {
            Some(Json::Unsigned(n)) => Some(*n),
            _ => None,
        }
    }

    /// The truth value of a field that is one.
    pub fn bool_at(&self, key: &str) -> (b: Option<bool>)
        ensures
            b == self@.bool_at(key@),
    {
        match self.get(key) {
            Some(Json::Bool(b)) => Some(*b),
            _ => None,
        }
    }

    /// The items of a field that is an array.
    pub fn items_at(&self, key: &str) -> (items: Option<&Vec<Json>>)
        ensures
            match items {
                Some(v) => self@.items_at(key@) == Some(items_model(v@)),
                None => self@.items_at(key@) is None,
            },
    {
        match self.get(key) {
            Some(j) => match j {
                Json::Array(v) => {
                    assert(j@->Array_0 =~= items_model(v@));
                    Some(v)
                },
                _ => None,
            },
            _ => None,
        }
    }

    /// A field that is a number, as a split ratio.
    pub fn ratio_at(&self, key: &str) -> (r: Option<Ratio>)
        ensures
            r == self@.ratio_at(key@),
    {
        match self.get(key) {
            Some(Json::Unsigned(n)) => {
                if *n == 0 {
                    Some(Ratio { bits: 0 })
                } else {
                    Some(Ratio { bits: 0x3f80_0000 })
                }
            },
            Some(Json::Negative(_)) => Some(Ratio { bits: 0xbf80_0000 }),
            Some(Json::Float(f)) => Some(f.single),
            Some(Json::Single(r)) => Some(*r),
            _ => None,
        }
    }
}

/// What a list of values holds.
pub open spec fn items_model(items: Seq<Json>) -> Seq<JsonModel> {
    Seq::new(items.len(), |i: int| items[i]@)
}

/// What a list of fields holds.
pub open spec fn fields_model(fields: Seq<(String, Json)>) -> Seq<(Seq<char>, JsonModel)> {
    Seq::new(fields.len(), |i: int| (fields[i].0@, fields[i].1@))
}

/// An object of the given fields.
pub fn object(fields: Vec<(String, Json)>) -> (j: Json)
    ensures
        j@ == JsonModel::Object(fields_model(fields@)),
{
    let j = Json::Object(fields);
    assert(j@->Object_0 =~= fields_model(fields@));
    j
}

/// An array of the given values.
pub fn array(items: Vec<Json>) -> (j: Json)
    ensures
        j@ == JsonModel::Array(items_model(items@)),
{
    let j = Json::Array(items);
    assert(j@->Array_0 =~= items_model(items@));
    j
}

/// A string value.
pub fn text(s: &str) -> (j: Json)
    ensures
        j@ == JsonModel::Text(s@),
{
    Json::Text(s.to_owned())
}

/// An object with one field.
pub fn object1(key: &str, value: Json) -> (j: Json)
    ensures
        j@ == JsonModel::Object(seq![(key@, value@)]),
{
    let ghost v = value@;
    let mut fields: Vec<(String, Json)> = Vec::new();
    fields.push((key.to_owned(), value));
    assert(fields_model(fields@) =~= seq![(key@, v)]);
    object(fields)
}

/// An object with two fields.
pub fn object2(key1: &str, value1: Json, key2: &str, value2: Json) -> (j: Json)
    ensures
        j@ == JsonModel::Object(seq![(key1@, value1@), (key2@, value2@)]),
{
    let ghost v1 = value1@;
    let ghost v2 = value2@;
    let mut fields: Vec<(String, Json)> = Vec::new();
    fields.push((key1.to_owned(), value1));
    fields.push((key2.to_owned(), value2));
    assert(fields_model(fields@) =~= seq![(key1@, v1), (key2@, v2)]);
    object(fields)
}

/// An object with three fields.
pub fn object3(
    key1: &str,
    value1: Json,
    key2: &str,
    value2: Json,
    key3: &str,
    value3: Json,
) -> (j: Json)
    ensures
        j@ == JsonModel::Object(seq![(key1@, value1@), (key2@, value2@), (key3@, value3@)]),
{
    let ghost v1 = value1@;
    let ghost v2 = value2@;
    let ghost v3 = value3@;
    let mut fields: Vec<(String, Json)> = Vec::new();
    fields.push((key1.to_owned(), value1));
    fields.push((key2.to_owned(), value2));
    fields.push((key3.to_owned(), value3));
    assert(fields_model(fields@) =~= seq![(key1@, v1), (key2@, v2), (key3@, v3)]);
    object(fields)
}

/// An object with four fields.
pub fn object4(
    key1: &str,
    value1: Json,
    key2: &str,
    value2: Json,
    key3: &str,
    value3: Json,
    key4: &str,
    value4: Json,
) -> (j: Json)
    ensures
        j@ == JsonModel::Object(
            seq![(key1@, value1@), (key2@, value2@), (key3@, value3@), (key4@, value4@)],
        ),
{
    let ghost v1 = value1@;
    let ghost v2 = value2@;
    let ghost v3 = value3@;
    let ghost v4 = value4@;
    let mut fields: Vec<(String, Json)> = Vec::new();
    fields.push((key1.to_owned(), value1));
    fields.push((key2.to_owned(), value2));
    fields.push((key3.to_owned(), value3));
    fields.push((key4.to_owned(), value4));
    assert(fields_model(fields@) =~= seq![(key1@, v1), (key2@, v2), (key3@, v3), (key4@, v4)]);
    object(fields)
}

/// A copy of an optional value.
pub fn copy_optional(j: &Option<Json>) -> (c: Option<Json>)
    ensures
        optional_json(c) == optional_json(*j),
{
    match j {
        Some(v) => Some(v.copy()),
        None => None,
    }
}

} // verus!
