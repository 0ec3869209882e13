//! JSON documents as plain values.

use crate::text;
use vstd::prelude::*;

verus! {

/// A JSON value. A number is kept where it is an unsigned 64-bit integer.
#[derive(Debug)]
pub enum Json {
    Null,
    Boolean(bool),
    Number(Option<u64>),
    Text(String),
    Array(Vec<Json>),
    Object(Vec<(String, Json)>),
}

/// A `Json` with its texts read as character sequences.
pub enum JsonText {
    Null,
    Boolean(bool),
    Number(Option<u64>),
    Text(Seq<char>),
    Array(Seq<JsonText>),
    Object(Seq<(Seq<char>, JsonText)>),
}

/// What a value holds.
pub open spec fn tree(value: Json) -> JsonText
    decreases value,
{
    match value {
        Json::Null => JsonText::Null,
        Json::Boolean(flag) => JsonText::Boolean(flag),
        Json::Number(number) => JsonText::Number(number),
        Json::Text(text) => JsonText::Text(text@),
        Json::Array(items) => JsonText::Array(
            Seq::new(
                items@.len(),
                |i: int|
                    if 0 <= i < items@.len() {
                        tree(items@[i])
                    } else {
                        JsonText::Null
                    },
            ),
        ),
        Json::Object(fields) => JsonText::Object(
            Seq::new(
                fields@.len(),
                |i: int|
                    if 0 <= i < fields@.len() {
                        (fields@[i].0@, tree(fields@[i].1))
                    } else {
                        (Seq::empty(), JsonText::Null)
                    },
            ),
        ),
    }
}

impl View for Json {
    type V = JsonText;

    open spec fn view(&self) -> JsonText {
        tree(*self)
    }
}

#[verifier::external_type_specification]
#[verifier::external_body]
pub struct ExValue(serde_json::Value);

/// What a decoded document holds.
pub uninterp spec fn document(value: serde_json::Value) -> JsonText;

/// What `bytes` hold as a JSON document, or why they hold none.
pub uninterp spec fn document_of(bytes: Seq<u8>) -> Result<JsonText, Seq<char>>;

/// Calls `serde_json::from_slice`. The document, or the reason in words, is named
/// `document_of`.
#[verifier::external_body]
fn parse(bytes: &[u8]) -> (r: Result<serde_json::Value, String>)
    ensures
        match r {
            Ok(value) => document_of(bytes@) == Ok::<JsonText, Seq<char>>(document(value)),
            Err(reason) => document_of(bytes@) == Err::<JsonText, Seq<char>>(reason@),
        },
{
    serde_json::from_slice(bytes).map_err(|error| error.to_string())
}

/// Takes a `serde_json::Value` apart, variant by variant; `Number::as_u64` reads a number.
#[verifier::external_body]
fn plain(value: serde_json::Value) -> (r: Json)
    ensures
        r@ == document(value),
{
    match value {
        serde_json::Value::Null => Json::Null,
        serde_json::Value::Bool(flag) => Json::Boolean(flag),
        serde_json::Value::Number(number) => Json::Number(number.as_u64()),
        serde_json::Value::String(text) => Json::Text(text),
        serde_json::Value::Array(items) => Json::Array(items.into_iter().map(plain).collect()),
        serde_json::Value::Object(fields) => Json::Object(
            fields.into_iter().map(|(name, value)| (name, plain(value))).collect(),
        ),
    }
}

/// Decodes a JSON document.
pub fn decode(bytes: &[u8]) -> (r: Result<Json, String>)
    ensures
        match r {
            Ok(value) => document_of(bytes@) == Ok::<JsonText, Seq<char>>(value@),
            Err(reason) => document_of(bytes@) == Err::<JsonText, Seq<char>>(reason@),
        },
{
    match parse(bytes) {
        Ok(value) => Ok(plain(value)),
        Err(reason) => Err(reason),
    }
}

/// The value of the first field called `name`.
pub open spec fn lookup(fields: Seq<(Seq<char>, JsonText)>, name: Seq<char>) -> Option<JsonText>
    decreases fields.len(),
{
    if fields.len() == 0 {
        None
    } else if fields[0].0 == name {
        Some(fields[0].1)
    } else {
        lookup(fields.drop_first(), name)
    }
}

impl JsonText {
    /// The field called `name` of an object.
    pub open spec fn field(self, name: Seq<char>) -> Option<JsonText> {
        match self {
            JsonText::Object(fields) => lookup(fields, name),
            _ => None,
        }
    }

    /// The text of a string.
    pub open spec fn words(self) -> Option<Seq<char>> {
        match self {
            JsonText::Text(text) => Some(text),
            _ => None,
        }
    }

    /// The text of the field called `name`.
    pub open spec fn field_words(self, name: Seq<char>) -> Option<Seq<char>> {
        match self.field(name) {
            Some(value) => value.words(),
            None => None,
        }
    }

    /// The unsigned integer that a number is.
    pub open spec fn natural(self) -> Option<u64> {
        match self {
            JsonText::Number(number) => number,
            _ => None,
        }
    }

    /// The items of an array.
    pub open spec fn items(self) -> Option<Seq<JsonText>> {
        match self {
            JsonText::Array(items) => Some(items),
            _ => None,
        }
    }
}

/// The trees of a row of values.
pub open spec fn trees(values: Seq<Json>) -> Seq<JsonText> {
    Seq::new(values.len(), |i: int| values[i]@)
}

/// The result of an optional text.
pub open spec fn seen_words(value: Option<&str>) -> Option<Seq<char>> {
    match value {
        Some(text) => Some(text@),
        None => None,
    }
}

impl Json {
    /// The field called `name` of an object.
    pub fn get(&self, name: &str) -> (r: Option<&Json>)
        ensures
            match r {
                Some(value) => self@.field(name@) == Some(value@),
                None => self@.field(name@) is None,
            },
    {
        match self {
            Json::Object(fields) => {
                let ghost all = self@->Object_0;
                let mut i: usize = 0;
                proof {
                    assert(all.skip(0) =~= all);
                }
                while i < fields.len()
                    invariant
                        i <= fields@.len(),
                        *self == Json::Object(*fields),
                        self@ == JsonText::Object(all),
                        all.len() == fields@.len(),
                        lookup(all.skip(i as int), name@) == lookup(all, name@),
                    decreases fields@.len() - i,
                {
                    proof {
                        assert(all.skip(i as int)[0] == all[i as int]);
                        assert(all[i as int] == (
                            fields@[i as int].0@,
                            tree(fields@[i as int].1),
                        ));
                        assert(all.skip(i as int).drop_first() =~= all.skip(i + 1));
                    }
                    if text::same(fields[i].0.as_str(), name) {
                        return Some(&fields[i].1);
                    }
                    i += 1;
                }
                None
            },
            _ => None,
        }
    }

    /// The text of a string.
    pub fn as_str(&self) -> (r: Option<&str>)
        ensures
            seen_words(r) == self@.words(),
    {
        match self {
            Json::Text(text) => Some(text.as_str()),
            _ => None,
        }
    }

    /// The text of the field called `name`.
    pub fn get_str(&self, name: &str) -> (r: Option<&str>)
        ensures
            seen_words(r) == self@.field_words(name@),
    {
        match self.get(name) {
            Some(value) => value.as_str(),
            None => None,
        }
    }

    /// The unsigned integer that a number is.
    pub fn as_u64(&self) -> (r: Option<u64>)
        ensures
            r == self@.natural(),
    {
        match self {
            Json::Number(number) => *number,
            _ => None,
        }
    }

    /// The items of an array.
    pub fn as_array(&self) -> (r: Option<&Vec<Json>>)
        ensures
            match r {
                Some(items) => self@.items() == Some(trees(items@)),
                None => self@.items() is None,
            },
    {
        match self {
            Json::Array(items) => {
                proof {
                    assert(self@->Array_0 =~= trees(items@));
                }
                Some(items)
            },
            _ => None,
        }
    }

    pub fn is_null(&self) -> (r: bool)
        ensures
            r == (self@ is Null),
    {
        match self {
            Json::Null => true,
            _ => false,
        }
    }
}

/// The field of an object is the first of its name; what is no object has none.
pub proof fn law_fields_are_found_by_name(value: JsonText, name: Seq<char>)
    ensures
        !(value is Object) ==> value.field(name) is None,
        value matches JsonText::Object(fields) ==> {
            &&& value.field(name) is None <==> forall|i: int|
                0 <= i < fields.len() ==> (#[trigger] fields[i]).0 != name
            &&& value.field(name) matches Some(found) ==> exists|i: int|
                0 <= i < fields.len() && (#[trigger] fields[i]).0 == name && fields[i].1 == found
                    && forall|j: int| 0 <= j < i ==> (#[trigger] fields[j]).0 != name
        },
        value.field_words(name) is Some <==> (value.field(name) matches Some(JsonText::Text(_))),
        value.field(name) matches Some(JsonText::Text(text)) ==> value.field_words(name) == Some(
            text,
        ),
        value.words() is Some <==> value is Text,
        value.natural() is Some <==> (value matches JsonText::Number(Some(_))),
        value matches JsonText::Number(Some(number)) ==> value.natural() == Some(number),
        value.items() is Some <==> value is Array,
        value matches JsonText::Array(items) ==> value.items() == Some(items),
{
    match value {
        JsonText::Object(fields) => lemma_lookup(fields, name),
        _ => {},
    }
}

proof fn lemma_lookup(fields: Seq<(Seq<char>, JsonText)>, name: Seq<char>)
    ensures
        lookup(fields, name) is None <==> forall|i: int|
            0 <= i < fields.len() ==> (#[trigger] fields[i]).0 != name,
        lookup(fields, name) matches Some(found) ==> exists|i: int|
            0 <= i < fields.len() && (#[trigger] fields[i]).0 == name && fields[i].1 == found
                && forall|j: int| 0 <= j < i ==> (#[trigger] fields[j]).0 != name,
    decreases fields.len(),
{
    if fields.len() > 0 && fields[0].0 != name {
        let rest = fields.drop_first();
        lemma_lookup(rest, name);
        assert(forall|i: int| 0 <= i < rest.len() ==> #[trigger] rest[i] == fields[i + 1]);
        match lookup(rest, name) {
            Some(found) => {
                let i = choose|i: int|
                    0 <= i < rest.len() && (#[trigger] rest[i]).0 == name && rest[i].1 == found
                        && forall|j: int| 0 <= j < i ==> (#[trigger] rest[j]).0 != name;
                assert(fields[i + 1].0 == name);
                assert forall|j: int| 0 <= j < i + 1 implies (#[trigger] fields[j]).0 != name by {
                    if j > 0 {
                        assert(rest[j - 1] == fields[j]);
                    }
                }
            },
            None => {
                assert forall|i: int| 0 <= i < fields.len() implies (#[trigger] fields[i]).0
                    != name by {
                    if i > 0 {
                        assert(rest[i - 1] == fields[i]);
                    }
                }
            },
        }
    }
}

/// A value is viewed as what it is, part by part.
pub proof fn law_values_are_viewed_part_by_part(value: Json, i: int)
    ensures
        value is Null ==> value@ is Null,
        value matches Json::Boolean(flag) ==> value@ == JsonText::Boolean(flag),
        value matches Json::Number(number) ==> value@ == JsonText::Number(number),
        value matches Json::Text(text) ==> value@ == JsonText::Text(text@),
        value matches Json::Array(items) ==> (value@ matches JsonText::Array(parts) && parts.len()
            == items@.len() && (0 <= i < items@.len() ==> parts[i] == items@[i]@)),
        value matches Json::Object(fields) ==> (value@ matches JsonText::Object(parts)
            && parts.len() == fields@.len() && (0 <= i < fields@.len() ==> parts[i] == (
            fields@[i].0@,
            fields@[i].1@,
        ))),
{
}

/// A value gives a text, a number or items exactly where it is such.
pub proof fn law_values_give_what_they_are(value: JsonText)
    ensures
        match value {
            JsonText::Text(text) => value.words() == Some(text),
            _ => value.words() is None,
        },
        match value {
            JsonText::Number(number) => value.natural() == number,
            _ => value.natural() is None,
        },
        match value {
            JsonText::Array(items) => value.items() == Some(items),
            _ => value.items() is None,
        },
        !(value is Object) ==> forall|name: Seq<char>| #[trigger] value.field(name) is None,
{
}

} // verus!
