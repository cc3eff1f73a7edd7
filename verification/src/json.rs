//! JSON values as plain data.

use serde_json::Value;
use vstd::prelude::*;
use vstd::string::StringExecFns;

use crate::text::text_of;

verus! {

/// A JSON number that is not an integer of 64 bits, by its shortest decimal text.
/// Only parsing makes one, so the text is always that of a number.
#[derive(Debug)]
pub struct Decimal {
    text: String,
}

impl Decimal {
    /// The decimal text of the number.
    pub closed spec fn shown(&self) -> Seq<char> {
        self.text@
    }
}

/// A JSON number.
#[derive(Debug)]
pub enum JsonNumber {
    /// A non-negative integer.
    Unsigned(u64),
    /// An integer with a sign. One that is not negative is the same number as an
    /// `Unsigned` one.
    Signed(i64),
    /// Any other number.
    Decimal(Decimal),
}

/// A JSON value.
#[derive(Debug)]
pub enum Json {
    Null,
    Bool(bool),
    Number(JsonNumber),
    Text(String),
    List(Vec<Json>),
    Object(Vec<(String, Json)>),
}

/// What a JSON value is. An integer is `Negative` only if it is.
#[verifier::ext_equal]
pub enum JsonModel {
    Null,
    Bool(bool),
    Unsigned(u64),
    Negative(i64),
    Decimal(Seq<char>),
    Text(Seq<char>),
    List(Seq<JsonModel>),
    Object(Seq<(Seq<char>, JsonModel)>),
}

/// What an integer with a sign is.
pub open spec fn signed_model(n: i64) -> JsonModel {
    if n < 0 {
        JsonModel::Negative(n)
    } else {
        JsonModel::Unsigned(n as u64)
    }
}

/// The value of the first of `fields` that is called `key`.
pub open spec fn field_named(fields: Seq<(Seq<char>, JsonModel)>, key: Seq<char>) -> Option<JsonModel>
    decreases fields.len(),
{
    if fields.len() == 0 {
        None
    } else if fields[0].0 == key {
        Some(fields[0].1)
    } else {
        field_named(fields.drop_first(), key)
    }
}

impl JsonModel {
    /// The field `key` of an object; anything else has no fields.
    pub open spec fn field(self, key: Seq<char>) -> Option<JsonModel> {
        match self {
            JsonModel::Object(fields) => field_named(fields, key),
            _ => None,
        }
    }

    /// The text, if this is a text.
    pub open spec fn as_text(self) -> Option<Seq<char>> {
        match self {
            JsonModel::Text(text) => Some(text),
            _ => None,
        }
    }

    /// The number, if this is a non-negative integer.
    pub open spec fn as_number(self) -> Option<u64> {
        match self {
            JsonModel::Unsigned(n) => Some(n),
            _ => None,
        }
    }

    /// The items, if this is a list.
    pub open spec fn as_list(self) -> Option<Seq<JsonModel>> {
        match self {
            JsonModel::List(items) => Some(items),
            _ => None,
        }
    }

    /// The text of the field `key`, if it is there and a text.
    pub open spec fn text_field(self, key: Seq<char>) -> Option<Seq<char>> {
        match self.field(key) {
            Some(value) => value.as_text(),
            None => None,
        }
    }

    /// The number in the field `key`, if it is there and a non-negative integer.
    pub open spec fn number_field(self, key: Seq<char>) -> Option<u64> {
        match self.field(key) {
            Some(value) => value.as_number(),
            None => None,
        }
    }

    /// The items of the field `key`, if it is there and a list.
    pub open spec fn list_field(self, key: Seq<char>) -> Option<Seq<JsonModel>> {
        match self.field(key) {
            Some(value) => value.as_list(),
            None => None,
        }
    }
}

/// What the values in a list are.
pub open spec fn models(items: Seq<Json>) -> Seq<JsonModel> {
    items.map_values(|item: Json| item@)
}

/// What the fields of an object are.
pub open spec fn field_models(fields: Seq<(String, Json)>) -> Seq<(Seq<char>, JsonModel)> {
    fields.map_values(|field: (String, Json)| (field.0@, field.1@))
}

impl Json {
    /// What this value is.
    pub open spec fn model(&self) -> JsonModel
        decreases self,
    {
        match self {
            Json::Null => JsonModel::Null,
            Json::Bool(b) => JsonModel::Bool(*b),
            Json::Number(JsonNumber::Unsigned(n)) => JsonModel::Unsigned(*n),
            Json::Number(JsonNumber::Signed(n)) => signed_model(*n),
            Json::Number(JsonNumber::Decimal(decimal)) => JsonModel::Decimal(decimal.shown()),
            Json::Text(text) => JsonModel::Text(text@),
            Json::List(items) => JsonModel::List(
                Seq::new(
                    items@.len(),
                    |i: int|
                        if 0 <= i < items@.len() {
                            items@[i].model()
                        } else {
                            JsonModel::Null
                        },
                ),
            ),
            Json::Object(fields) => JsonModel::Object(
                Seq::new(
                    fields@.len(),
                    |i: int|
                        if 0 <= i < fields@.len() {
                            (fields@[i].0@, fields@[i].1.model())
                        } else {
                            (Seq::<char>::empty(), JsonModel::Null)
                        },
                ),
            ),
        }
    }
}

impl View for Json {
    type V = JsonModel;

    open spec fn view(&self) -> JsonModel {
        self.model()
    }
}

/// A list is the sequence of what its items are, and an object of what its fields
/// are.
pub proof fn lemma_model_of_parts(json: Json)
    ensures
        json matches Json::List(items) ==> json@ == JsonModel::List(models(items@)),
        json matches Json::Object(fields) ==> json@ == JsonModel::Object(field_models(fields@)),
{
    match json {
        Json::List(items) => {
            assert(json@->List_0 =~= models(items@));
        },
        Json::Object(fields) => {
            assert(json@->Object_0 =~= field_models(fields@));
        },
        _ => {},
    }
}

/// A parsed JSON value of `serde_json`.
#[verifier::external_type_specification]
#[verifier::external_body]
pub struct ExValue(serde_json::Value);

/// What a `serde_json` value holds.
pub uninterp spec fn value_model(value: serde_json::Value) -> JsonModel;

/// What parsing a text as JSON gives: the value, or the reason why it is none.
pub uninterp spec fn json_parsed(text: Seq<char>) -> Result<JsonModel, Seq<char>>;

/// What a `serde_json` number made from a decimal text holds.
pub uninterp spec fn decimal_stored(text: Seq<char>) -> JsonModel;

/// The compact JSON text of a value.
pub uninterp spec fn json_text(model: JsonModel) -> Seq<char>;

/// `a` comes before `b` in the order of their bytes.
pub open spec fn bytes_before(a: Seq<u8>, b: Seq<u8>) -> bool
    decreases a.len(),
{
    b.len() > 0 && (a.len() == 0 || a[0] < b[0] || (a[0] == b[0] && bytes_before(
        a.drop_first(),
        b.drop_first(),
    )))
}

/// Fields in the order of their names, with one more: it takes its place among them, or
/// that of the field of its name.
pub open spec fn with_field(
    fields: Seq<(Seq<char>, JsonModel)>,
    name: Seq<char>,
    value: JsonModel,
) -> Seq<(Seq<char>, JsonModel)>
    decreases fields.len(),
{
    if fields.len() == 0 || bytes_before(
        vstd::utf8::encode_utf8(name),
        vstd::utf8::encode_utf8(fields[0].0),
    ) {
        seq![(name, value)] + fields
    } else if fields[0].0 == name {
        fields.update(0, (name, value))
    } else {
        seq![fields[0]] + with_field(fields.drop_first(), name, value)
    }
}

/// The fields that an object keeps of these: one for each name, the last of them, in
/// the order of the bytes of their names.
pub open spec fn fields_stored(fields: Seq<(Seq<char>, JsonModel)>) -> Seq<(Seq<char>, JsonModel)>
    decreases fields.len(),
{
    if fields.len() == 0 {
        Seq::empty()
    } else {
        with_field(fields_stored(fields.drop_last()), fields.last().0, fields.last().1)
    }
}

/// A `serde_json` value taken apart.
enum Opened<'a> {
    Null,
    Bool(bool),
    Number(JsonNumber),
    Text(&'a String),
    List(&'a Vec<Value>),
    Object(Vec<(&'a String, &'a Value)>),
}

/// The parts of a `serde_json` value to be.
enum Parts {
    Null,
    Bool(bool),
    Unsigned(u64),
    Signed(i64),
    Decimal(String),
    Text(String),
    List(Vec<Value>),
    Object(Vec<(String, Value)>),
}

/// What a JSON number is.
pub open spec fn number_model(number: JsonNumber) -> JsonModel {
    match number {
        JsonNumber::Unsigned(n) => JsonModel::Unsigned(n),
        JsonNumber::Signed(n) => signed_model(n),
        JsonNumber::Decimal(decimal) => JsonModel::Decimal(decimal.shown()),
    }
}

/// What a value that was taken apart holds.
spec fn opened_model(opened: Opened<'_>) -> JsonModel {
    match opened {
        Opened::Null => JsonModel::Null,
        Opened::Bool(b) => JsonModel::Bool(b),
        Opened::Number(number) => number_model(number),
        Opened::Text(text) => JsonModel::Text(text@),
        Opened::List(items) => JsonModel::List(items@.map_values(|item: Value| value_model(item))),
        Opened::Object(fields) => JsonModel::Object(
            fields@.map_values(|field: (&String, &Value)| (field.0@, value_model(*field.1))),
        ),
    }
}

/// Calls `serde_json::from_str` for a `serde_json::Value`. Which value a text
/// stands for, and the reason given for one that stands for none, follow from the
/// text alone.
#[verifier::external_body]
fn parse_value(text: &str) -> (value: Result<Value, String>)
    ensures
        match value {
            Ok(v) => json_parsed(text@) == Ok::<JsonModel, Seq<char>>(value_model(v)),
            Err(reason) => json_parsed(text@) == Err::<JsonModel, Seq<char>>(reason@),
        },
{
    serde_json::from_str::<Value>(text).map_err(|e| e.to_string())
}

/// Takes a `serde_json::Value` apart, variant by variant; the fields of an object come
/// in the order in which `serde_json::Map` holds them. A `serde_json::Number` is an
/// unsigned integer (`as_u64`), a negative one (`as_i64`), or neither, and is then kept
/// by the text that it displays.
#[verifier::external_body]
fn open_value<'a>(value: &'a Value) -> (opened: Opened<'a>)
    ensures
        opened_model(opened) == value_model(*value),
{
    match value {
        Value::Null => Opened::Null,
        Value::Bool(b) => Opened::Bool(*b),
        Value::Number(n) => Opened::Number(match (n.as_u64(), n.as_i64()) {
            (Some(u), _) => JsonNumber::Unsigned(u),
            (None, Some(i)) => JsonNumber::Signed(i),
            (None, None) => JsonNumber::Decimal(Decimal { text: n.to_string() }),
        }),
        Value::String(text) => Opened::Text(text),
        Value::Array(items) => Opened::List(items),
        Value::Object(map) => Opened::Object(map.iter().collect()),
    }
}

/// Puts a `serde_json::Value` together, variant by variant. `Value::from` stores a signed
/// integer that is not negative as an unsigned one. A decimal text is parsed as a
/// `serde_json::Number`. The fields of an object go into a `serde_json::Map`, a
/// `BTreeMap` by name, which keeps the last value of each name, in the order of `String`:
/// that of the bytes.
#[verifier::external_body]
fn close_value(parts: Parts) -> (value: Value)
    ensures
        value_model(value) == (match parts {
            Parts::Null => JsonModel::Null,
            Parts::Bool(b) => JsonModel::Bool(b),
            Parts::Unsigned(n) => JsonModel::Unsigned(n),
            Parts::Signed(n) => signed_model(n),
            Parts::Decimal(text) => decimal_stored(text@),
            Parts::Text(text) => JsonModel::Text(text@),
            Parts::List(items) => JsonModel::List(items@.map_values(|item: Value| value_model(item))),
            Parts::Object(fields) => JsonModel::Object(
                fields_stored(
                    fields@.map_values(|field: (String, Value)| (field.0@, value_model(field.1))),
                ),
            ),
        }),
{
    match parts {
        Parts::Null => Value::Null,
        Parts::Bool(b) => Value::Bool(b),
        Parts::Unsigned(n) => Value::from(n),
        Parts::Signed(n) => Value::from(n),
        Parts::Decimal(text) => text.parse().map_or(Value::Null, Value::Number),
        Parts::Text(text) => Value::String(text),
        Parts::List(items) => Value::Array(items),
        Parts::Object(fields) => Value::Object(fields.into_iter().collect()),
    }
}

/// Moves the contents of a `serde_json` value over.
fn from_value(value: &Value) -> (json: Json)
    ensures
        json@ == value_model(*value),
    decreases value_model(*value),
{
    match open_value(value) {
        Opened::Null => Json::Null,
        Opened::Bool(b) => Json::Bool(b),
        Opened::Number(number) => Json::Number(number),
        Opened::Text(text) => Json::Text(text.clone()),
        Opened::List(items) => {
            let ghost all = items@.map_values(|item: Value| value_model(item));
            let mut moved: Vec<Json> = Vec::new();
            let mut i: usize = 0;
            while i < items.len()
                invariant
                    i <= items@.len(),
                    all == items@.map_values(|item: Value| value_model(item)),
                    value_model(*value) == JsonModel::List(all),
                    moved@.len() == i,
                    forall|k: int| 0 <= k < i ==> (#[trigger] moved@[k])@ == all[k],
                decreases items@.len() - i,
            {
                let item = &items[i];
                assert(all[i as int] == value_model(*item));
                let ghost model = value_model(*value);
                assert(decreases_to!(model => model->List_0));
                assert(decreases_to!(model->List_0 => (model->List_0)[i as int]));
                moved.push(from_value(item));
                i = i + 1;
            }
            let json = Json::List(moved);
            assert(json@->List_0 =~= all);
            json
        },
        Opened::Object(fields) => {
            let ghost all = fields@.map_values(|field: (&String, &Value)| (field.0@, value_model(*field.1)));
            let mut moved: Vec<(String, Json)> = Vec::new();
            let mut i: usize = 0;
            while i < fields.len()
                invariant
                    i <= fields@.len(),
                    all == fields@.map_values(|field: (&String, &Value)| (field.0@, value_model(*field.1))),
                    value_model(*value) == JsonModel::Object(all),
                    moved@.len() == i,
                    forall|k: int|
                        0 <= k < i ==> (#[trigger] moved@[k]).0@ == all[k].0 && moved@[k].1@ == all[k].1,
                decreases fields@.len() - i,
            {
                let (name, item) = fields[i];
                assert(all[i as int].1 == value_model(*item));
                let ghost model = value_model(*value);
                assert(decreases_to!(model => model->Object_0));
                assert(decreases_to!(model->Object_0 => (model->Object_0)[i as int]));
                assert(decreases_to!((model->Object_0)[i as int] => (model->Object_0)[i as int].1));
                moved.push((name.clone(), from_value(item)));
                i = i + 1;
            }
            let json = Json::Object(moved);
            assert(json@->Object_0 =~= all);
            json
        },
    }
}

/// What a `serde_json` value made from a value holds: the fields of its objects are in
/// order, and its numbers are `serde_json` numbers.
pub open spec fn stored(model: JsonModel) -> JsonModel
    decreases model,
{
    match model {
        JsonModel::Negative(n) => signed_model(n),
        JsonModel::Decimal(text) => decimal_stored(text),
        JsonModel::List(items) => JsonModel::List(
            Seq::new(
                items.len(),
                |i: int|
                    if 0 <= i < items.len() {
                        stored(items[i])
                    } else {
                        JsonModel::Null
                    },
            ),
        ),
        JsonModel::Object(fields) => JsonModel::Object(fields_stored(stored_each(fields))),
        other => other,
    }
}

/// The fields, each with what a `serde_json` value made from its value holds.
pub open spec fn stored_each(fields: Seq<(Seq<char>, JsonModel)>) -> Seq<(Seq<char>, JsonModel)>
    decreases fields,
{
    Seq::new(
        fields.len(),
        |i: int|
            if 0 <= i < fields.len() {
                (fields[i].0, stored(fields[i].1))
            } else {
                (Seq::<char>::empty(), JsonModel::Null)
            },
    )
}

/// Builds a `serde_json` value from a value.
fn to_value(json: &Json) -> (value: Value)
    ensures
        value_model(value) == stored(json@),
    decreases json,
{
    match json {
        Json::Null => close_value(Parts::Null),
        Json::Bool(b) => close_value(Parts::Bool(*b)),
        Json::Number(JsonNumber::Unsigned(n)) => close_value(Parts::Unsigned(*n)),
        Json::Number(JsonNumber::Signed(n)) => close_value(Parts::Signed(*n)),
        Json::Number(JsonNumber::Decimal(decimal)) => close_value(Parts::Decimal(decimal.text.clone())),
        Json::Text(text) => close_value(Parts::Text(text.clone())),
        Json::List(items) => {
            let mut made: Vec<Value> = Vec::new();
            let mut i: usize = 0;
            while i < items.len()
                invariant
                    *json matches Json::List(own) && own == items,
                    i <= items@.len(),
                    made@.len() == i,
                    forall|k: int| 0 <= k < i ==> value_model(#[trigger] made@[k]) == stored(items@[k]@),
                decreases items@.len() - i,
            {
                let item = &items[i];
                assert(decreases_to!(*json => *item));
                made.push(to_value(item));
                i = i + 1;
            }
            let ghost held = made@.map_values(|item: Value| value_model(item));
            assert(held =~= stored(json@)->List_0);
            close_value(Parts::List(made))
        },
        Json::Object(fields) => {
            let mut made: Vec<(String, Value)> = Vec::new();
            let mut i: usize = 0;
            while i < fields.len()
                invariant
                    *json matches Json::Object(own) && own == fields,
                    i <= fields@.len(),
                    made@.len() == i,
                    forall|k: int|
                        0 <= k < i ==> (#[trigger] made@[k]).0@ == fields@[k].0@ && value_model(made@[k].1)
                            == stored(fields@[k].1@),
                decreases fields@.len() - i,
            {
                let field = &fields[i];
                assert(decreases_to!(*json => field.1));
                made.push((field.0.clone(), to_value(&field.1)));
                i = i + 1;
            }
            let ghost held = made@.map_values(|field: (String, Value)| (field.0@, value_model(field.1)));
            assert(held =~= stored_each(json@->Object_0));
            close_value(Parts::Object(made))
        },
    }
}

/// Calls `serde_json::Value::to_string`, the compact text of a value, which follows
/// from what the value holds.
#[verifier::external_body]
fn value_text(value: &Value) -> (text: String)
    ensures
        text@ == json_text(value_model(*value)),
{
    value.to_string()
}

/// Parses a JSON text.
pub fn parse_json(text: &str) -> (json: Result<Json, String>)
    ensures
        match json {
            Ok(value) => json_parsed(text@) == Ok::<JsonModel, Seq<char>>(value@),
            Err(reason) => json_parsed(text@) == Err::<JsonModel, Seq<char>>(reason@),
        },
{
    match parse_value(text) {
        Ok(value) => Ok(from_value(&value)),
        Err(reason) => Err(reason),
    }
}

/// The compact JSON text that a value is written as.
pub open spec fn rendered(model: JsonModel) -> Seq<char> {
    json_text(stored(model))
}

/// Writes a value as compact JSON text.
pub fn render_json(json: &Json) -> (text: String)
    ensures
        text@ == rendered(json@),
{
    value_text(&to_value(json))
}

/// The compact JSON text that a value is written as where the fields of its objects keep
/// their order.
pub open spec fn text_in_order(model: JsonModel) -> Seq<char>
    decreases model, 0nat,
{
    match model {
        JsonModel::List(items) => "["@ + items_in_order(items, items.len()) + "]"@,
        JsonModel::Object(fields) => "{"@ + fields_in_order(fields, fields.len()) + "}"@,
        other => rendered(other),
    }
}

/// The text of the first `n` items, with commas between them.
pub open spec fn items_in_order(items: Seq<JsonModel>, n: nat) -> Seq<char>
    decreases items, n,
{
    if n == 0 || n > items.len() {
        Seq::empty()
    } else {
        let earlier = if n == 1 {
            Seq::empty()
        } else {
            items_in_order(items, (n - 1) as nat) + ","@
        };
        earlier + text_in_order(items[n - 1])
    }
}

/// The text of the first `n` fields, with commas between them.
pub open spec fn fields_in_order(fields: Seq<(Seq<char>, JsonModel)>, n: nat) -> Seq<char>
    decreases fields, n,
{
    if n == 0 || n > fields.len() {
        Seq::empty()
    } else {
        let earlier = if n == 1 {
            Seq::empty()
        } else {
            fields_in_order(fields, (n - 1) as nat) + ","@
        };
        earlier + rendered(JsonModel::Text(fields[n - 1].0)) + ":"@ + text_in_order(fields[n - 1].1)
    }
}

/// Writes a value as compact JSON text, the fields of its objects in the order in which
/// they stand.
pub fn render_in_order(json: &Json) -> (text: String)
    ensures
        text@ == text_in_order(json@),
    decreases json,
{
    match json {
        Json::List(items) => {
            let ghost all = models(items@);
            proof {
                lemma_model_of_parts(*json);
            }
            let mut inner = String::from_str("");
            let mut i: usize = 0;
            proof {
                reveal_strlit("");
                assert(inner@ =~= items_in_order(all, 0));
            }
            while i < items.len()
                invariant
                    *json matches Json::List(own) && own == items,
                    all == models(items@),
                    i <= items@.len(),
                    inner@ == items_in_order(all, i as nat),
                decreases items@.len() - i,
            {
                let item = &items[i];
                assert(decreases_to!(*json => *item));
                assert(all[i as int] == item@);
                if i > 0 {
                    inner.append(",");
                }
                inner.append(render_in_order(item).as_str());
                i = i + 1;
                assert(inner@ =~= items_in_order(all, i as nat));
            }
            let mut text = String::from_str("[");
            text.append(inner.as_str());
            text.append("]");
            text
        },
        Json::Object(fields) => {
            let ghost all = field_models(fields@);
            proof {
                lemma_model_of_parts(*json);
            }
            let mut inner = String::from_str("");
            let mut i: usize = 0;
            proof {
                reveal_strlit("");
                assert(inner@ =~= fields_in_order(all, 0));
            }
            while i < fields.len()
                invariant
                    *json matches Json::Object(own) && own == fields,
                    all == field_models(fields@),
                    i <= fields@.len(),
                    inner@ == fields_in_order(all, i as nat),
                decreases fields@.len() - i,
            {
                let field = &fields[i];
                assert(decreases_to!(*json => field.1));
                assert(all[i as int] == (field.0@, field.1@));
                if i > 0 {
                    inner.append(",");
                }
                inner.append(render_json(&text(field.0.as_str())).as_str());
                inner.append(":");
                inner.append(render_in_order(&field.1).as_str());
                i = i + 1;
                assert(inner@ =~= fields_in_order(all, i as nat));
            }
            let mut text = String::from_str("{");
            text.append(inner.as_str());
            text.append("}");
            text
        },
        _ => render_json(json),
    }
}

impl Clone for Json {
    fn clone(&self) -> (copy: Self)
        ensures
            copy@ == self@,
        decreases self,
    {
        match self {
            Json::Null => Json::Null,
            Json::Bool(b) => Json::Bool(*b),
            Json::Number(JsonNumber::Unsigned(n)) => Json::Number(JsonNumber::Unsigned(*n)),
            Json::Number(JsonNumber::Signed(n)) => Json::Number(JsonNumber::Signed(*n)),
            Json::Number(JsonNumber::Decimal(decimal)) => Json::Number(
                JsonNumber::Decimal(Decimal { text: decimal.text.clone() }),
            ),
            Json::Text(text) => Json::Text(text.clone()),
            Json::List(items) => {
                let mut copies: Vec<Json> = Vec::new();
                let mut i: usize = 0;
                while i < items.len()
                    invariant
                        *self matches Json::List(own) && own == items,
                        i <= items@.len(),
                        copies@.len() == i,
                        forall|k: int| 0 <= k < i ==> (#[trigger] copies@[k])@ == items@[k]@,
                    decreases items@.len() - i,
                {
                    let item = &items[i];
                    assert(decreases_to!(*self => *item));
                    copies.push(item.clone());
                    i = i + 1;
                }
                let copy = Json::List(copies);
                assert(copy@->List_0 =~= self@->List_0);
                copy
            },
            Json::Object(fields) => {
                let mut copies: Vec<(String, Json)> = Vec::new();
                let mut i: usize = 0;
                while i < fields.len()
                    invariant
                        *self matches Json::Object(own) && own == fields,
                        i <= fields@.len(),
                        copies@.len() == i,
                        forall|k: int|
                            0 <= k < i ==> (#[trigger] copies@[k]).0@ == fields@[k].0@ && copies@[k].1@
                                == fields@[k].1@,
                    decreases fields@.len() - i,
                {
                    let field = &fields[i];
                    assert(decreases_to!(*self => field.1));
                    copies.push((field.0.clone(), field.1.clone()));
                    i = i + 1;
                }
                let copy = Json::Object(copies);
                assert(copy@->Object_0 =~= self@->Object_0);
                copy
            },
        }
    }
}

/// What an optional reference to a value is.
pub open spec fn found_model(found: Option<&Json>) -> Option<JsonModel> {
    match found {
        Some(value) => Some(value@),
        None => None,
    }
}

impl Json {
    /// The field `key` of an object; anything else has no fields.
    pub fn get(&self, key: &str) -> (found: Option<&Json>)
        ensures
            found_model(found) == self@.field(key@),
    {
        match self {
            Json::Object(fields) => {
                proof {
                    lemma_model_of_parts(*self);
                }
                let ghost all = field_models(fields@);
                let mut i: usize = 0;
                assert(all.skip(0) =~= all);
                while i < fields.len()
                    invariant
                        i <= fields@.len(),
                        all == field_models(fields@),
                        self@ == JsonModel::Object(all),
                        field_named(all.skip(i as int), key@) == field_named(all, key@),
                    decreases fields@.len() - i,
                {
                    assert(all.skip(i as int)[0] == (fields@[i as int].0@, fields@[i as int].1@));
                    if crate::text::same(fields[i].0.as_str(), key) {
                        return Some(&fields[i].1);
                    }
                    assert(all.skip(i as int).drop_first() =~= all.skip(i + 1));
                    i = i + 1;
                }
                assert(all.skip(i as int) =~= Seq::<(Seq<char>, JsonModel)>::empty());
                None
            },
            _ => None,
        }
    }

    /// The text, if this is a text.
    pub fn as_str(&self) -> (text: Option<&str>)
        ensures
            crate::text::slice_text_of(text) == self@.as_text(),
    {
        match self {
            Json::Text(text) => Some(text.as_str()),
            _ => None,
        }
    }

    /// The number, if this is a non-negative integer.
    pub fn as_u64(&self) -> (number: Option<u64>)
        ensures
            number == self@.as_number(),
    {
        match self {
            Json::Number(JsonNumber::Unsigned(n)) => Some(*n),
            Json::Number(JsonNumber::Signed(n)) => if *n < 0 {
                None
            } else {
                Some(*n as u64)
            },
            _ => None,
        }
    }

    /// The items, if this is a list.
    pub fn as_array(&self) -> (items: Option<&Vec<Json>>)
        ensures
            items is Some <==> self@.as_list() is Some,
            items is Some ==> models(items->Some_0@) == self@.as_list()->Some_0,
    {
        match self {
            Json::List(items) => {
                proof {
                    lemma_model_of_parts(*self);
                }
                Some(items)
            },
            _ => None,
        }
    }

    /// The text of the field `key`, if it is there and a text.
    pub fn text_field(&self, key: &str) -> (text: Option<&str>)
        ensures
            crate::text::slice_text_of(text) == self@.text_field(key@),
    {
        match self.get(key) {
            Some(value) => value.as_str(),
            None => None,
        }
    }

    /// The number in the field `key`, if it is there and a non-negative integer.
    pub fn number_field(&self, key: &str) -> (number: Option<u64>)
        ensures
            number == self@.number_field(key@),
    {
        match self.get(key) {
            Some(value) => value.as_u64(),
            None => None,
        }
    }

    /// The items of the field `key`, if it is there and a list.
    pub fn list_field(&self, key: &str) -> (items: Option<&Vec<Json>>)
        ensures
            items is Some <==> self@.list_field(key@) is Some,
            items is Some ==> models(items->Some_0@) == self@.list_field(key@)->Some_0,
    {
        match self.get(key) {
            Some(value) => value.as_array(),
            None => None,
        }
    }
}

/// A text value.
pub fn text(s: &str) -> (json: Json)
    ensures
        json@ == JsonModel::Text(s@),
{
    Json::Text(s.to_owned())
}

/// A non-negative integer value.
pub fn number(n: u64) -> (json: Json)
    ensures
        json@ == JsonModel::Unsigned(n),
{
    Json::Number(JsonNumber::Unsigned(n))
}

/// What an optional text is: `null` if there is none.
pub open spec fn optional_model(text: Option<Seq<char>>) -> JsonModel {
    match text {
        Some(t) => JsonModel::Text(t),
        None => JsonModel::Null,
    }
}

/// A text value, or `null`.
pub fn optional_text(value: &Option<String>) -> (json: Json)
    ensures
        json@ == optional_model(text_of(*value)),
{
    match value {
        Some(held) => text(held.as_str()),
        None => Json::Null,
    }
}

/// A list of `items`.
pub fn list(items: Vec<Json>) -> (json: Json)
    ensures
        json@ == JsonModel::List(models(items@)),
{
    let json = Json::List(items);
    proof {
        lemma_model_of_parts(json);
    }
    json
}

/// A field called `key`.
pub fn field(key: &str, value: Json) -> (field: (String, Json))
    ensures
        field.0@ == key@,
        field.1 == value,
{
    (key.to_owned(), value)
}

/// An object without fields.
pub fn object0() -> (json: Json)
    ensures
        json@ == JsonModel::Object(Seq::empty()),
{
    let json = Json::Object(Vec::new());
    proof {
        lemma_model_of_parts(json);
        assert(json@->Object_0 =~= Seq::<(Seq<char>, JsonModel)>::empty());
    }
    json
}

/// An object with one field.
pub fn object1(a: (String, Json)) -> (json: Json)
    ensures
        json@ == JsonModel::Object(seq![(a.0@, a.1@)]),
{
    let json = Json::Object(vec![a]);
    proof {
        lemma_model_of_parts(json);
        assert(json@->Object_0 =~= seq![(a.0@, a.1@)]);
    }
    json
}

/// An object with two fields.
pub fn object2(a: (String, Json), b: (String, Json)) -> (json: Json)
    ensures
        json@ == JsonModel::Object(seq![(a.0@, a.1@), (b.0@, b.1@)]),
{
    let json = Json::Object(vec![a, b]);
    proof {
        lemma_model_of_parts(json);
        assert(json@->Object_0 =~= seq![(a.0@, a.1@), (b.0@, b.1@)]);
    }
    json
}

/// An object with three fields.
pub fn object3(a: (String, Json), b: (String, Json), c: (String, Json)) -> (json: Json)
    ensures
        json@ == JsonModel::Object(seq![(a.0@, a.1@), (b.0@, b.1@), (c.0@, c.1@)]),
{
    let json = Json::Object(vec![a, b, c]);
    proof {
        lemma_model_of_parts(json);
        assert(json@->Object_0 =~= seq![(a.0@, a.1@), (b.0@, b.1@), (c.0@, c.1@)]);
    }
    json
}

/// An object with four fields.
pub fn object4(a: (String, Json), b: (String, Json), c: (String, Json), d: (String, Json)) -> (json: Json)
    ensures
        json@ == JsonModel::Object(seq![(a.0@, a.1@), (b.0@, b.1@), (c.0@, c.1@), (d.0@, d.1@)]),
{
    let json = Json::Object(vec![a, b, c, d]);
    proof {
        lemma_model_of_parts(json);
        assert(json@->Object_0 =~= seq![(a.0@, a.1@), (b.0@, b.1@), (c.0@, c.1@), (d.0@, d.1@)]);
    }
    json
}

/// An object with five fields.
pub fn object5(
    a: (String, Json),
    b: (String, Json),
    c: (String, Json),
    d: (String, Json),
    e: (String, Json),
) -> (json: Json)
    ensures
        json@ == JsonModel::Object(
            seq![(a.0@, a.1@), (b.0@, b.1@), (c.0@, c.1@), (d.0@, d.1@), (e.0@, e.1@)],
        ),
{
    let json = Json::Object(vec![a, b, c, d, e]);
    proof {
        lemma_model_of_parts(json);
        assert(json@->Object_0 =~= seq![
            (a.0@, a.1@),
            (b.0@, b.1@),
            (c.0@, c.1@),
            (d.0@, d.1@),
            (e.0@, e.1@),
        ]);
    }
    json
}

/// An object with these fields.
pub fn object(fields: Vec<(String, Json)>) -> (json: Json)
    ensures
        json@ == JsonModel::Object(field_models(fields@)),
{
    let json = Json::Object(fields);
    proof {
        lemma_model_of_parts(json);
    }
    json
}

/// The field of a name is the first one that has it.
pub proof fn law_field_is_the_first_of_its_name(
    fields: Seq<(Seq<char>, JsonModel)>,
    key: Seq<char>,
    i: int,
)
    requires
        0 <= i < fields.len(),
        fields[i].0 == key,
        forall|k: int| 0 <= k < i ==> (#[trigger] fields[k]).0 != key,
    ensures
        field_named(fields, key) == Some(fields[i].1),
        JsonModel::Object(fields).field(key) == Some(fields[i].1),
    decreases i,
{
    if i > 0 {
        let rest = fields.drop_first();
        assert(fields[0].0 != key);
        assert forall|k: int| 0 <= k < i - 1 implies (#[trigger] rest[k]).0 != key by {
            assert(rest[k] == fields[k + 1]);
        }
        law_field_is_the_first_of_its_name(rest, key, i - 1);
    }
}

/// A name that no field has gives none, and a value that is no object has no fields.
pub proof fn law_absent_field_is_not_found(fields: Seq<(Seq<char>, JsonModel)>, key: Seq<char>, other: JsonModel)
    requires
        forall|k: int| 0 <= k < fields.len() ==> (#[trigger] fields[k]).0 != key,
        other !is Object,
    ensures
        JsonModel::Object(fields).field(key) is None,
        other.field(key) is None,
    decreases fields.len(),
{
    if fields.len() > 0 {
        let rest = fields.drop_first();
        assert(fields[0].0 != key);
        assert forall|k: int| 0 <= k < rest.len() implies (#[trigger] rest[k]).0 != key by {
            assert(rest[k] == fields[k + 1]);
        }
        law_absent_field_is_not_found(rest, key, other);
    }
}

/// A field is read as a text, a number or a list exactly if it holds one.
pub proof fn law_fields_are_read_by_their_type(
    model: JsonModel,
    key: Seq<char>,
    text: Seq<char>,
    n: u64,
    items: Seq<JsonModel>,
)
    ensures
        model.text_field(key) == Some(text) <==> model.field(key) == Some(JsonModel::Text(text)),
        model.number_field(key) == Some(n) <==> model.field(key) == Some(JsonModel::Unsigned(n)),
        model.list_field(key) == Some(items) <==> model.field(key) == Some(JsonModel::List(items)),
{
}

proof fn lemma_with_field(
    fields: Seq<(Seq<char>, JsonModel)>,
    name: Seq<char>,
    value: JsonModel,
    key: Seq<char>,
)
    ensures
        field_named(with_field(fields, name, value), key) == (if key == name {
            Some(value)
        } else {
            field_named(fields, key)
        }),
    decreases fields.len(),
{
    let all = with_field(fields, name, value);
    if fields.len() == 0 || bytes_before(
        vstd::utf8::encode_utf8(name),
        vstd::utf8::encode_utf8(fields[0].0),
    ) {
        assert(all.drop_first() =~= fields);
    } else if fields[0].0 == name {
        assert(all.drop_first() =~= fields.drop_first());
    } else {
        lemma_with_field(fields.drop_first(), name, value, key);
        assert(all.drop_first() =~= with_field(fields.drop_first(), name, value));
    }
}

/// An object that is written keeps, of each name, the last field that has it.
pub proof fn law_last_field_is_written(fields: Seq<(Seq<char>, JsonModel)>, i: int)
    requires
        0 <= i < fields.len(),
        forall|k: int| i < k < fields.len() ==> (#[trigger] fields[k]).0 != fields[i].0,
    ensures
        stored(JsonModel::Object(fields)).field(fields[i].0) == Some(stored(fields[i].1)),
{
    let each = stored_each(fields);
    assert(each[i] == (fields[i].0, stored(fields[i].1)));
    assert forall|k: int| i < k < each.len() implies (#[trigger] each[k]).0 != each[i].0 by {
        assert(fields[k].0 != fields[i].0);
    }
    lemma_last_field(each, i);
}

proof fn lemma_last_field(fields: Seq<(Seq<char>, JsonModel)>, i: int)
    requires
        0 <= i < fields.len(),
        forall|k: int| i < k < fields.len() ==> (#[trigger] fields[k]).0 != fields[i].0,
    ensures
        field_named(fields_stored(fields), fields[i].0) == Some(fields[i].1),
    decreases fields.len(),
{
    let shorter = fields.drop_last();
    lemma_with_field(fields_stored(shorter), fields.last().0, fields.last().1, fields[i].0);
    if i < fields.len() - 1 {
        assert(fields[fields.len() - 1].0 != fields[i].0);
        assert forall|k: int| i < k < shorter.len() implies (#[trigger] shorter[k]).0 != shorter[i].0 by {
            assert(shorter[k] == fields[k]);
        }
        lemma_last_field(shorter, i);
    }
}

/// What is written of a list is each of its items, in order; texts, booleans, null and
/// non-negative integers are written as they are.
pub proof fn law_values_are_written_as_they_are(model: JsonModel)
    ensures
        model matches JsonModel::List(items) ==> stored(model) matches JsonModel::List(written)
            && written.len() == items.len() && forall|i: int|
            0 <= i < items.len() ==> #[trigger] written[i] == stored(items[i]),
        model is Text || model is Bool || model is Null || model is Unsigned ==> stored(model) == model,
        model matches JsonModel::Negative(n) && n < 0 ==> stored(model) == model,
{
}

/// In a text that keeps the order of fields, each field follows those before it after a
/// comma, its name, a colon and its value.
pub proof fn law_fields_are_written_in_order(fields: Seq<(Seq<char>, JsonModel)>, name: Seq<char>, value: JsonModel)
    ensures
        text_in_order(JsonModel::Object(fields)) == "{"@ + fields_in_order(fields, fields.len()) + "}"@,
        fields_in_order(seq![], 0) == Seq::<char>::empty(),
        fields_in_order(seq![(name, value)], 1) == rendered(JsonModel::Text(name)) + ":"@ + text_in_order(value),
        fields.len() > 0 ==> fields_in_order(fields.push((name, value)), fields.len() + 1) == fields_in_order(
            fields,
            fields.len(),
        ) + ","@ + rendered(JsonModel::Text(name)) + ":"@ + text_in_order(value),
{
    let one = seq![(name, value)];
    assert(fields_in_order(one, 1) =~= rendered(JsonModel::Text(name)) + ":"@ + text_in_order(value)) by {
        assert(Seq::<char>::empty() + rendered(JsonModel::Text(name)) =~= rendered(JsonModel::Text(name)));
    }
    if fields.len() > 0 {
        let longer = fields.push((name, value));
        lemma_fields_in_order_prefix(fields, (name, value), fields.len());
        assert(longer[fields.len() as int] == (name, value));
    }
}

proof fn lemma_fields_in_order_prefix(
    fields: Seq<(Seq<char>, JsonModel)>,
    last: (Seq<char>, JsonModel),
    n: nat,
)
    requires
        n <= fields.len(),
    ensures
        fields_in_order(fields.push(last), n) == fields_in_order(fields, n),
    decreases n,
{
    if n > 0 {
        lemma_fields_in_order_prefix(fields, last, (n - 1) as nat);
        assert(fields.push(last)[n - 1] == fields[n - 1]);
    }
}

/// A list is written between brackets, its items in order with commas between them.
pub proof fn law_items_are_written_in_order(items: Seq<JsonModel>, item: JsonModel)
    ensures
        text_in_order(JsonModel::List(items)) == "["@ + items_in_order(items, items.len()) + "]"@,
        items_in_order(seq![], 0) == Seq::<char>::empty(),
        items_in_order(seq![item], 1) == text_in_order(item),
        items.len() > 0 ==> items_in_order(items.push(item), items.len() + 1) == items_in_order(
            items,
            items.len(),
        ) + ","@ + text_in_order(item),
        item !is List && item !is Object ==> text_in_order(item) == rendered(item),
{
    assert(items_in_order(seq![item], 1) =~= text_in_order(item));
    if items.len() > 0 {
        lemma_items_in_order_prefix(items, item, items.len());
        assert(items.push(item)[items.len() as int] == item);
    }
}

proof fn lemma_items_in_order_prefix(items: Seq<JsonModel>, last: JsonModel, n: nat)
    requires
        n <= items.len(),
    ensures
        items_in_order(items.push(last), n) == items_in_order(items, n),
    decreases n,
{
    if n > 0 {
        lemma_items_in_order_prefix(items, last, (n - 1) as nat);
        assert(items.push(last)[n - 1] == items[n - 1]);
    }
}

/// An integer is the same number whether it is held with a sign or without one.
pub proof fn law_integers_have_one_model(n: i64)
    ensures
        n >= 0 ==> number_model(JsonNumber::Signed(n)) == number_model(JsonNumber::Unsigned(n as u64)),
        n < 0 ==> number_model(JsonNumber::Signed(n)) == JsonModel::Negative(n),
        number_model(JsonNumber::Unsigned(n as u64)).as_number() == Some(n as u64),
        n < 0 ==> number_model(JsonNumber::Signed(n)).as_number() is None,
{
}

proof fn lemma_bytes_order(a: Seq<u8>, b: Seq<u8>)
    ensures
        a != b ==> bytes_before(a, b) || bytes_before(b, a),
        !(bytes_before(a, b) && bytes_before(b, a)),
        !bytes_before(a, a),
    decreases a.len(),
{
    if a.len() > 0 && b.len() > 0 {
        lemma_bytes_order(a.drop_first(), b.drop_first());
        lemma_bytes_order(a.drop_first(), a.drop_first());
        if a[0] == b[0] && a.drop_first() == b.drop_first() {
            assert(a =~= seq![a[0]] + a.drop_first());
            assert(b =~= seq![b[0]] + b.drop_first());
        }
    } else if a.len() > 0 {
        lemma_bytes_order(a.drop_first(), a.drop_first());
    } else if b.len() == 0 {
        assert(a =~= b);
    }
}

proof fn lemma_bytes_order_chain(a: Seq<u8>, b: Seq<u8>, c: Seq<u8>)
    requires
        bytes_before(a, b),
        bytes_before(b, c),
    ensures
        bytes_before(a, c),
    decreases a.len(),
{
    if a.len() > 0 && a[0] == b[0] && b[0] == c[0] {
        lemma_bytes_order_chain(a.drop_first(), b.drop_first(), c.drop_first());
    }
}

/// Names come in the order of their bytes, each once.
pub open spec fn in_name_order(fields: Seq<(Seq<char>, JsonModel)>) -> bool {
    forall|i: int, j: int|
        0 <= i < j < fields.len() ==> bytes_before(
            vstd::utf8::encode_utf8((#[trigger] fields[i]).0),
            vstd::utf8::encode_utf8((#[trigger] fields[j]).0),
        )
}

proof fn lemma_with_field_keeps_order(fields: Seq<(Seq<char>, JsonModel)>, name: Seq<char>, value: JsonModel)
    requires
        in_name_order(fields),
    ensures
        in_name_order(with_field(fields, name, value)),
        forall|k: int|
            0 <= k < with_field(fields, name, value).len() ==> (#[trigger] with_field(fields, name, value)[k]).0
                == name || exists|i: int|
                0 <= i < fields.len() && (#[trigger] fields[i]).0 == with_field(fields, name, value)[k].0,
    decreases fields.len(),
{
    let all = with_field(fields, name, value);
    let key = vstd::utf8::encode_utf8(name);
    if fields.len() == 0 || bytes_before(key, vstd::utf8::encode_utf8(fields[0].0)) {
        assert forall|i: int, j: int| 0 <= i < j < all.len() implies bytes_before(
            vstd::utf8::encode_utf8((#[trigger] all[i]).0),
            vstd::utf8::encode_utf8((#[trigger] all[j]).0),
        ) by {
            assert(all[j] == fields[j - 1]);
            if i > 0 {
                assert(all[i] == fields[i - 1]);
            } else if j > 1 {
                lemma_bytes_order_chain(
                    key,
                    vstd::utf8::encode_utf8(fields[0].0),
                    vstd::utf8::encode_utf8(fields[j - 1].0),
                );
            }
        }
        assert forall|k: int| 0 <= k < all.len() implies (#[trigger] all[k]).0 == name || exists|i: int|
            0 <= i < fields.len() && (#[trigger] fields[i]).0 == all[k].0 by {
            if k > 0 {
                assert(fields[k - 1].0 == all[k].0);
            }
        }
    } else if fields[0].0 == name {
        assert forall|i: int, j: int| 0 <= i < j < all.len() implies bytes_before(
            vstd::utf8::encode_utf8((#[trigger] all[i]).0),
            vstd::utf8::encode_utf8((#[trigger] all[j]).0),
        ) by {
            assert(all[i].0 == fields[i].0);
            assert(all[j].0 == fields[j].0);
        }
        assert forall|k: int| 0 <= k < all.len() implies (#[trigger] all[k]).0 == name || exists|i: int|
            0 <= i < fields.len() && (#[trigger] fields[i]).0 == all[k].0 by {
            assert(fields[k].0 == all[k].0);
        }
    } else {
        let rest = fields.drop_first();
        let more = with_field(rest, name, value);
        assert(in_name_order(rest)) by {
            assert forall|i: int, j: int| 0 <= i < j < rest.len() implies bytes_before(
                vstd::utf8::encode_utf8((#[trigger] rest[i]).0),
                vstd::utf8::encode_utf8((#[trigger] rest[j]).0),
            ) by {
                assert(rest[i] == fields[i + 1]);
                assert(rest[j] == fields[j + 1]);
            }
        }
        lemma_with_field_keeps_order(rest, name, value);
        vstd::utf8::encode_utf8_decode_utf8(name);
        vstd::utf8::encode_utf8_decode_utf8(fields[0].0);
        lemma_bytes_order(key, vstd::utf8::encode_utf8(fields[0].0));
        assert forall|j: int| 0 <= j < more.len() implies bytes_before(
            vstd::utf8::encode_utf8(fields[0].0),
            vstd::utf8::encode_utf8((#[trigger] more[j]).0),
        ) by {
            if more[j].0 != name {
                let i = choose|i: int| 0 <= i < rest.len() && (#[trigger] rest[i]).0 == more[j].0;
                assert(rest[i] == fields[i + 1]);
            }
        }
        assert forall|i: int, j: int| 0 <= i < j < all.len() implies bytes_before(
            vstd::utf8::encode_utf8((#[trigger] all[i]).0),
            vstd::utf8::encode_utf8((#[trigger] all[j]).0),
        ) by {
            assert(all[j] == more[j - 1]);
            if i > 0 {
                assert(all[i] == more[i - 1]);
            }
        }
        assert forall|k: int| 0 <= k < all.len() implies (#[trigger] all[k]).0 == name || exists|i: int|
            0 <= i < fields.len() && (#[trigger] fields[i]).0 == all[k].0 by {
            if k > 0 {
                assert(all[k] == more[k - 1]);
                if more[k - 1].0 != name {
                    let i = choose|i: int| 0 <= i < rest.len() && (#[trigger] rest[i]).0 == more[k - 1].0;
                    assert(fields[i + 1].0 == all[k].0);
                }
            } else {
                assert(fields[0].0 == all[0].0);
            }
        }
    }
}

/// An object is written with its names in the order of their bytes, each once.
pub proof fn law_names_are_written_in_order(fields: Seq<(Seq<char>, JsonModel)>)
    ensures
        in_name_order(fields_stored(fields)),
        stored(JsonModel::Object(fields)) matches JsonModel::Object(kept) && in_name_order(kept),
{
    lemma_stored_order(fields);
    lemma_stored_order(stored_each(fields));
}

proof fn lemma_stored_order(fields: Seq<(Seq<char>, JsonModel)>)
    ensures
        in_name_order(fields_stored(fields)),
    decreases fields.len(),
{
    if fields.len() > 0 {
        lemma_stored_order(fields.drop_last());
        lemma_with_field_keeps_order(
            fields_stored(fields.drop_last()),
            fields.last().0,
            fields.last().1,
        );
    }
}

/// The order of names is that of their first bytes that differ, and a name comes before
/// every longer one that starts with it.
pub proof fn law_order_of_names(start: Seq<u8>, a: u8, b: u8, rest: Seq<u8>, other: Seq<u8>)
    ensures
        a < b ==> bytes_before(start + seq![a] + rest, start + seq![b] + other),
        bytes_before(start, start + seq![a] + rest),
        !bytes_before(start + rest, start),
    decreases start.len(),
{
    let first = start + seq![a] + rest;
    let second = start + seq![b] + other;
    let longer = start + rest;
    if start.len() > 0 {
        let less = start.drop_first();
        law_order_of_names(less, a, b, rest, other);
        assert(first.drop_first() =~= less + seq![a] + rest);
        assert(second.drop_first() =~= less + seq![b] + other);
        assert(longer.drop_first() =~= less + rest);
    }
}

} // verus!
