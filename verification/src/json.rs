//! JSON documents.
//!
//! [`Json`] holds a document as plain values, and [`JsonTree`] is what it stands for. Reading a
//! text and writing one is the work of `serde_json`: its `Value` is opened level by level into
//! plain values, and built from them again.

use vstd::prelude::*;
use vstd::string::*;

use crate::text::{
    comes_before, lemma_precedes_total, lemma_precedes_transitive, precedes, same_text,
};

verus! {

/// What a JSON document is: a tree of numbers, texts, arrays and objects. A number that is no
/// integer stands for itself by its numeral.
pub enum JsonTree {
    Null,
    Bool(bool),
    Integer(int),
    Float(Seq<char>),
    Text(Seq<char>),
    Array(Seq<JsonTree>),
    Object(Seq<(Seq<char>, JsonTree)>),
}

/// A JSON document.
pub enum Json {
    Null,
    Bool(bool),
    Unsigned(u64),
    Signed(i64),
    Float(JsonFloat),
    Text(String),
    Array(Vec<Json>),
    Object(JsonObject),
}

/// The fields of a JSON object, each key once and in the order of the keys.
pub struct JsonObject {
    fields: Vec<(String, Json)>,
}

/// A JSON number that is no integer of 64 bits.
pub struct JsonFloat {
    value: serde_json::Value,
}

/// The type `serde_json::Value`, opaque here.
#[verifier::external_type_specification]
#[verifier::external_body]
pub struct ExternalJsonValue(serde_json::Value);

/// The type `serde_json::Error`, opaque here.
#[verifier::external_type_specification]
#[verifier::external_body]
pub struct ExternalJsonError(serde_json::Error);

/// What a `serde_json::Value` holds.
pub uninterp spec fn json_tree(value: serde_json::Value) -> JsonTree;

/// What `serde_json::from_str` reads from a text; `None` where it fails.
pub uninterp spec fn parsed_text(text: Seq<char>) -> Option<JsonTree>;

/// What `serde_json::from_slice` reads from bytes; `None` where it fails.
pub uninterp spec fn parsed_bytes(bytes: Seq<u8>) -> Option<JsonTree>;

/// The compact text of a document, as the `Display` of `serde_json::Value` writes it.
pub uninterp spec fn json_text(tree: JsonTree) -> Seq<char>;

/// The keys of `fields` are in strictly increasing order.
pub open spec fn keys_in_order(fields: Seq<(Seq<char>, JsonTree)>) -> bool {
    forall|i: int, j: int|
        #![trigger fields[i], fields[j]]
        0 <= i < j < fields.len() ==> precedes(fields[i].0, fields[j].0)
}

/// The value that `fields` has under `key`.
pub open spec fn lookup(fields: Seq<(Seq<char>, JsonTree)>, key: Seq<char>) -> Option<JsonTree>
    decreases fields.len(),
{
    if fields.len() == 0 {
        None
    } else if fields[0].0 == key {
        Some(fields[0].1)
    } else {
        lookup(fields.drop_first(), key)
    }
}

/// `fields` with `value` under `key`, in place of what was there before.
pub open spec fn with_field(
    fields: Seq<(Seq<char>, JsonTree)>,
    key: Seq<char>,
    value: JsonTree,
) -> Seq<(Seq<char>, JsonTree)>
    decreases fields.len(),
{
    if fields.len() == 0 {
        seq![(key, value)]
    } else if fields[0].0 == key {
        seq![(key, value)] + fields.drop_first()
    } else if precedes(key, fields[0].0) {
        seq![(key, value)] + fields
    } else {
        seq![fields[0]] + with_field(fields.drop_first(), key, value)
    }
}

impl JsonTree {
    /// The value of the field `key`. Only an object has fields.
    pub open spec fn field(self, key: Seq<char>) -> Option<JsonTree> {
        match self {
            JsonTree::Object(fields) => lookup(fields, key),
            _ => None,
        }
    }

    /// The text, where the document is one.
    pub open spec fn text(self) -> Option<Seq<char>> {
        match self {
            JsonTree::Text(s) => Some(s),
            _ => None,
        }
    }

    /// The number, where the document is an integer between 0 and the largest of 64 bits.
    pub open spec fn unsigned(self) -> Option<u64> {
        match self {
            JsonTree::Integer(n) => if 0 <= n <= u64::MAX {
                Some(n as u64)
            } else {
                None
            },
            _ => None,
        }
    }

    /// The number, where the document is a signed integer of 64 bits.
    pub open spec fn signed(self) -> Option<i64> {
        match self {
            JsonTree::Integer(n) => if i64::MIN <= n <= i64::MAX {
                Some(n as i64)
            } else {
                None
            },
            _ => None,
        }
    }
}

/// The text of an optional document, where there is one and it is a text.
pub open spec fn text_of(tree: Option<JsonTree>) -> Option<Seq<char>> {
    match tree {
        Some(t) => t.text(),
        None => None,
    }
}

/// The field `key` of an optional document.
pub open spec fn field_of(tree: Option<JsonTree>, key: Seq<char>) -> Option<JsonTree> {
    match tree {
        Some(t) => t.field(key),
        None => None,
    }
}

/// What each document of a sequence stands for.
pub open spec fn trees(items: Seq<Json>) -> Seq<JsonTree> {
    Seq::new(items.len(), |i: int| items[i]@)
}

impl JsonFloat {
    #[verifier::type_invariant]
    spec fn valid(self) -> bool {
        json_tree(self.value) is Float
    }

    /// The numeral of the number.
    pub closed spec fn view(self) -> Seq<char> {
        json_tree(self.value)->Float_0
    }
}

impl JsonObject {
    #[verifier::type_invariant]
    spec fn valid(self) -> bool {
        keys_in_order(self@)
    }

    /// The fields in the order of their keys.
    pub closed spec fn view(self) -> Seq<(Seq<char>, JsonTree)>
        decreases self,
    {
        Seq::new(
            self.fields@.len(),
            |i: int|
                if 0 <= i < self.fields@.len() {
                    (self.fields@[i].0@, self.fields@[i].1@)
                } else {
                    arbitrary()
                },
        )
    }
}

impl Json {
    /// What the document stands for.
    pub open spec fn view(self) -> JsonTree
        decreases self,
    {
        match self {
            Json::Null => JsonTree::Null,
            Json::Bool(b) => JsonTree::Bool(b),
            Json::Unsigned(n) => JsonTree::Integer(n as int),
            Json::Signed(n) => JsonTree::Integer(n as int),
            Json::Float(x) => JsonTree::Float(x@),
            Json::Text(s) => JsonTree::Text(s@),
            Json::Array(items) => JsonTree::Array(
                Seq::new(
                    items@.len(),
                    |i: int|
                        if 0 <= i < items@.len() {
                            items@[i]@
                        } else {
                            arbitrary()
                        },
                ),
            ),
            Json::Object(object) => JsonTree::Object(object@),
        }
    }
}

/// What an optional document stands for.
pub open spec fn opt_tree(json: Option<&Json>) -> Option<JsonTree> {
    match json {
        Some(j) => Some(j@),
        None => None,
    }
}

/// An array stands for the sequence of what its items stand for.
pub proof fn lemma_array_view(items: Vec<Json>)
    ensures
        Json::Array(items)@ == JsonTree::Array(trees(items@)),
{
    assert(Json::Array(items)@->Array_0 =~= trees(items@));
}

/// A field that was written is read back, and the other fields are as before.
pub proof fn lemma_lookup_with_field(
    fields: Seq<(Seq<char>, JsonTree)>,
    key: Seq<char>,
    value: JsonTree,
    other: Seq<char>,
)
    ensures
        lookup(with_field(fields, key, value), key) == Some(value),
        other != key ==> lookup(with_field(fields, key, value), other) == lookup(fields, other),
    decreases fields.len(),
{
    let updated = with_field(fields, key, value);
    if fields.len() == 0 {
        assert(updated.drop_first() =~= fields);
    } else if fields[0].0 == key {
        assert(updated.drop_first() =~= fields.drop_first());
    } else if precedes(key, fields[0].0) {
        assert(updated.drop_first() =~= fields);
    } else {
        lemma_lookup_with_field(fields.drop_first(), key, value, other);
        assert(updated.drop_first() =~= with_field(fields.drop_first(), key, value));
    }
}

/// Writing a field twice is writing it the second time.
pub proof fn lemma_with_field_twice(
    fields: Seq<(Seq<char>, JsonTree)>,
    key: Seq<char>,
    first: JsonTree,
    second: JsonTree,
)
    ensures
        with_field(with_field(fields, key, first), key, second) == with_field(fields, key, second),
    decreases fields.len(),
{
    let once = with_field(fields, key, first);
    if fields.len() == 0 {
        assert(with_field(once, key, second) =~= seq![(key, second)]);
    } else if fields[0].0 == key {
        assert(once.drop_first() =~= fields.drop_first());
    } else if precedes(key, fields[0].0) {
        assert(once.drop_first() =~= fields);
    } else {
        lemma_with_field_twice(fields.drop_first(), key, first, second);
        assert(once.drop_first() =~= with_field(fields.drop_first(), key, first));
    }
}

/// Where the keys are in order, a field that was written stands at its place: what is smaller
/// comes before it, and what is larger behind it.
proof fn lemma_with_field_at(
    fields: Seq<(Seq<char>, JsonTree)>,
    key: Seq<char>,
    value: JsonTree,
    at: int,
)
    requires
        0 <= at <= fields.len(),
        forall|i: int| 0 <= i < at ==> precedes((#[trigger] fields[i]).0, key),
        at < fields.len() ==> !precedes(fields[at].0, key),
    ensures
        at < fields.len() && fields[at].0 == key ==> {
            &&& with_field(fields, key, value) == fields.update(at, (key, value))
            &&& lookup(fields, key) == Some(fields[at].1)
        },
        at == fields.len() || fields[at].0 != key ==> with_field(fields, key, value)
            == fields.insert(at, (key, value)),
    decreases fields.len(),
{
    if fields.len() == 0 {
        assert(fields.insert(at, (key, value)) =~= seq![(key, value)]);
    } else if at == 0 {
        lemma_precedes_total(key, fields[0].0);
        assert(fields.insert(at, (key, value)) =~= seq![(key, value)] + fields);
        assert(fields.update(at, (key, value)) =~= seq![(key, value)] + fields.drop_first());
    } else {
        let rest = fields.drop_first();
        assert(precedes(fields[0].0, key));
        lemma_precedes_total(key, fields[0].0);
        assert forall|i: int| 0 <= i < at - 1 implies precedes((#[trigger] rest[i]).0, key) by {
            assert(precedes(fields[i + 1].0, key));
        }
        lemma_with_field_at(rest, key, value, at - 1);
        if at < fields.len() && fields[at].0 == key {
            assert(fields.update(at, (key, value)) =~= seq![fields[0]] + rest.update(
                at - 1,
                (key, value),
            ));
        } else {
            assert(fields.insert(at, (key, value)) =~= seq![fields[0]] + rest.insert(
                at - 1,
                (key, value),
            ));
        }
    }
}

/// A lookup finds the first field with the key, and nothing where there is none.
pub proof fn lemma_lookup_at(fields: Seq<(Seq<char>, JsonTree)>, key: Seq<char>, at: int)
    requires
        0 <= at <= fields.len(),
        forall|i: int| 0 <= i < at ==> (#[trigger] fields[i]).0 != key,
    ensures
        at == fields.len() ==> lookup(fields, key) is None,
        at < fields.len() && fields[at].0 == key ==> lookup(fields, key) == Some(fields[at].1),
    decreases fields.len(),
{
    if at > 0 {
        let rest = fields.drop_first();
        assert(fields[0].0 != key);
        assert forall|i: int| 0 <= i < at - 1 implies (#[trigger] rest[i]).0 != key by {
            assert(fields[i + 1].0 != key);
        }
        lemma_lookup_at(rest, key, at - 1);
    }
}

/// One level of a document, as `serde_json` holds what lies below.
enum Shape {
    Null,
    Bool(bool),
    Unsigned(u64),
    Signed(i64),
    Float(serde_json::Value),
    Text(String),
    Array(Vec<serde_json::Value>),
    Object(Vec<(String, serde_json::Value)>),
}

spec fn shape_fields(fields: Seq<(String, serde_json::Value)>) -> Seq<(Seq<char>, JsonTree)> {
    Seq::new(fields.len(), |i: int| (fields[i].0@, json_tree(fields[i].1)))
}

spec fn shape_items(items: Seq<serde_json::Value>) -> Seq<JsonTree> {
    Seq::new(items.len(), |i: int| json_tree(items[i]))
}

spec fn shape_tree(shape: Shape) -> JsonTree {
    match shape {
        Shape::Null => JsonTree::Null,
        Shape::Bool(b) => JsonTree::Bool(b),
        Shape::Unsigned(n) => JsonTree::Integer(n as int),
        Shape::Signed(n) => JsonTree::Integer(n as int),
        Shape::Float(value) => json_tree(value),
        Shape::Text(s) => JsonTree::Text(s@),
        Shape::Array(items) => JsonTree::Array(shape_items(items@)),
        Shape::Object(fields) => JsonTree::Object(shape_fields(fields@)),
    }
}

/// Takes a `serde_json::Value` apart by its variants; a number goes by `Number::as_u64` and
/// `Number::as_i64`. Trusted: the parts are what the value holds, a number that neither method
/// gives is no integer, and the map of an object hands its fields out in the order of its keys,
/// as the `BTreeMap` behind it does.
#[verifier::external_body]
fn open_value(value: serde_json::Value) -> (shape: Shape)
    ensures
        json_tree(value) == shape_tree(shape),
        shape matches Shape::Float(number) ==> json_tree(number) is Float,
        shape matches Shape::Object(fields) ==> keys_in_order(shape_fields(fields@)),
{
    match value {
        serde_json::Value::Null => Shape::Null,
        serde_json::Value::Bool(b) => Shape::Bool(b),
        serde_json::Value::Number(n) => match (n.as_u64(), n.as_i64()) {
            (Some(u), _) => Shape::Unsigned(u),
            (None, Some(i)) => Shape::Signed(i),
            (None, None) => Shape::Float(serde_json::Value::Number(n)),
        },
        serde_json::Value::String(s) => Shape::Text(s),
        serde_json::Value::Array(items) => Shape::Array(items),
        serde_json::Value::Object(map) => Shape::Object(map.into_iter().collect()),
    }
}

/// Builds a `serde_json::Value` by its variants; a number by `Value::from`, the map of an object
/// by collecting its fields. Trusted: the value holds what the parts hold, where the keys of an
/// object are in order and so each stands once.
#[verifier::external_body]
fn seal_value(shape: Shape) -> (value: serde_json::Value)
    requires
        shape matches Shape::Object(fields) ==> keys_in_order(shape_fields(fields@)),
    ensures
        json_tree(value) == shape_tree(shape),
{
    match shape {
        Shape::Null => serde_json::Value::Null,
        Shape::Bool(b) => serde_json::Value::Bool(b),
        Shape::Unsigned(n) => serde_json::Value::from(n),
        Shape::Signed(n) => serde_json::Value::from(n),
        Shape::Float(value) => value,
        Shape::Text(s) => serde_json::Value::String(s),
        Shape::Array(items) => serde_json::Value::Array(items),
        Shape::Object(fields) => serde_json::Value::Object(fields.into_iter().collect()),
    }
}

/// The clone of a `serde_json::Value`. Trusted: it holds what the value holds.
pub assume_specification[ <serde_json::Value as Clone>::clone ](
    value: &serde_json::Value,
) -> (copy: serde_json::Value)
    ensures
        json_tree(copy) == json_tree(*value),
;

/// Calls `serde_json::from_str`. Trusted: whether it fails and what it gives depends on the text
/// alone.
#[verifier::external_body]
fn value_from_text(text: &str) -> (r: Result<serde_json::Value, serde_json::Error>)
    ensures
        match r {
            Ok(value) => parsed_text(text@) == Some(json_tree(value)),
            Err(_) => parsed_text(text@) is None,
        },
{
    serde_json::from_str(text)
}

/// Calls `serde_json::from_slice`. Trusted: whether it fails and what it gives depends on the
/// bytes alone.
#[verifier::external_body]
fn value_from_bytes(bytes: &[u8]) -> (r: Result<serde_json::Value, serde_json::Error>)
    ensures
        match r {
            Ok(value) => parsed_bytes(bytes@) == Some(json_tree(value)),
            Err(_) => parsed_bytes(bytes@) is None,
        },
{
    serde_json::from_slice(bytes)
}

/// Calls the `Display` of `serde_json::Value`. Trusted: the text depends on what the value holds
/// alone.
#[verifier::external_body]
fn value_text(value: &serde_json::Value) -> (text: String)
    ensures
        text@ == json_text(json_tree(*value)),
{
    value.to_string()
}

/// The document that a `serde_json::Value` holds.
pub fn json_of(value: serde_json::Value) -> (r: Json)
    ensures
        r@ == json_tree(value),
    decreases json_tree(value),
{
    match open_value(value) {
        Shape::Null => Json::Null,
        Shape::Bool(b) => Json::Bool(b),
        Shape::Unsigned(n) => Json::Unsigned(n),
        Shape::Signed(n) => Json::Signed(n),
        Shape::Float(number) => Json::Float(JsonFloat { value: number }),
        Shape::Text(s) => Json::Text(s),
        Shape::Array(items) => {
            let ghost all = items@;
            let mut rest: Vec<serde_json::Value> = items;
            let mut out: Vec<Json> = Vec::new();
            while rest.len() > 0
                invariant
                    json_tree(value) == JsonTree::Array(shape_items(all)),
                    out.len() + rest.len() == all.len(),
                    rest@ == all.skip(out.len() as int),
                    trees(out@) == shape_items(all).take(out.len() as int),
                decreases rest.len(),
            {
                let ghost done = trees(out@);
                let item: serde_json::Value = rest.remove(0);
                assert(item == all[out.len() as int]);
                assert(json_tree(value)->Array_0[out.len() as int] == json_tree(item));
                out.push(json_of(item));
                assert(trees(out@) =~= done.push(json_tree(item)));
            }
            assert(shape_items(all).take(out.len() as int) =~= shape_items(all));
            proof {
                lemma_array_view(out);
            }
            Json::Array(out)
        },
        Shape::Object(fields) => {
            let ghost all = fields@;
            let mut rest: Vec<(String, serde_json::Value)> = fields;
            let mut out: Vec<(String, Json)> = Vec::new();
            while rest.len() > 0
                invariant
                    json_tree(value) == JsonTree::Object(shape_fields(all)),
                    out.len() + rest.len() == all.len(),
                    rest@ == all.skip(out.len() as int),
                    forall|i: int|
                        0 <= i < out.len() ==> {
                            &&& (#[trigger] out@[i]).0@ == all[i].0@
                            &&& out@[i].1@ == json_tree(all[i].1)
                        },
                decreases rest.len(),
            {
                let (key, item): (String, serde_json::Value) = rest.remove(0);
                assert((key, item) == all[out.len() as int]);
                assert(json_tree(value)->Object_0[out.len() as int] == (key@, json_tree(item)));
                proof {
                    let fields = json_tree(value)->Object_0;
                    assert(decreases_to!(json_tree(value) => fields));
                    assert(decreases_to!(fields => fields[out.len() as int]));
                    assert(decreases_to!(fields[out.len() as int] => fields[out.len() as int].1));
                }
                out.push((key, json_of(item)));
            }
            let ghost view = JsonObject { fields: out }@;
            assert(view =~= shape_fields(all));
            Json::Object(JsonObject { fields: out })
        },
    }
}

/// The `serde_json::Value` that holds a document.
pub fn value_of(json: &Json) -> (value: serde_json::Value)
    ensures
        json_tree(value) == json@,
    decreases json,
{
    match json {
        Json::Null => seal_value(Shape::Null),
        Json::Bool(b) => seal_value(Shape::Bool(*b)),
        Json::Unsigned(n) => seal_value(Shape::Unsigned(*n)),
        Json::Signed(n) => seal_value(Shape::Signed(*n)),
        Json::Float(number) => {
            proof {
                use_type_invariant(number);
            }
            number.value.clone()
        },
        Json::Text(s) => seal_value(Shape::Text(s.clone())),
        Json::Array(items) => {
            let mut out: Vec<serde_json::Value> = Vec::new();
            let mut i: usize = 0;
            while i < items.len()
                invariant
                    json == Json::Array(*items),
                    i <= items.len(),
                    shape_items(out@) == trees(items@).take(i as int),
                decreases items.len() - i,
            {
                let ghost done = shape_items(out@);
                proof {
                    assert(decreases_to!(*json => json->Array_0));
                    assert(decreases_to!(*items => items@));
                    assert(decreases_to!(items@ => items@[i as int]));
                }
                let item: serde_json::Value = value_of(&items[i]);
                out.push(item);
                assert(shape_items(out@) =~= done.push(json_tree(item)));
                i += 1;
            }
            proof {
                lemma_array_view(*items);
                assert(trees(items@).take(i as int) =~= trees(items@));
            }
            seal_value(Shape::Array(out))
        },
        Json::Object(object) => {
            proof {
                use_type_invariant(object);
            }
            let mut out: Vec<(String, serde_json::Value)> = Vec::new();
            let mut i: usize = 0;
            while i < object.fields.len()
                invariant
                    json == Json::Object(*object),
                    i <= object.fields.len(),
                    shape_fields(out@) == object@.take(i as int),
                decreases object.fields.len() - i,
            {
                let ghost done = shape_fields(out@);
                proof {
                    assert(decreases_to!(*json => json->Object_0));
                    assert(decreases_to!(*object => object.fields));
                    assert(decreases_to!(object.fields => object.fields@));
                    assert(decreases_to!(object.fields@ => object.fields@[i as int]));
                    assert(decreases_to!(object.fields@[i as int] => object.fields@[i as int].1));
                }
                let key: String = object.fields[i].0.clone();
                let item: serde_json::Value = value_of(&object.fields[i].1);
                out.push((key, item));
                assert(shape_fields(out@) =~= done.push((key@, json_tree(item))));
                assert(object@.take(i + 1) =~= object@.take(i as int).push(object@[i as int]));
                i += 1;
            }
            assert(object@.take(i as int) =~= object@);
            seal_value(Shape::Object(out))
        },
    }
}

/// Reads a document from a text.
pub fn read_json(text: &str) -> (r: Result<Json, serde_json::Error>)
    ensures
        match r {
            Ok(json) => parsed_text(text@) == Some(json@),
            Err(_) => parsed_text(text@) is None,
        },
{
    match value_from_text(text) {
        Ok(value) => Ok(json_of(value)),
        Err(error) => Err(error),
    }
}

/// Reads a document from bytes.
pub fn read_json_bytes(bytes: &[u8]) -> (r: Result<Json, serde_json::Error>)
    ensures
        match r {
            Ok(json) => parsed_bytes(bytes@) == Some(json@),
            Err(_) => parsed_bytes(bytes@) is None,
        },
{
    match value_from_bytes(bytes) {
        Ok(value) => Ok(json_of(value)),
        Err(error) => Err(error),
    }
}

impl JsonObject {
    /// An object without fields.
    pub fn new() -> (object: JsonObject)
        ensures
            object@ == Seq::<(Seq<char>, JsonTree)>::empty(),
    {
        let fields: Vec<(String, Json)> = Vec::new();
        let object: JsonObject = JsonObject { fields };
        assert(object@ =~= Seq::<(Seq<char>, JsonTree)>::empty());
        object
    }

    /// How many fields the object has.
    pub fn len(&self) -> (n: usize)
        ensures
            n == self@.len(),
    {
        self.fields.len()
    }

    /// The key of a field by its place in the order.
    pub fn key(&self, i: usize) -> (key: &str)
        requires
            i < self@.len(),
        ensures
            key@ == self@[i as int].0,
    {
        self.fields[i].0.as_str()
    }

    /// The value of a field by its place in the order.
    pub fn value(&self, i: usize) -> (value: &Json)
        requires
            i < self@.len(),
        ensures
            value@ == self@[i as int].1,
    {
        &self.fields[i].1
    }

    /// The value under `key`.
    pub fn get(&self, key: &str) -> (r: Option<&Json>)
        ensures
            opt_tree(r) == lookup(self@, key@),
    {
        let mut i: usize = 0;
        while i < self.fields.len()
            invariant
                i <= self.fields.len(),
                forall|j: int| 0 <= j < i ==> (#[trigger] self@[j]).0 != key@,
            decreases self.fields.len() - i,
        {
            if same_text(self.fields[i].0.as_str(), key) {
                proof {
                    lemma_lookup_at(self@, key@, i as int);
                }
                return Some(&self.fields[i].1);
            }
            i += 1;
        }
        proof {
            lemma_lookup_at(self@, key@, i as int);
        }
        None
    }

    /// Takes the value of a field out by its place in the order, and leaves null.
    pub fn take_value(&mut self, i: usize) -> (value: Json)
        requires
            i < old(self)@.len(),
        ensures
            value@ == old(self)@[i as int].1,
            final(self)@ == old(self)@.update(i as int, (old(self)@[i as int].0, JsonTree::Null)),
    {
        proof {
            use_type_invariant(&*self);
        }
        let ghost before = self@;
        let mut fields: Vec<(String, Json)> = Vec::new();
        std::mem::swap(&mut fields, &mut self.fields);
        let (key, value): (String, Json) = fields.remove(i);
        fields.insert(i, (key, Json::Null));
        assert((JsonObject { fields })@ =~= before.update(
            i as int,
            (before[i as int].0, JsonTree::Null),
        ));
        self.fields = fields;
        value
    }

    /// Writes `value` under `key` and gives what was there before.
    pub fn insert(&mut self, key: String, value: Json) -> (previous: Option<Json>)
        ensures
            final(self)@ == with_field(old(self)@, key@, value@),
            match previous {
                Some(json) => lookup(old(self)@, key@) == Some(json@),
                None => lookup(old(self)@, key@) is None,
            },
    {
        proof {
            use_type_invariant(&*self);
        }
        let ghost before = self@;
        let ghost wanted = key@;
        let ghost tree = value@;
        let mut fields: Vec<(String, Json)> = Vec::new();
        std::mem::swap(&mut fields, &mut self.fields);
        let mut at: usize = 0;
        while at < fields.len() && comes_before(fields[at].0.as_str(), key.as_str())
            invariant
                at <= fields.len(),
                before == (JsonObject { fields })@,
                wanted == key@,
                forall|i: int| 0 <= i < at ==> precedes((#[trigger] before[i]).0, wanted),
            decreases fields.len() - at,
        {
            assert(before[at as int].0 == fields@[at as int].0@);
            at += 1;
        }
        proof {
            lemma_with_field_at(before, wanted, tree, at as int);
        }
        let mut previous: Option<Json> = None;
        if at < fields.len() && same_text(fields[at].0.as_str(), key.as_str()) {
            let ghost all = fields@;
            let (_, replaced): (String, Json) = fields.remove(at);
            fields.insert(at, (key, value));
            previous = Some(replaced);
            assert((JsonObject { fields })@ =~= before.update(at as int, (wanted, tree)));
        } else {
            fields.insert(at, (key, value));
            assert((JsonObject { fields })@ =~= before.insert(at as int, (wanted, tree)));
            proof {
                lemma_absent(before, wanted, at as int);
            }
        }
        proof {
            lemma_with_field_in_order(before, wanted, tree, at as int);
        }
        self.fields = fields;
        previous
    }
}

/// Where the keys are in order, a key that is not at its place is not there at all.
proof fn lemma_absent(fields: Seq<(Seq<char>, JsonTree)>, key: Seq<char>, at: int)
    requires
        keys_in_order(fields),
        0 <= at <= fields.len(),
        forall|i: int| 0 <= i < at ==> precedes((#[trigger] fields[i]).0, key),
        at < fields.len() ==> !precedes(fields[at].0, key) && fields[at].0 != key,
    ensures
        lookup(fields, key) is None,
{
    assert forall|i: int| 0 <= i < fields.len() implies (#[trigger] fields[i]).0 != key by {
        lemma_precedes_total(key, key);
        if i > at {
            assert(precedes(fields[at].0, fields[i].0));
        }
    }
    lemma_lookup_at(fields, key, fields.len() as int);
}

proof fn lemma_with_field_in_order(
    fields: Seq<(Seq<char>, JsonTree)>,
    key: Seq<char>,
    value: JsonTree,
    at: int,
)
    requires
        keys_in_order(fields),
        0 <= at <= fields.len(),
        forall|i: int| 0 <= i < at ==> precedes((#[trigger] fields[i]).0, key),
        at < fields.len() ==> !precedes(fields[at].0, key),
    ensures
        keys_in_order(with_field(fields, key, value)),
{
    lemma_with_field_at(fields, key, value, at);
    let updated = with_field(fields, key, value);
    let replaces = at < fields.len() && fields[at].0 == key;
    assert forall|i: int, j: int|
        #![trigger updated[i], updated[j]]
        0 <= i < j < updated.len() implies precedes(updated[i].0, updated[j].0) by {
        let back = |k: int|
            if replaces || k < at {
                k
            } else {
                k - 1
            };
        if i != at && j != at {
            assert(precedes(fields[back(i)].0, fields[back(j)].0));
        } else if j == at {
            assert(precedes(fields[i].0, key));
        } else if replaces {
            assert(precedes(fields[at].0, fields[j].0));
        } else {
            lemma_precedes_total(key, fields[at].0);
            if j - 1 > at {
                assert(precedes(fields[at].0, fields[j - 1].0));
                lemma_precedes_transitive(key, fields[at].0, fields[j - 1].0);
            }
        }
    }
}

impl Json {
    /// The value of the field `key`. Only an object has fields.
    pub fn get(&self, key: &str) -> (r: Option<&Json>)
        ensures
            opt_tree(r) == self@.field(key@),
    {
        match self {
            Json::Object(object) => object.get(key),
            _ => None,
        }
    }

    /// The text, where the document is one.
    pub fn as_str(&self) -> (r: Option<&str>)
        ensures
            match r {
                Some(s) => self@.text() == Some(s@),
                None => self@.text() is None,
            },
    {
        match self {
            Json::Text(s) => Some(s.as_str()),
            _ => None,
        }
    }

    /// The number, where the document is an integer between 0 and the largest of 64 bits.
    pub fn as_u64(&self) -> (r: Option<u64>)
        ensures
            r == self@.unsigned(),
    {
        match self {
            Json::Unsigned(n) => Some(*n),
            Json::Signed(n) => if *n >= 0 {
                Some(*n as u64)
            } else {
                None
            },
            _ => None,
        }
    }

    /// The number, where the document is a signed integer of 64 bits.
    pub fn as_i64(&self) -> (r: Option<i64>)
        ensures
            r == self@.signed(),
    {
        match self {
            Json::Unsigned(n) => if *n <= i64::MAX as u64 {
                Some(*n as i64)
            } else {
                None
            },
            Json::Signed(n) => Some(*n),
            _ => None,
        }
    }

    /// Whether the document is null.
    pub fn is_null(&self) -> (r: bool)
        ensures
            r == (self@ is Null),
    {
        match self {
            Json::Null => true,
            _ => false,
        }
    }

    /// The compact text of the document.
    pub fn to_text(&self) -> (text: String)
        ensures
            text@ == json_text(self@),
    {
        let value: serde_json::Value = value_of(self);
        value_text(&value)
    }
}

/// Numbers are read as they are, as far as they fit; nothing else is a number or a text, and only an
/// object has fields.
pub proof fn lemma_documents_are_read_as_they_are(tree: JsonTree, key: Seq<char>)
    ensures
        tree.unsigned() matches Some(n) ==> tree == JsonTree::Integer(n as int),
        tree.signed() matches Some(n) ==> tree == JsonTree::Integer(n as int),
        tree.text() matches Some(s) ==> tree == JsonTree::Text(s),
        tree matches JsonTree::Integer(n) ==> {
            &&& 0 <= n <= u64::MAX ==> tree.unsigned() == Some(n as u64)
            &&& i64::MIN <= n <= i64::MAX ==> tree.signed() == Some(n as i64)
        },
        tree matches JsonTree::Text(s) ==> tree.text() == Some(s),
        tree.field(key) is Some ==> tree is Object,
{
}

} // verus!
