//! JSON values: the tree a document holds, and how it is read.

use vstd::prelude::*;

verus! {

/// `serde_json::Value`, carried only as far as [`Json`] needs it.
#[verifier::external_type_specification]
#[verifier::external_body]
pub struct ExSerdeValue(serde_json::Value);

/// What a JSON value holds. Numbers are kept as they are printed.
pub ghost enum JsonV {
    Null,
    Bool(bool),
    Number(Seq<char>),
    Text(Seq<char>),
    List(Seq<JsonV>),
    Object(Seq<(Seq<char>, JsonV)>),
}

/// A JSON value.
#[derive(Debug, PartialEq)]
pub enum Json {
    Null,
    Bool(bool),
    Number(String),
    Text(String),
    List(Vec<Json>),
    Object(Vec<(String, Json)>),
}

impl View for Json {
    type V = JsonV;

    open spec fn view(&self) -> JsonV {
        json_model(*self)
    }
}

/// The model of a JSON value.
pub open spec fn json_model(j: Json) -> JsonV
    decreases j,
{
    match j {
        Json::Null => JsonV::Null,
        Json::Bool(b) => JsonV::Bool(b),
        Json::Number(s) => JsonV::Number(s@),
        Json::Text(s) => JsonV::Text(s@),
        Json::List(v) => JsonV::List(
            Seq::new(
                v@.len(),
                |i: int|
                    if 0 <= i < v@.len() {
                        json_model(v@[i])
                    } else {
                        JsonV::Null
                    },
            ),
        ),
        Json::Object(v) => JsonV::Object(
            Seq::new(
                v@.len(),
                |i: int|
                    if 0 <= i < v@.len() {
                        (v@[i].0@, json_model(v@[i].1))
                    } else {
                        (Seq::empty(), JsonV::Null)
                    },
            ),
        ),
    }
}

/// The number of nodes of a JSON value.
pub open spec fn json_size(v: JsonV) -> nat
    decreases v, 0nat,
{
    match v {
        JsonV::List(s) => 1 + list_size(s, s.len()),
        JsonV::Object(s) => 1 + entries_size(s, s.len()),
        _ => 1,
    }
}

/// The number of nodes of the first `n` values of a list.
pub open spec fn list_size(s: Seq<JsonV>, n: nat) -> nat
    decreases s, n,
{
    if n == 0 || n > s.len() {
        0
    } else {
        list_size(s, (n - 1) as nat) + json_size(s[n - 1])
    }
}

/// The number of nodes of the first `n` values of an object.
pub open spec fn entries_size(s: Seq<(Seq<char>, JsonV)>, n: nat) -> nat
    decreases s, n,
{
    if n == 0 || n > s.len() {
        0
    } else {
        entries_size(s, (n - 1) as nat) + json_size(s[n - 1].1)
    }
}

/// The value under the first entry with the given key.
pub open spec fn lookup(s: Seq<(Seq<char>, JsonV)>, key: Seq<char>) -> Option<JsonV>
    decreases s.len(),
{
    if s.len() == 0 {
        None
    } else if s[0].0 == key {
        Some(s[0].1)
    } else {
        lookup(s.skip(1), key)
    }
}

/// The value of an object's field.
pub open spec fn field(v: JsonV, key: Seq<char>) -> Option<JsonV> {
    match v {
        JsonV::Object(s) => lookup(s, key),
        _ => None,
    }
}

/// The values of a list; none where the value is no list.
pub open spec fn items(v: JsonV) -> Seq<JsonV> {
    match v {
        JsonV::List(s) => s,
        _ => Seq::empty(),
    }
}

/// The characters of a text.
pub open spec fn text(v: JsonV) -> Option<Seq<char>> {
    match v {
        JsonV::Text(s) => Some(s),
        _ => None,
    }
}

pub proof fn lemma_list_size(s: Seq<JsonV>, n: nat, i: int)
    requires
        0 <= i < n <= s.len(),
    ensures
        json_size(s[i]) <= list_size(s, n),
    decreases n,
{
    if i < n - 1 {
        lemma_list_size(s, (n - 1) as nat, i);
    }
}

pub proof fn lemma_entries_size(s: Seq<(Seq<char>, JsonV)>, n: nat, i: int)
    requires
        0 <= i < n <= s.len(),
    ensures
        json_size(s[i].1) <= entries_size(s, n),
    decreases n,
{
    if i < n - 1 {
        lemma_entries_size(s, (n - 1) as nat, i);
    }
}

/// A value that a lookup finds is one of the entries.
pub proof fn lemma_lookup_entry(s: Seq<(Seq<char>, JsonV)>, key: Seq<char>) -> (i: int)
    requires
        lookup(s, key) is Some,
    ensures
        0 <= i < s.len(),
        s[i] == (key, lookup(s, key)->0),
    decreases s.len(),
{
    if s[0].0 == key {
        0
    } else {
        let j = lemma_lookup_entry(s.skip(1), key);
        j + 1
    }
}

/// A field is smaller than the object it stands in.
pub broadcast proof fn lemma_field_smaller(v: JsonV, key: Seq<char>)
    requires
        field(v, key) is Some,
    ensures
        json_size((#[trigger] field(v, key))->0) < json_size(v),
{
    let s = v->Object_0;
    let i = lemma_lookup_entry(s, key);
    lemma_entries_size(s, s.len(), i);
}

/// An item is smaller than the list it stands in.
pub broadcast proof fn lemma_item_smaller(v: JsonV, i: int)
    requires
        0 <= i < items(v).len(),
    ensures
        json_size(#[trigger] items(v)[i]) < json_size(v),
{
    lemma_list_size(items(v), items(v).len(), i);
}

impl Json {
    /// The value of an object's field.
    pub fn get(&self, key: &str) -> (r: Option<&Json>)
        ensures
            match r {
                Some(x) => field(self@, key@) == Some(x@),
                None => field(self@, key@) is None,
            },
    {
        match self {
            Json::Object(entries) => {
                let ghost s = self@->Object_0;
                let mut i: usize = 0;
                assert(s.skip(0) =~= s);
                while i < entries.len()
                    invariant
                        i <= entries@.len(),
                        *self == Json::Object(*entries),
                        self@ == JsonV::Object(s),
                        s.len() == entries@.len(),
                        lookup(s, key@) == lookup(s.skip(i as int), key@),
                    decreases entries.len() - i,
                {
                    assert(s.skip(i as int)[0] == s[i as int]);
                    assert(s[i as int] == (entries@[i as int].0@, json_model(entries@[i as int].1)));
                    if *entries[i].0.as_str() == *key {
                        return Some(&entries[i].1);
                    }
                    assert(s.skip(i as int).skip(1) =~= s.skip(i + 1));
                    i = i + 1;
                }
                None
            },
            _ => None,
        }
    }

    /// The characters, where the value is a text.
    pub fn as_str(&self) -> (r: Option<&str>)
        ensures
            match r {
                Some(x) => text(self@) == Some(x@),
                None => text(self@) is None,
            },
    {
        match self {
            Json::Text(s) => Some(s.as_str()),
            _ => None,
        }
    }

    /// The boolean, where the value is one.
    pub fn as_bool(&self) -> (r: Option<bool>)
        ensures
            r == (match self@ {
                JsonV::Bool(b) => Some(b),
                _ => None,
            }),
    {
        match self {
            Json::Bool(b) => Some(*b),
            _ => None,
        }
    }

    /// The values of a list, where the value is one.
    pub fn as_list(&self) -> (r: Option<&Vec<Json>>)
        ensures
            match r {
                Some(x) => {
                    &&& self@ is List
                    &&& x@.len() == items(self@).len()
                    &&& forall|i: int| 0 <= i < x@.len() ==> (#[trigger] x@[i])@ == items(self@)[i]
                },
                None => !(self@ is List),
            },
    {
        match self {
            Json::List(v) => Some(v),
            _ => None,
        }
    }

    /// A copy of a value.
    pub fn copy(&self) -> (r: Json)
        ensures
            r@ == self@,
        decreases json_size(self@),
    {
        match self {
            Json::Null => Json::Null,
            Json::Bool(b) => Json::Bool(*b),
            Json::Number(s) => Json::Number(s.clone()),
            Json::Text(s) => Json::Text(s.clone()),
            Json::List(v) => {
                let mut out: Vec<Json> = Vec::new();
                let mut i: usize = 0;
                while i < v.len()
                    invariant
                        i <= v@.len(),
                        *self == Json::List(*v),
                        out@.len() == i,
                        forall|k: int| 0 <= k < i ==> (#[trigger] out@[k])@ == v@[k]@,
                    decreases v.len() - i,
                {
                    assert(items(self@)[i as int] == v@[i as int]@);
                    proof {
                        lemma_item_smaller(self@, i as int);
                    }
                    out.push(v[i].copy());
                    i = i + 1;
                }
                let r = Json::List(out);
                assert(r@->List_0 =~= self@->List_0);
                r
            },
            Json::Object(v) => {
                let mut out: Vec<(String, Json)> = Vec::new();
                let mut i: usize = 0;
                while i < v.len()
                    invariant
                        i <= v@.len(),
                        *self == Json::Object(*v),
                        out@.len() == i,
                        forall|k: int|
                            0 <= k < i ==> (#[trigger] out@[k]).0@ == v@[k].0@ && out@[k].1@
                                == v@[k].1@,
                    decreases v.len() - i,
                {
                    proof {
                        let s = self@->Object_0;
                        assert(s[i as int].1 == v@[i as int].1@);
                        lemma_entries_size(s, s.len(), i as int);
                    }
                    out.push((v[i].0.clone(), v[i].1.copy()));
                    i = i + 1;
                }
                let r = Json::Object(out);
                assert(r@->Object_0 =~= self@->Object_0);
                r
            },
        }
    }
}

impl Clone for Json {
    fn clone(&self) -> (r: Json)
        ensures
            r@ == self@,
    {
        self.copy()
    }
}

/// A `serde_json::Value` with its outermost layer taken apart.
enum Layer<'a> {
    Null,
    Bool(bool),
    Number(String),
    Text(String),
    List(&'a Vec<serde_json::Value>),
    Object(Vec<(String, &'a serde_json::Value)>),
}

/// What a `serde_json::Value` holds.
pub uninterp spec fn value_model(v: serde_json::Value) -> JsonV;

/// What a JSON document holds, where `serde_json` reads it.
pub uninterp spec fn document_model(document: Seq<char>) -> Option<JsonV>;

spec fn layer_model(layer: Layer) -> JsonV {
    match layer {
        Layer::Null => JsonV::Null,
        Layer::Bool(b) => JsonV::Bool(b),
        Layer::Number(s) => JsonV::Number(s@),
        Layer::Text(s) => JsonV::Text(s@),
        Layer::List(v) => JsonV::List(v@.map_values(|x: serde_json::Value| value_model(x))),
        Layer::Object(v) => JsonV::Object(
            v@.map_values(|x: (String, &serde_json::Value)| (x.0@, value_model(*x.1))),
        ),
    }
}

/// Tells the variants of `serde_json::Value` apart. A number is handed on as
/// `Number::to_string` prints it, an object as its entries in the order in which
/// `Map::iter` yields them.
#[verifier::external_body]
fn open_value<'a>(v: &'a serde_json::Value) -> (r: Layer<'a>)
    ensures
        layer_model(r) == value_model(*v),
{
    match v {
        serde_json::Value::Null => Layer::Null,
        serde_json::Value::Bool(b) => Layer::Bool(*b),
        serde_json::Value::Number(n) => Layer::Number(n.to_string()),
        serde_json::Value::String(s) => Layer::Text(s.clone()),
        serde_json::Value::Array(a) => Layer::List(a),
        serde_json::Value::Object(m) => Layer::Object(m.iter().map(|e| (e.0.clone(), e.1)).collect()),
    }
}

/// Reads a document with `serde_json`'s `Deserializer::from_str` and
/// `Value::deserialize`, with the nesting limit switched off. `Some` of the value read,
/// `None` where the text is not one JSON value: which of the two, and the value, depend on
/// the text alone. Reading recurses as deep as the document is nested, so a document that is
/// nested deeper than the stack allows exhausts it, as every walk over its value would.
#[verifier::external_body]
fn read_value(document: &str) -> (r: Option<serde_json::Value>)
    ensures
        match r {
            Some(v) => document_model(document@) == Some(value_model(v)),
            None => document_model(document@) is None,
        },
{
    let mut reader = serde_json::Deserializer::from_str(document);
    reader.disable_recursion_limit();
    let value: serde_json::Value = serde::Deserialize::deserialize(&mut reader).ok()?;
    reader.end().ok()?;
    Some(value)
}

/// What `serde_json` makes of a document with its limit on nesting: the value, or the message that
/// says why it cannot be read.
pub uninterp spec fn shallow_reading(document: Seq<char>) -> Result<JsonV, Seq<char>>;

/// What a JSON document holds, where `serde_json` reads it with its limit on nesting.
pub open spec fn shallow_document_model(document: Seq<char>) -> Option<JsonV> {
    match shallow_reading(document) {
        Ok(v) => Some(v),
        Err(_) => None,
    }
}

/// Reads a document with `serde_json::from_str`, which gives up on values that are nested too
/// deep. An error is handed on as it is printed. Whether the text is read, the value and the
/// message depend on the text alone.
#[verifier::external_body]
fn read_shallow_value(document: &str) -> (r: Result<serde_json::Value, String>)
    ensures
        match r {
            Ok(v) => shallow_reading(document@) == Ok::<JsonV, Seq<char>>(value_model(v)),
            Err(m) => shallow_reading(document@) == Err::<JsonV, Seq<char>>(m@),
        },
{
    serde_json::from_str(document).map_err(|e| e.to_string())
}

/// Reads a JSON document whose nesting is limited.
pub fn parse_shallow_json(document: &str) -> (r: Result<Json, String>)
    ensures
        match r {
            Ok(j) => shallow_reading(document@) == Ok::<JsonV, Seq<char>>(j@),
            Err(m) => shallow_reading(document@) == Err::<JsonV, Seq<char>>(m@),
        },
{
    match read_shallow_value(document) {
        Ok(v) => Ok(from_value(&v)),
        Err(m) => Err(m),
    }
}

/// The value that a `serde_json::Value` holds.
fn from_value(v: &serde_json::Value) -> (r: Json)
    ensures
        r@ == value_model(*v),
    decreases json_size(value_model(*v)),
{
    match open_value(v) {
        Layer::Null => Json::Null,
        Layer::Bool(b) => Json::Bool(b),
        Layer::Number(s) => Json::Number(s),
        Layer::Text(s) => Json::Text(s),
        Layer::List(a) => {
            let ghost m = value_model(*v);
            let mut out: Vec<Json> = Vec::new();
            let mut i: usize = 0;
            while i < a.len()
                invariant
                    i <= a@.len(),
                    m == value_model(*v),
                    m is List,
                    items(m) == a@.map_values(|x: serde_json::Value| value_model(x)),
                    out@.len() == i,
                    forall|k: int| 0 <= k < i ==> (#[trigger] out@[k])@ == value_model(a@[k]),
                decreases a.len() - i,
            {
                assert(items(m)[i as int] == value_model(a@[i as int]));
                proof {
                    lemma_item_smaller(m, i as int);
                }
                out.push(from_value(&a[i]));
                i = i + 1;
            }
            let r = Json::List(out);
            assert(r@->List_0 =~= items(m));
            r
        },
        Layer::Object(a) => {
            let ghost m = value_model(*v);
            let ghost s = m->Object_0;
            let mut out: Vec<(String, Json)> = Vec::new();
            let mut i: usize = 0;
            while i < a.len()
                invariant
                    i <= a@.len(),
                    m == value_model(*v),
                    m == JsonV::Object(s),
                    s == a@.map_values(|x: (String, &serde_json::Value)| (x.0@, value_model(*x.1))),
                    out@.len() == i,
                    forall|k: int|
                        0 <= k < i ==> (#[trigger] out@[k]).0@ == a@[k].0@ && out@[k].1@
                            == value_model(*a@[k].1),
                decreases a.len() - i,
            {
                proof {
                    assert(s[i as int].1 == value_model(*a@[i as int].1));
                    lemma_entries_size(s, s.len(), i as int);
                }
                out.push((a[i].0.clone(), from_value(a[i].1)));
                i = i + 1;
            }
            let r = Json::Object(out);
            assert(r@->Object_0 =~= s);
            r
        },
    }
}

/// Reads a JSON document.
pub fn parse_json(document: &str) -> (r: Option<Json>)
    ensures
        match r {
            Some(j) => document_model(document@) == Some(j@),
            None => document_model(document@) is None,
        },
{
    match read_value(document) {
        Some(v) => Some(from_value(&v)),
        None => None,
    }
}

} // verus!
