//! JSON values, as `serde_json` reads and writes them.
use vstd::prelude::*;
use crate::text::str_eq;

verus! {

/// A JSON number, by what the logic asks of it.
#[derive(Debug)]
pub struct JsonNumber {
    /// The number as JSON text.
    pub text: String,
    /// The number, where it is one that a `u64` holds.
    pub unsigned: Option<u64>,
    /// The number as a double prints, where it is one.
    pub shown: Option<String>,
}

/// What a `JsonNumber` holds.
#[verifier::ext_equal]
pub struct JsonNumberView {
    pub text: Seq<char>,
    pub unsigned: Option<u64>,
    pub shown: Option<Seq<char>>,
}

impl DeepView for JsonNumber {
    type V = JsonNumberView;

    open spec fn deep_view(&self) -> JsonNumberView {
        JsonNumberView {
            text: self.text@,
            unsigned: self.unsigned,
            shown: self.shown.deep_view(),
        }
    }
}

/// A JSON value.
#[derive(Debug)]
pub enum Json {
    Null,
    Bool(bool),
    Number(JsonNumber),
    Str(String),
    Array(Vec<Json>),
    Object(Vec<(String, Json)>),
}

/// What a `Json` holds.
#[verifier::ext_equal]
pub enum JsonView {
    Null,
    Bool(bool),
    Number(JsonNumberView),
    Str(Seq<char>),
    Array(Seq<JsonView>),
    Object(Seq<(Seq<char>, JsonView)>),
}

/// What a JSON value holds.
pub open spec fn json_view(j: Json) -> JsonView
    decreases j,
{
    match j {
        Json::Null => JsonView::Null,
        Json::Bool(b) => JsonView::Bool(b),
        Json::Number(n) => JsonView::Number(n.deep_view()),
        Json::Str(s) => JsonView::Str(s@),
        Json::Array(items) => JsonView::Array(
            Seq::new(
                items@.len(),
                |i: int|
                    if 0 <= i < items@.len() {
                        json_view(items@[i])
                    } else {
                        JsonView::Null
                    },
            ),
        ),
        Json::Object(entries) => JsonView::Object(
            Seq::new(
                entries@.len(),
                |i: int|
                    if 0 <= i < entries@.len() {
                        (entries@[i].0@, json_view(entries@[i].1))
                    } else {
                        (seq![], JsonView::Null)
                    },
            ),
        ),
    }
}

impl DeepView for Json {
    type V = JsonView;

    open spec fn deep_view(&self) -> JsonView {
        json_view(*self)
    }
}

/// A `serde_json` value, before it is taken over.
#[verifier::external_type_specification]
#[verifier::external_body]
pub struct ExJsonValue(serde_json::Value);

/// What `serde_json` reads a text as, or the error it gives.
pub uninterp spec fn json_parsed(text: Seq<char>) -> std::result::Result<JsonView, Seq<char>>;

/// The compact JSON text of a value, as `serde_json` writes it.
pub uninterp spec fn json_text(value: JsonView) -> Seq<char>;

/// The indented JSON text of a value, as `serde_json` writes it.
pub uninterp spec fn json_pretty(value: JsonView) -> std::result::Result<Seq<char>, Seq<char>>;

/// Takes a `serde_json::Value` over, variant by variant. A number keeps its
/// text, its `as_u64`, and how its `as_f64` prints. Nothing is claimed of it by
/// itself: what it returns is part of what `parse` names.
#[verifier::external_body]
fn from_value(value: serde_json::Value) -> Json {
    match value {
        serde_json::Value::Null => Json::Null,
        serde_json::Value::Bool(b) => Json::Bool(b),
        serde_json::Value::Number(n) => Json::Number(
            JsonNumber { text: n.to_string(), unsigned: n.as_u64(), shown: n.as_f64().map(|x| x.to_string()) },
        ),
        serde_json::Value::String(s) => Json::Str(s),
        serde_json::Value::Array(a) => Json::Array(a.into_iter().map(from_value).collect()),
        serde_json::Value::Object(m) => Json::Object(
            m.into_iter().map(|(k, v)| (k, from_value(v))).collect(),
        ),
    }
}

/// Hands a value to `serde_json`, variant by variant; a number by its text.
/// Nothing is claimed of it by itself: it is part of what `to_text` and
/// `to_pretty` name.
#[verifier::external_body]
fn to_value(json: &Json) -> serde_json::Value {
    match json {
        Json::Null => serde_json::Value::Null,
        Json::Bool(b) => serde_json::Value::Bool(*b),
        Json::Number(n) => n.text.parse().map(serde_json::Value::Number).unwrap_or_default(),
        Json::Str(s) => serde_json::Value::String(s.clone()),
        Json::Array(a) => serde_json::Value::Array(a.iter().map(to_value).collect()),
        Json::Object(m) => serde_json::Value::Object(
            m.iter().map(|(k, v)| (k.clone(), to_value(v))).collect(),
        ),
    }
}

/// `serde_json::from_str` into a `serde_json::Value`. The outcome, value or
/// error message, is a function of the text, and is named, not described.
#[verifier::external_body]
pub(crate) fn parse(text: &str) -> (r: std::result::Result<Json, String>)
    ensures
        match r {
            Ok(j) => json_parsed(text@) == Ok::<JsonView, Seq<char>>(j.deep_view()),
            Err(e) => json_parsed(text@) == Err::<JsonView, Seq<char>>(e@),
        },
{
    serde_json::from_str::<serde_json::Value>(text).map(from_value).map_err(|e| e.to_string())
}

/// `serde_json::Value`'s `Display`: the compact JSON text. It is a function of
/// the value, and is named, not described.
#[verifier::external_body]
pub(crate) fn to_text(json: &Json) -> (r: String)
    ensures
        r@ == json_text(json.deep_view()),
{
    to_value(json).to_string()
}

/// `serde_json::to_string_pretty`: the indented JSON text, or the error
/// message. It is a function of the value, and is named, not described.
#[verifier::external_body]
pub(crate) fn to_pretty(json: &Json) -> (r: std::result::Result<String, String>)
    ensures
        match r {
            Ok(s) => json_pretty(json.deep_view()) == Ok::<Seq<char>, Seq<char>>(s@),
            Err(e) => json_pretty(json.deep_view()) == Err::<Seq<char>, Seq<char>>(e@),
        },
{
    serde_json::to_string_pretty(&to_value(json)).map_err(|e| e.to_string())
}

/// The value of the first entry from position `i` on that has the given key.
pub open spec fn entry_from(es: Seq<(Seq<char>, JsonView)>, key: Seq<char>, i: int) -> Option<
    JsonView,
>
    decreases es.len() - i,
{
    if 0 <= i < es.len() {
        if es[i].0 == key {
            Some(es[i].1)
        } else {
            entry_from(es, key, i + 1)
        }
    } else {
        None
    }
}

impl JsonView {
    /// The value under a key of an object.
    pub open spec fn get(self, key: Seq<char>) -> Option<JsonView> {
        match self {
            JsonView::Object(es) => entry_from(es, key, 0),
            _ => None,
        }
    }

    /// The text of a string.
    pub open spec fn as_str(self) -> Option<Seq<char>> {
        match self {
            JsonView::Str(s) => Some(s),
            _ => None,
        }
    }

    /// The items of an array.
    pub open spec fn as_array(self) -> Option<Seq<JsonView>> {
        match self {
            JsonView::Array(a) => Some(a),
            _ => None,
        }
    }

    /// The entries of an object.
    pub open spec fn as_object(self) -> Option<Seq<(Seq<char>, JsonView)>> {
        match self {
            JsonView::Object(es) => Some(es),
            _ => None,
        }
    }

    /// A number that a `u64` holds.
    pub open spec fn as_u64(self) -> Option<u64> {
        match self {
            JsonView::Number(n) => n.unsigned,
            _ => None,
        }
    }

    /// A truth value.
    pub open spec fn as_bool(self) -> Option<bool> {
        match self {
            JsonView::Bool(b) => Some(b),
            _ => None,
        }
    }

    /// The text under a key of an object.
    pub open spec fn str_at(self, key: Seq<char>) -> Option<Seq<char>> {
        match self.get(key) {
            Some(v) => v.as_str(),
            None => None,
        }
    }

    /// The number under a key of an object.
    pub open spec fn u64_at(self, key: Seq<char>) -> Option<u64> {
        match self.get(key) {
            Some(v) => v.as_u64(),
            None => None,
        }
    }

    /// The truth value under a key of an object.
    pub open spec fn bool_at(self, key: Seq<char>) -> Option<bool> {
        match self.get(key) {
            Some(v) => v.as_bool(),
            None => None,
        }
    }

    /// The array under a key of an object.
    pub open spec fn array_at(self, key: Seq<char>) -> Option<Seq<JsonView>> {
        match self.get(key) {
            Some(v) => v.as_array(),
            None => None,
        }
    }
}

impl Json {
    /// The value under a key of an object.
    pub fn get(&self, key: &str) -> (r: Option<&Json>)
        ensures
            match r {
                Some(v) => self.deep_view().get(key@) == Some(v.deep_view()),
                None => self.deep_view().get(key@) is None,
            },
    {
        match self {
            Json::Object(es) => {
                let ghost vs = self.deep_view()->Object_0;
                let mut i: usize = 0;
                while i < es.len()
                    invariant
                        i <= es@.len(),
                        self.deep_view() == JsonView::Object(vs),
                        vs.len() == es@.len(),
                        forall|k: int|
                            0 <= k < vs.len() ==> #[trigger] vs[k] == (
                                es@[k].0@,
                                es@[k].1.deep_view(),
                            ),
                        entry_from(vs, key@, 0) == entry_from(vs, key@, i as int),
                    decreases es@.len() - i,
                {
                    assert(vs[i as int].0 == es@[i as int].0@);
                    if str_eq(es[i].0.as_str(), key) {
                        return Some(&es[i].1);
                    }
                    i += 1;
                }
                None
            },
            _ => None,
        }
    }

    /// The text of a string.
    pub fn as_str(&self) -> (r: Option<&str>)
        ensures
            match r {
                Some(s) => self.deep_view().as_str() == Some(s@),
                None => self.deep_view().as_str() is None,
            },
    {
        match self {
            Json::Str(s) => Some(s.as_str()),
            _ => None,
        }
    }

    /// The items of an array.
    pub fn as_array(&self) -> (r: Option<&Vec<Json>>)
        ensures
            match r {
                Some(a) => self.deep_view().as_array() == Some(a.deep_view()),
                None => self.deep_view().as_array() is None,
            },
    {
        match self {
            Json::Array(a) => {
                assert(self.deep_view().as_array()->0 =~= a.deep_view());
                Some(a)
            },
            _ => None,
        }
    }

    /// The entries of an object.
    pub fn as_object(&self) -> (r: Option<&Vec<(String, Json)>>)
        ensures
            match r {
                Some(es) => self.deep_view().as_object() == Some(es.deep_view()),
                None => self.deep_view().as_object() is None,
            },
    {
        match self {
            Json::Object(es) => {
                assert(self.deep_view().as_object()->0 =~= es.deep_view());
                Some(es)
            },
            _ => None,
        }
    }

    /// The text under a key of an object.
    pub fn str_at(&self, key: &str) -> (r: Option<&str>)
        ensures
            match r {
                Some(s) => self.deep_view().str_at(key@) == Some(s@),
                None => self.deep_view().str_at(key@) is None,
            },
    {
        match self.get(key) {
            Some(v) => v.as_str(),
            None => None,
        }
    }

    /// The text under a key of an object, or `default` where there is none.
    pub fn str_or<'a>(&'a self, key: &str, default: &'a str) -> (r: &'a str)
        ensures
            r@ == match self.deep_view().str_at(key@) {
                Some(s) => s,
                None => default@,
            },
    {
        match self.str_at(key) {
            Some(s) => s,
            None => default,
        }
    }

    /// The number under a key of an object.
    pub fn u64_at(&self, key: &str) -> (r: Option<u64>)
        ensures
            r == self.deep_view().u64_at(key@),
    {
        match self.get(key) {
            Some(Json::Number(n)) => n.unsigned,
            _ => None,
        }
    }

    /// The truth value under a key of an object.
    pub fn bool_at(&self, key: &str) -> (r: Option<bool>)
        ensures
            r == self.deep_view().bool_at(key@),
    {
        match self.get(key) {
            Some(Json::Bool(b)) => Some(*b),
            _ => None,
        }
    }

    /// The array under a key of an object.
    pub fn array_at(&self, key: &str) -> (r: Option<&Vec<Json>>)
        ensures
            match r {
                Some(a) => self.deep_view().array_at(key@) == Some(a.deep_view()),
                None => self.deep_view().array_at(key@) is None,
            },
    {
        match self.get(key) {
            Some(v) => v.as_array(),
            None => None,
        }
    }

    /// Another value that holds the same.
    pub fn copy(&self) -> (r: Json)
        ensures
            r.deep_view() == self.deep_view(),
        decreases self,
    {
        match self {
            Json::Null => Json::Null,
            Json::Bool(b) => Json::Bool(*b),
            Json::Number(n) => Json::Number(
                JsonNumber {
                    text: n.text.clone(),
                    unsigned: n.unsigned,
                    shown: n.shown.clone(),
                },
            ),
            Json::Str(s) => Json::Str(s.clone()),
            Json::Array(a) => {
                let mut out: Vec<Json> = Vec::new();
                let mut i: usize = 0;
                while i < a.len()
                    invariant
                        i <= a@.len(),
                        out@.len() == i,
                        decreases_to!(self => a),
                        forall|k: int|
                            0 <= k < i ==> (#[trigger] out@[k]).deep_view() == a@[k].deep_view(),
                    decreases a@.len() - i,
                {
                    out.push(a[i].copy());
                    i += 1;
                }
                let r = Json::Array(out);
                assert(r.deep_view()->Array_0 =~= self.deep_view()->Array_0);
                r
            },
            Json::Object(es) => {
                let mut out: Vec<(String, Json)> = Vec::new();
                let mut i: usize = 0;
                while i < es.len()
                    invariant
                        i <= es@.len(),
                        out@.len() == i,
                        decreases_to!(self => es),
                        forall|k: int|
                            0 <= k < i ==> (#[trigger] out@[k]).0 == es@[k].0 && out@[k].1.deep_view()
                                == es@[k].1.deep_view(),
                    decreases es@.len() - i,
                {
                    out.push((es[i].0.clone(), es[i].1.copy()));
                    i += 1;
                }
                let r = Json::Object(out);
                assert(r.deep_view()->Object_0 =~= self.deep_view()->Object_0);
                r
            },
        }
    }

    /// A string value.
    pub fn text(s: String) -> (r: Json)
        ensures
            r.deep_view() == JsonView::Str(s@),
    {
        Json::Str(s)
    }

    /// A string value.
    pub fn string(s: &str) -> (r: Json)
        ensures
            r.deep_view() == JsonView::Str(s@),
    {
        Json::Str(s.to_owned())
    }
}

proof fn lemma_entry_from(es: Seq<(Seq<char>, JsonView)>, key: Seq<char>, i: int)
    requires
        0 <= i <= es.len(),
    ensures
        match entry_from(es, key, i) {
            Some(v) => exists|k: int|
                i <= k < es.len() && (#[trigger] es[k]) == (key, v) && forall|m: int|
                    i <= m < k ==> (#[trigger] es[m]).0 != key,
            None => forall|k: int| i <= k < es.len() ==> (#[trigger] es[k]).0 != key,
        },
    decreases es.len() - i,
{
    if i < es.len() {
        if es[i].0 == key {
            assert(es[i] == (key, es[i].1));
        } else {
            lemma_entry_from(es, key, i + 1);
            if let Some(v) = entry_from(es, key, i + 1) {
                let k = choose|k: int|
                    i + 1 <= k < es.len() && (#[trigger] es[k]) == (key, v) && forall|m: int|
                        i + 1 <= m < k ==> (#[trigger] es[m]).0 != key;
                assert(es[k] == (key, v));
                assert forall|m: int| i <= m < k implies (#[trigger] es[m]).0 != key by {}
            }
        }
    }
}

/// The value under a key is that of the first entry with that key; an object
/// without such an entry has none, and neither has what is no object.
pub proof fn law_value_under_key(value: JsonView, key: Seq<char>)
    ensures
        match value {
            JsonView::Object(es) => match value.get(key) {
                Some(v) => exists|k: int|
                    0 <= k < es.len() && (#[trigger] es[k]) == (key, v) && forall|m: int|
                        0 <= m < k ==> (#[trigger] es[m]).0 != key,
                None => forall|k: int| 0 <= k < es.len() ==> (#[trigger] es[k]).0 != key,
            },
            _ => value.get(key) is None,
        },
{
    if let JsonView::Object(es) = value {
        lemma_entry_from(es, key, 0);
    }
}

/// A text, a number, a truth value and an array are each read only as what they
/// are, by themselves and under a key.
pub proof fn law_values_read_as_they_are(value: JsonView, key: Seq<char>)
    ensures
        forall|s: Seq<char>|
            value.as_str() == Some(s) <==> value == JsonView::Str(s),
        forall|b: bool| value.as_bool() == Some(b) <==> value == JsonView::Bool(b),
        forall|a: Seq<JsonView>| value.as_array() == Some(a) <==> value == JsonView::Array(a),
        forall|n: u64|
            value.as_u64() == Some(n) <==> value is Number && value->Number_0.unsigned == Some(n),
        forall|s: Seq<char>|
            value.str_at(key) == Some(s) <==> value.get(key) == Some(JsonView::Str(s)),
        forall|b: bool|
            value.bool_at(key) == Some(b) <==> value.get(key) == Some(JsonView::Bool(b)),
        forall|a: Seq<JsonView>|
            value.array_at(key) == Some(a) <==> value.get(key) == Some(JsonView::Array(a)),
{
}

} // verus!
