//! JSON values as plain data, read and written by `serde_json`.

use crate::number::{Numeral, NumeralView};
use crate::table::named_views;
use vstd::prelude::*;

verus! {

/// A JSON value. An object keeps its members in document order.
#[derive(Debug)]
pub enum Json {
    Null,
    Bool(bool),
    Number(Numeral),
    String(String),
    Array(Vec<Json>),
    Object(Vec<(String, Json)>),
}

/// The mathematical value of a [`Json`].
pub enum JsonView {
    Null,
    Bool(bool),
    Number(NumeralView),
    String(Seq<char>),
    Array(Seq<JsonView>),
    Object(Seq<(Seq<char>, JsonView)>),
}

impl View for Json {
    type V = JsonView;

    open spec fn view(&self) -> JsonView {
        json_view(*self)
    }
}

/// The mathematical value of a JSON value.
pub open spec fn json_view(json: Json) -> JsonView
    decreases json,
{
    match json {
        Json::Null => JsonView::Null,
        Json::Bool(b) => JsonView::Bool(b),
        Json::Number(n) => JsonView::Number(n@),
        Json::String(s) => JsonView::String(s@),
        Json::Array(items) => JsonView::Array(
            Seq::new(
                items@.len(),
                |i: int|
                    if 0 <= i < items@.len() {
                        json_view(items@[i])
                    } else {
                        JsonView::Null
                    },
            ),
        ),
        Json::Object(members) => JsonView::Object(
            Seq::new(
                members@.len(),
                |i: int|
                    if 0 <= i < members@.len() {
                        (members@[i].0@, json_view(members@[i].1))
                    } else {
                        (Seq::empty(), JsonView::Null)
                    },
            ),
        ),
    }
}

/// The views of a list of values, item by item.
pub open spec fn json_views(items: Seq<Json>) -> Seq<JsonView> {
    Seq::new(items.len(), |i: int| items[i]@)
}

/// The view of an object is the list of its members' views.
pub proof fn lemma_object_view(json: Json)
    requires
        json is Object,
    ensures
        json@ == JsonView::Object(named_views(json->Object_0@)),
{
    assert(json@->Object_0 =~= named_views(json->Object_0@));
}

/// `serde_json::Value`, of which nothing is known here.
#[verifier::external_type_specification]
#[verifier::external_body]
pub struct ExJsonValue(serde_json::Value);

/// The value that `serde_json` reads from a text, `None` where it rejects the text.
pub uninterp spec fn json_document(text: Seq<u8>) -> Option<JsonView>;

/// The compact text that `serde_json` writes for a value.
pub uninterp spec fn json_text(value: JsonView) -> Seq<char>;

/// Whether `serde_json` reads a text as a number.
pub uninterp spec fn json_number(text: Seq<char>) -> bool;

/// Whether a value can be written: the text of each of its floats is one
/// that `serde_json` reads as a number.
pub open spec fn writable(json: JsonView) -> bool
    decreases json,
{
    match json {
        JsonView::Number(NumeralView::Float(text)) => json_number(text),
        JsonView::Array(items) => forall|i: int|
            0 <= i < items.len() ==> writable(#[trigger] items[i]),
        JsonView::Object(members) => forall|i: int|
            0 <= i < members.len() ==> writable((#[trigger] members[i]).1),
        _ => true,
    }
}

/// The value as it is written: a float whose text is no number is written
/// as null, and everything else as it is.
pub open spec fn written(json: JsonView) -> JsonView
    decreases json,
{
    match json {
        JsonView::Number(NumeralView::Float(text)) => if json_number(text) {
            json
        } else {
            JsonView::Null
        },
        JsonView::Array(items) => JsonView::Array(
            Seq::new(
                items.len(),
                |i: int|
                    if 0 <= i < items.len() {
                        written(items[i])
                    } else {
                        JsonView::Null
                    },
            ),
        ),
        JsonView::Object(members) => JsonView::Object(
            Seq::new(
                members.len(),
                |i: int|
                    if 0 <= i < members.len() {
                        (members[i].0, written(members[i].1))
                    } else {
                        (Seq::empty(), JsonView::Null)
                    },
            ),
        ),
        _ => json,
    }
}

/// `serde_json::from_str` at `serde_json::Number`: whether it reads the
/// text as a number. What texts it reads so is a function of the text
/// alone; no more is claimed.
#[verifier::external_body]
fn reads_as_number(text: &str) -> (r: bool)
    ensures
        r == json_number(text@),
{
    serde_json::from_str::<serde_json::Number>(text).is_ok()
}

/// `serde_json::Number`, of which nothing is known here.
#[verifier::external_type_specification]
#[verifier::external_body]
pub struct ExJsonNumber(serde_json::Number);

/// Moves a `serde_json::Number` into a [`Numeral`]: `PosInt` where `as_u64`
/// gives it, else `NegInt` where `as_i64` gives it, else `Float` with the text
/// of its `to_string`. Nothing is claimed of the result.
#[verifier::external_body]
fn number_from_json(n: &serde_json::Number) -> Numeral {
    match (n.as_u64(), n.as_i64()) {
        (Some(u), _) => Numeral::PosInt(u),
        (_, Some(i)) => Numeral::NegInt(i),
        _ => Numeral::Float(n.to_string()),
    }
}

/// Builds the `serde_json::Value` for a [`Numeral`]. The text of a float
/// must be one that `serde_json::from_str` reads as a number; it is read
/// so. Nothing is claimed of the result.
#[verifier::external_body]
fn number_to_json(n: &Numeral) -> serde_json::Value
    requires
        n@ is Float ==> json_number(n@->Float_0),
{
    match n {
        Numeral::PosInt(u) => serde_json::Value::from(*u),
        Numeral::NegInt(i) => serde_json::Value::from(*i),
        Numeral::Float(text) => serde_json::Value::Number(
            serde_json::from_str::<serde_json::Number>(text).expect("the text is a number"),
        ),
    }
}

/// Moves a `serde_json::Value` into a [`Json`], variant by variant, an object's
/// members in the order in which the map holds them. Nothing is claimed of the
/// result.
#[verifier::external_body]
fn json_from_value(value: serde_json::Value) -> Json {
    match value {
        serde_json::Value::Null => Json::Null,
        serde_json::Value::Bool(b) => Json::Bool(b),
        serde_json::Value::Number(n) => Json::Number(number_from_json(&n)),
        serde_json::Value::String(s) => Json::String(s),
        serde_json::Value::Array(a) => Json::Array(a.into_iter().map(json_from_value).collect()),
        serde_json::Value::Object(o) => Json::Object(
            o.into_iter().map(|(k, v)| (k, json_from_value(v))).collect(),
        ),
    }
}

/// Builds the `serde_json::Value` for a [`Json`], variant by variant. The
/// members of an object are collected into a `serde_json::Map`, in which a
/// repeated key keeps its first position and its last value. Nothing is
/// claimed of the result. The value must be writable.
#[verifier::external_body]
fn json_to_value(json: &Json) -> serde_json::Value
    requires
        writable(json@),
{
    match json {
        Json::Null => serde_json::Value::Null,
        Json::Bool(b) => serde_json::Value::Bool(*b),
        Json::Number(n) => number_to_json(n),
        Json::String(s) => serde_json::Value::String(s.clone()),
        Json::Array(a) => serde_json::Value::Array(a.iter().map(json_to_value).collect()),
        Json::Object(o) => serde_json::Value::Object(
            o.iter().map(|(k, v)| (k.clone(), json_to_value(v))).collect(),
        ),
    }
}

/// `serde_json::from_slice` at `serde_json::Value`: succeeds exactly on the
/// texts that have a document, and then returns that document. What the
/// document of a text is, is a function of the text alone; no more is
/// claimed.
#[verifier::external_body]
fn read_json(text: &[u8]) -> (r: Option<Json>)
    ensures
        r is Some <==> json_document(text@) is Some,
        r is Some ==> r->Some_0@ == json_document(text@)->Some_0,
{
    serde_json::from_slice::<serde_json::Value>(text).ok().map(json_from_value)
}

/// `serde_json::to_string` at `serde_json::Value`, which cannot fail there:
/// returns the compact text of the value. What that text is, is a function
/// of the value alone; no more is claimed.
#[verifier::external_body]
fn write_json(json: &Json) -> (text: String)
    requires
        writable(json@),
    ensures
        text@ == json_text(json@),
{
    serde_json::to_string(&json_to_value(json)).expect("a value is always written")
}

impl Clone for Json {
    fn clone(&self) -> (r: Json)
        ensures
            r@ == self@,
        decreases self,
    {
        match self {
            Json::Null => Json::Null,
            Json::Bool(b) => Json::Bool(*b),
            Json::Number(n) => Json::Number(n.clone()),
            Json::String(s) => Json::String(s.clone()),
            Json::Array(items) => {
                let mut copy: Vec<Json> = Vec::new();
                let mut i: usize = 0;
                while i < items.len()
                    invariant
                        i <= items.len(),
                        self is Array,
                        self->Array_0 == *items,
                        copy.len() == i,
                        forall|k: int| 0 <= k < i ==> copy@[k]@ == items@[k]@,
                    decreases items.len() - i,
                {
                    proof {
                        assert(decreases_to!(self => self->Array_0));
                        assert(decreases_to!(self->Array_0 => self->Array_0@));
                        assert(decreases_to!(self->Array_0@ => self->Array_0@[i as int]));
                    }
                    copy.push(items[i].clone());
                    i += 1;
                }
                let r = Json::Array(copy);
                assert(r@->Array_0 =~= self@->Array_0);
                r
            },
            Json::Object(members) => {
                let mut copy: Vec<(String, Json)> = Vec::new();
                let mut i: usize = 0;
                while i < members.len()
                    invariant
                        i <= members.len(),
                        self is Object,
                        self->Object_0 == *members,
                        copy.len() == i,
                        forall|k: int|
                            0 <= k < i ==> copy@[k].0@ == members@[k].0@ && copy@[k].1@
                                == members@[k].1@,
                    decreases members.len() - i,
                {
                    proof {
                        assert(decreases_to!(self => self->Object_0));
                        assert(decreases_to!(self->Object_0 => self->Object_0@));
                        assert(decreases_to!(self->Object_0@ => self->Object_0@[i as int]));
                        assert(decreases_to!(self->Object_0@[i as int] => self->Object_0@[i as int].1));
                    }
                    copy.push((members[i].0.clone(), members[i].1.clone()));
                    i += 1;
                }
                let r = Json::Object(copy);
                assert(r@->Object_0 =~= self@->Object_0);
                r
            },
        }
    }
}

impl Json {
    /// Reads a JSON text.
    pub fn parse(text: &[u8]) -> (r: Option<Json>)
        ensures
            r is Some <==> json_document(text@) is Some,
            r is Some ==> r->Some_0@ == json_document(text@)->Some_0,
    {
        read_json(text)
    }

    /// The value as it is written: a float whose text is no number
    /// becomes null.
    pub fn cleaned(&self) -> (r: Json)
        ensures
            r@ == written(self@),
            writable(r@),
        decreases self,
    {
        match self {
            Json::Null => Json::Null,
            Json::Bool(b) => Json::Bool(*b),
            Json::Number(n) => match n {
                Numeral::Float(text) => {
                    if reads_as_number(text.as_str()) {
                        Json::Number(Numeral::Float(text.clone()))
                    } else {
                        Json::Null
                    }
                },
                _ => Json::Number(n.clone()),
            },
            Json::String(s) => Json::String(s.clone()),
            Json::Array(items) => {
                let mut copy: Vec<Json> = Vec::new();
                let mut i: usize = 0;
                while i < items.len()
                    invariant
                        i <= items.len(),
                        self is Array,
                        self->Array_0 == *items,
                        copy.len() == i,
                        forall|k: int|
                            0 <= k < i ==> (#[trigger] copy@[k])@ == written(items@[k]@)
                                && writable(copy@[k]@),
                    decreases items.len() - i,
                {
                    proof {
                        assert(decreases_to!(self => self->Array_0));
                        assert(decreases_to!(self->Array_0 => self->Array_0@));
                        assert(decreases_to!(self->Array_0@ => self->Array_0@[i as int]));
                    }
                    copy.push(items[i].cleaned());
                    i += 1;
                }
                let r = Json::Array(copy);
                proof {
                    assert(r@->Array_0 =~= written(self@)->Array_0);
                    assert forall|k: int| 0 <= k < r@->Array_0.len() implies writable(
                        #[trigger] r@->Array_0[k],
                    ) by {
                        assert(r@->Array_0[k] == copy@[k]@);
                    }
                }
                r
            },
            Json::Object(members) => {
                let mut copy: Vec<(String, Json)> = Vec::new();
                let mut i: usize = 0;
                while i < members.len()
                    invariant
                        i <= members.len(),
                        self is Object,
                        self->Object_0 == *members,
                        copy.len() == i,
                        forall|k: int|
                            0 <= k < i ==> (#[trigger] copy@[k]).0@ == members@[k].0@ && copy@[k].1@
                                == written(members@[k].1@) && writable(copy@[k].1@),
                    decreases members.len() - i,
                {
                    proof {
                        assert(decreases_to!(self => self->Object_0));
                        assert(decreases_to!(self->Object_0 => self->Object_0@));
                        assert(decreases_to!(self->Object_0@ => self->Object_0@[i as int]));
                        assert(decreases_to!(self->Object_0@[i as int] => self->Object_0@[i as int].1));
                    }
                    copy.push((members[i].0.clone(), members[i].1.cleaned()));
                    i += 1;
                }
                let r = Json::Object(copy);
                proof {
                    assert(r@->Object_0 =~= written(self@)->Object_0);
                    assert forall|k: int| 0 <= k < r@->Object_0.len() implies writable(
                        (#[trigger] r@->Object_0[k]).1,
                    ) by {
                        assert(r@->Object_0[k].1 == copy@[k].1@);
                    }
                }
                r
            },
        }
    }

    /// Writes the value as compact JSON text. A float whose text is no
    /// number is written as null.
    pub fn to_text(&self) -> (text: String)
        ensures
            text@ == json_text(written(self@)),
    {
        let cleaned = self.cleaned();
        write_json(&cleaned)
    }
}

} // verus!

