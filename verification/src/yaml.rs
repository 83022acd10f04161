//! YAML documents as plain data, read by `serde_yaml`.

use crate::error::Error;
use crate::number::{Numeral, NumeralView};
use crate::text::{slice_texts, str_eq};
use vstd::prelude::*;

verus! {

/// A YAML value. A mapping keeps its entries in document order.
#[derive(Debug)]
pub enum Yaml {
    Null,
    Bool(bool),
    Number(Numeral),
    String(String),
    Sequence(Vec<Yaml>),
    Mapping(Vec<(Yaml, Yaml)>),
    Tagged(String, Box<Yaml>),
}

/// The mathematical value of a [`Yaml`].
pub enum YamlView {
    Null,
    Bool(bool),
    Number(NumeralView),
    String(Seq<char>),
    Sequence(Seq<YamlView>),
    Mapping(Seq<(YamlView, YamlView)>),
    Tagged(Seq<char>, Box<YamlView>),
}

impl View for Yaml {
    type V = YamlView;

    open spec fn view(&self) -> YamlView {
        yaml_view(*self)
    }
}

/// The mathematical value of a YAML value.
pub open spec fn yaml_view(yaml: Yaml) -> YamlView
    decreases yaml,
{
    match yaml {
        Yaml::Null => YamlView::Null,
        Yaml::Bool(b) => YamlView::Bool(b),
        Yaml::Number(n) => YamlView::Number(n@),
        Yaml::String(s) => YamlView::String(s@),
        Yaml::Sequence(items) => YamlView::Sequence(
            Seq::new(
                items@.len(),
                |i: int|
                    if 0 <= i < items@.len() {
                        yaml_view(items@[i])
                    } else {
                        YamlView::Null
                    },
            ),
        ),
        Yaml::Mapping(entries) => YamlView::Mapping(
            Seq::new(
                entries@.len(),
                |i: int|
                    if 0 <= i < entries@.len() {
                        (yaml_view(entries@[i].0), yaml_view(entries@[i].1))
                    } else {
                        (YamlView::Null, YamlView::Null)
                    },
            ),
        ),
        Yaml::Tagged(tag, value) => YamlView::Tagged(tag@, Box::new(yaml_view(*value))),
    }
}

/// The views of a list of values, item by item.
pub open spec fn yaml_views(items: Seq<Yaml>) -> Seq<YamlView> {
    Seq::new(items.len(), |i: int| items[i]@)
}

/// The views of the entries of a mapping, entry by entry.
pub open spec fn entry_views(entries: Seq<(Yaml, Yaml)>) -> Seq<(YamlView, YamlView)> {
    Seq::new(entries.len(), |i: int| (entries[i].0@, entries[i].1@))
}

/// The view of a sequence is the sequence of its items' views.
pub proof fn lemma_sequence_view(yaml: Yaml)
    requires
        yaml is Sequence,
    ensures
        yaml@ == YamlView::Sequence(yaml_views(yaml->Sequence_0@)),
{
    assert(yaml@->Sequence_0 =~= yaml_views(yaml->Sequence_0@));
}

/// The view of a mapping is the list of its entries' views.
pub proof fn lemma_mapping_view(yaml: Yaml)
    requires
        yaml is Mapping,
    ensures
        yaml@ == YamlView::Mapping(entry_views(yaml->Mapping_0@)),
{
    assert(yaml@->Mapping_0 =~= entry_views(yaml->Mapping_0@));
}

/// `serde_yaml::Value`, of which nothing is known here.
#[verifier::external_type_specification]
#[verifier::external_body]
pub struct ExYamlValue(serde_yaml::Value);

/// `serde_yaml::Number`, of which nothing is known here.
#[verifier::external_type_specification]
#[verifier::external_body]
pub struct ExYamlNumber(serde_yaml::Number);

/// The value that `serde_yaml` reads from a text, `None` where it rejects the text.
pub uninterp spec fn yaml_document(text: Seq<char>) -> Option<YamlView>;

/// Moves a `serde_yaml::Number` into a [`Numeral`]: `PosInt` where `as_u64`
/// gives it, else `NegInt` where `as_i64` gives it, else `Float` with the text
/// of its `to_string`. Nothing is claimed of the result.
#[verifier::external_body]
fn number_from_yaml(n: &serde_yaml::Number) -> Numeral {
    match (n.as_u64(), n.as_i64()) {
        (Some(u), _) => Numeral::PosInt(u),
        (_, Some(i)) => Numeral::NegInt(i),
        _ => Numeral::Float(n.to_string()),
    }
}

/// Moves a `serde_yaml::Value` into a [`Yaml`], variant by variant, a mapping's
/// entries in the order in which the mapping holds them, a tag by the text of
/// its `to_string`. Nothing is claimed of the result.
#[verifier::external_body]
fn yaml_from_value(value: serde_yaml::Value) -> Yaml {
    match value {
        serde_yaml::Value::Null => Yaml::Null,
        serde_yaml::Value::Bool(b) => Yaml::Bool(b),
        serde_yaml::Value::Number(n) => Yaml::Number(number_from_yaml(&n)),
        serde_yaml::Value::String(s) => Yaml::String(s),
        serde_yaml::Value::Sequence(a) => Yaml::Sequence(a.into_iter().map(yaml_from_value).collect()),
        serde_yaml::Value::Mapping(m) => Yaml::Mapping(
            m.into_iter().map(|(k, v)| (yaml_from_value(k), yaml_from_value(v))).collect(),
        ),
        serde_yaml::Value::Tagged(t) => Yaml::Tagged(t.tag.to_string(), Box::new(yaml_from_value(t.value))),
    }
}

/// `serde_yaml::from_str` at `serde_yaml::Value`: succeeds exactly on the
/// texts that have a document, and then returns that document. What the
/// document of a text is, is a function of the text alone; no more is
/// claimed. Where it fails, the error comes back as the text of its
/// `to_string`, of which nothing is claimed.
#[verifier::external_body]
fn read_yaml(text: &str) -> (r: Result<Yaml, String>)
    ensures
        r is Ok <==> yaml_document(text@) is Some,
        r is Ok ==> r->Ok_0@ == yaml_document(text@)->Some_0,
{
    serde_yaml::from_str::<serde_yaml::Value>(text).map(yaml_from_value).map_err(|e| e.to_string())
}

impl Yaml {
    /// Reads a YAML text. A text that `serde_yaml` rejects is a schema
    /// violation, with the parser's message as its detail.
    pub fn parse(text: &str) -> (r: Result<Yaml, Error>)
        ensures
            r is Ok <==> yaml_document(text@) is Some,
            r is Ok ==> r->Ok_0@ == yaml_document(text@)->Some_0,
            r is Err ==> r->Err_0 is SchemaViolation,
    {
        match read_yaml(text) {
            Ok(yaml) => Ok(yaml),
            Err(detail) => Err(Error::SchemaViolation(detail)),
        }
    }
}

/// The index of the first entry, from `from` on, whose key is the string
/// `key`, or the number of entries.
pub open spec fn key_index(entries: Seq<(YamlView, YamlView)>, key: Seq<char>, from: int) -> int
    decreases entries.len() - from,
{
    if from < 0 || from >= entries.len() {
        entries.len() as int
    } else if entries[from].0 == YamlView::String(key) {
        from
    } else {
        key_index(entries, key, from + 1)
    }
}

/// The value of the first entry whose key is the string `key`, if there is one.
pub open spec fn field(entries: Seq<(YamlView, YamlView)>, key: Seq<char>) -> Option<YamlView> {
    let i = key_index(entries, key, 0);
    if i < entries.len() {
        Some(entries[i].1)
    } else {
        None
    }
}

/// Whether the key of every entry is a string among `allowed`.
pub open spec fn only_fields(entries: Seq<(YamlView, YamlView)>, allowed: Seq<Seq<char>>) -> bool {
    forall|i: int|
        0 <= i < entries.len() ==> (#[trigger] entries[i]).0 is String && allowed.contains(
            entries[i].0->String_0,
        )
}

/// The value of a YAML value that may be absent.
pub open spec fn optional_view(value: Option<&Yaml>) -> Option<YamlView> {
    match value {
        Some(y) => Some(y@),
        None => None,
    }
}

/// The index of the first entry whose key is the string `key`.
pub fn find_field(entries: &Vec<(Yaml, Yaml)>, key: &str) -> (r: Option<usize>)
    ensures
        match r {
            Some(i) => i < entries.len() && i == key_index(entry_views(entries@), key@, 0),
            None => key_index(entry_views(entries@), key@, 0) == entries.len(),
        },
{
    let ghost views = entry_views(entries@);
    let mut i: usize = 0;
    while i < entries.len()
        invariant
            i <= entries.len(),
            views == entry_views(entries@),
            key_index(views, key@, 0) == key_index(views, key@, i as int),
        decreases entries.len() - i,
    {
        match &entries[i].0 {
            Yaml::String(s) => {
                if str_eq(s.as_str(), key) {
                    return Some(i);
                }
            },
            _ => {},
        }
        i += 1;
    }
    None
}

/// The value of the first entry whose key is the string `key`.
pub fn get_field<'a>(entries: &'a Vec<(Yaml, Yaml)>, key: &str) -> (r: Option<&'a Yaml>)
    ensures
        optional_view(r) == field(entry_views(entries@), key@),
{
    match find_field(entries, key) {
        Some(i) => Some(&entries[i].1),
        None => None,
    }
}

/// Whether `name` is among `names`.
fn is_among(name: &str, names: &Vec<&str>) -> (r: bool)
    ensures
        r == slice_texts(names@).contains(name@),
{
    let mut i: usize = 0;
    while i < names.len()
        invariant
            i <= names.len(),
            forall|k: int| 0 <= k < i ==> slice_texts(names@)[k] != name@,
        decreases names.len() - i,
    {
        if str_eq(names[i], name) {
            assert(slice_texts(names@)[i as int] == name@);
            return true;
        }
        i += 1;
    }
    false
}

/// Whether the key of every entry is a string among `allowed`.
pub fn has_only_fields(entries: &Vec<(Yaml, Yaml)>, allowed: &Vec<&str>) -> (r: bool)
    ensures
        r == only_fields(entry_views(entries@), slice_texts(allowed@)),
{
    let ghost views = entry_views(entries@);
    let mut i: usize = 0;
    while i < entries.len()
        invariant
            i <= entries.len(),
            views == entry_views(entries@),
            forall|k: int|
                0 <= k < i ==> (#[trigger] views[k]).0 is String && slice_texts(allowed@).contains(
                    views[k].0->String_0,
                ),
        decreases entries.len() - i,
    {
        assert(views[i as int].0 == entries@[i as int].0@);
        match &entries[i].0 {
            Yaml::String(s) => {
                if !is_among(s.as_str(), allowed) {
                    return false;
                }
            },
            _ => {
                return false;
            },
        }
        i += 1;
    }
    true
}

} // verus!
