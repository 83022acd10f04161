//! The loader: from YAML documents to the schema model. A document must
//! fit its schema exactly: a field that the schema does not know is a
//! violation, and so is a field of the wrong kind. Where a document is read
//! for a string, any scalar but a null is taken, a number and a boolean by
//! their plain text; within a variable a string must be a string.

use crate::error::Error;
use crate::number::{number_as_usize, numeral_text, Numeral, NumeralView};
use crate::schema::interface::{
    command_well_formed, interface_well_formed, Argument, ArgumentView, ArrayOptions,
    ArrayOptionsView, BoundsView, Command, CommandView, IntegerOptions, Interface, InterfaceView,
    NumberOptions, ObjectOptions, ObjectOptionsView, StringFormat, StringOptions, StringOptionsView,
    Type, TypeView, Variable, VariableView,
};
use crate::schema::manifest::{
    manifest_well_formed, Manifest, ManifestView, Metadata, MetadataView, ProvidesEntry,
    ProvidesEntryView, YamlData, YamlDataView,
};
use crate::schema::{DataTypes, DataTypesView};
use crate::table::{
    find, insert_sorted, lemma_sorted_by_name, lemma_sorted_by_name_keeps,
    lemma_sorted_by_name_of_prefix, named_views, sorted_by_name, strictly_sorted,
};
use crate::text::{slice_texts, str_eq, texts};
use crate::yaml::{
    entry_views, field, find_field, get_field, has_only_fields, key_index, lemma_mapping_view,
    lemma_sequence_view, only_fields, optional_view, yaml_document, yaml_views, Yaml, YamlView,
};
use vstd::prelude::*;
use vstd::string::StringExecFns;

verus! {

/// Whether a result is what a document decodes to: the value where there is
/// one, a schema violation where there is none.
pub open spec fn decodes_to<T: View>(r: Result<T, Error>, expected: Option<T::V>) -> bool {
    match expected {
        Some(v) => r is Ok && r->Ok_0@ == v,
        None => r is Err && r->Err_0 is SchemaViolation,
    }
}

/// A schema violation with a detail.
fn violation(detail: &str) -> (e: Error)
    ensures
        e is SchemaViolation,
        e->SchemaViolation_0@ == detail@,
{
    Error::SchemaViolation(String::from_str(detail))
}

/// The text of a scalar that is read as a string: a string is its own
/// text, a boolean reads `true` or `false`, and a number reads as its
/// digits. A null has no text, and neither has what is no scalar.
pub open spec fn scalar_text(value: YamlView) -> Option<Seq<char>> {
    match value {
        YamlView::String(text) => Some(text),
        YamlView::Bool(b) => Some(
            if b {
                "true"@
            } else {
                "false"@
            },
        ),
        YamlView::Number(n) => Some(numeral_text(n)),
        _ => None,
    }
}

/// The name that a key of a mapping gives: outside of variables any scalar
/// is read as a string; in the properties of a variable only a string is
/// a name.
pub open spec fn key_text(key: YamlView, lenient: bool) -> Option<Seq<char>> {
    if lenient {
        scalar_text(key)
    } else {
        match key {
            YamlView::String(text) => Some(text),
            _ => None,
        }
    }
}

/// A field of a document that must be there, read as a string.
pub open spec fn text_of(value: Option<YamlView>) -> Option<Seq<char>> {
    match value {
        Some(v) => scalar_text(v),
        None => None,
    }
}

/// A value that must be a sequence of scalars, each read as a string.
pub open spec fn scalar_texts_of(value: YamlView) -> Option<Seq<Seq<char>>> {
    match value {
        YamlView::Sequence(items) => if forall|i: int|
            0 <= i < items.len() ==> scalar_text(#[trigger] items[i]) is Some {
            Some(Seq::new(items.len(), |i: int| scalar_text(items[i]).unwrap()))
        } else {
            None
        },
        _ => None,
    }
}

/// A field that may be absent or null, and must else be a string.
pub open spec fn optional_text_of(value: Option<YamlView>) -> Option<Option<Seq<char>>> {
    match value {
        None => Some(None),
        Some(YamlView::Null) => Some(None),
        Some(YamlView::String(text)) => Some(Some(text)),
        _ => None,
    }
}

/// A field that may be absent or null, and must else be a non-negative
/// integer that fits a `usize`.
pub open spec fn optional_size_of(value: Option<YamlView>) -> Option<Option<usize>> {
    match value {
        None => Some(None),
        Some(YamlView::Null) => Some(None),
        Some(YamlView::Number(n)) => match number_as_usize(n) {
            Some(size) => Some(Some(size)),
            None => None,
        },
        _ => None,
    }
}

/// A field that may be absent or null, and must else be a number.
pub open spec fn optional_number_of(value: Option<YamlView>) -> Option<Option<NumeralView>> {
    match value {
        None => Some(None),
        Some(YamlView::Null) => Some(None),
        Some(YamlView::Number(n)) => Some(Some(n)),
        _ => None,
    }
}

/// A field that may be absent, and must else be a boolean; absent it is false.
pub open spec fn flag_of(value: Option<YamlView>) -> Option<bool> {
    match value {
        None => Some(false),
        Some(YamlView::Bool(b)) => Some(b),
        _ => None,
    }
}

/// A field that may be absent or null, and must else name a format of strings.
pub open spec fn format_of(value: Option<YamlView>) -> Option<Option<StringFormat>> {
    match value {
        None => Some(None),
        Some(YamlView::Null) => Some(None),
        Some(YamlView::String(text)) => if text == "date-time"@ {
            Some(Some(StringFormat::DateTime))
        } else {
            None
        },
        _ => None,
    }
}

/// A value that must be a sequence of strings.
pub open spec fn texts_of(value: YamlView) -> Option<Seq<Seq<char>>> {
    match value {
        YamlView::Sequence(items) => if forall|i: int|
            0 <= i < items.len() ==> (#[trigger] items[i]) is String {
            Some(Seq::new(items.len(), |i: int| items[i]->String_0))
        } else {
            None
        },
        _ => None,
    }
}

/// A field that may be absent, and must else be a sequence of strings;
/// absent it is empty.
pub open spec fn defaulted_texts_of(value: Option<YamlView>) -> Option<Seq<Seq<char>>> {
    match value {
        None => Some(seq![]),
        Some(v) => texts_of(v),
    }
}

/// A field that may be absent or null, and must else be a sequence of strings.
pub open spec fn optional_texts_of(value: Option<YamlView>) -> Option<Option<Seq<Seq<char>>>> {
    match value {
        None => Some(None),
        Some(YamlView::Null) => Some(None),
        Some(v) => match texts_of(v) {
            Some(items) => Some(Some(items)),
            None => None,
        },
    }
}

/// Reads a scalar as a string.
fn take_scalar(value: &Yaml) -> (r: Option<String>)
    ensures
        match r {
            Some(s) => scalar_text(value@) == Some(s@),
            None => scalar_text(value@) is None,
        },
{
    match value {
        Yaml::String(text) => Some(text.clone()),
        Yaml::Bool(b) => {
            if *b {
                Some(String::from_str("true"))
            } else {
                Some(String::from_str("false"))
            }
        },
        Yaml::Number(n) => Some(n.to_text()),
        _ => None,
    }
}

/// Reads the name that a key of a mapping gives.
fn take_key(key: &Yaml, lenient: bool) -> (r: Option<String>)
    ensures
        match r {
            Some(s) => key_text(key@, lenient) == Some(s@),
            None => key_text(key@, lenient) is None,
        },
{
    if lenient {
        take_scalar(key)
    } else {
        match key {
            Yaml::String(text) => Some(text.clone()),
            _ => None,
        }
    }
}

/// Reads a field of a document that must be there, as a string.
fn take_text(value: Option<&Yaml>) -> (r: Option<String>)
    ensures
        match r {
            Some(s) => text_of(optional_view(value)) == Some(s@),
            None => text_of(optional_view(value)) is None,
        },
{
    match value {
        Some(v) => take_scalar(v),
        None => None,
    }
}

/// Reads a value that must be a sequence of scalars, each as a string.
fn take_scalar_texts(value: &Yaml) -> (r: Option<Vec<String>>)
    ensures
        match r {
            Some(items) => scalar_texts_of(value@) == Some(texts(items@)),
            None => scalar_texts_of(value@) is None,
        },
{
    let items = match value {
        Yaml::Sequence(items) => items,
        _ => {
            return None;
        },
    };
    proof {
        lemma_sequence_view(*value);
    }
    let ghost views = yaml_views(items@);
    let mut out: Vec<String> = Vec::new();
    let mut i: usize = 0;
    while i < items.len()
        invariant
            i <= items.len(),
            views == yaml_views(items@),
            value@ == YamlView::Sequence(views),
            out.len() == i,
            forall|k: int| 0 <= k < i ==> scalar_text(#[trigger] views[k]) == Some(out@[k]@),
        decreases items.len() - i,
    {
        assert(views[i as int] == items@[i as int]@);
        match take_scalar(&items[i]) {
            Some(text) => {
                out.push(text);
            },
            None => {
                return None;
            },
        }
        i += 1;
    }
    assert(texts(out@) =~= Seq::new(views.len(), |i: int| scalar_text(views[i]).unwrap()));
    Some(out)
}

/// Reads a field that may be absent or null, and must else be a string.
fn take_optional_text(value: Option<&Yaml>) -> (r: Option<Option<String>>)
    ensures
        match r {
            Some(Some(s)) => optional_text_of(optional_view(value)) == Some(Some(s@)),
            Some(None) => optional_text_of(optional_view(value)) == Some(None::<Seq<char>>),
            None => optional_text_of(optional_view(value)) is None,
        },
{
    match value {
        None => Some(None),
        Some(Yaml::Null) => Some(None),
        Some(Yaml::String(text)) => Some(Some(text.clone())),
        _ => None,
    }
}

/// Reads a field that may be absent or null, and must else be a size.
fn take_optional_size(value: Option<&Yaml>) -> (r: Option<Option<usize>>)
    ensures
        r == optional_size_of(optional_view(value)),
{
    match value {
        None => Some(None),
        Some(Yaml::Null) => Some(None),
        Some(Yaml::Number(n)) => match n.as_usize() {
            Some(size) => Some(Some(size)),
            None => None,
        },
        _ => None,
    }
}

/// Reads a field that may be absent or null, and must else be a number.
fn take_optional_number(value: Option<&Yaml>) -> (r: Option<Option<Numeral>>)
    ensures
        match r {
            Some(Some(n)) => optional_number_of(optional_view(value)) == Some(Some(n@)),
            Some(None) => optional_number_of(optional_view(value)) == Some(None::<NumeralView>),
            None => optional_number_of(optional_view(value)) is None,
        },
{
    match value {
        None => Some(None),
        Some(Yaml::Null) => Some(None),
        Some(Yaml::Number(n)) => Some(Some(n.clone())),
        _ => None,
    }
}

/// Reads a field that may be absent, and must else be a boolean.
fn take_flag(value: Option<&Yaml>) -> (r: Option<bool>)
    ensures
        r == flag_of(optional_view(value)),
{
    match value {
        None => Some(false),
        Some(Yaml::Bool(b)) => Some(*b),
        _ => None,
    }
}

/// Reads a field that may be absent or null, and must else name a format.
fn take_format(value: Option<&Yaml>) -> (r: Option<Option<StringFormat>>)
    ensures
        r == format_of(optional_view(value)),
{
    match value {
        None => Some(None),
        Some(Yaml::Null) => Some(None),
        Some(Yaml::String(text)) => {
            if str_eq(text.as_str(), "date-time") {
                Some(Some(StringFormat::DateTime))
            } else {
                None
            }
        },
        _ => None,
    }
}

/// Reads a value that must be a sequence of strings.
fn take_texts(value: &Yaml) -> (r: Option<Vec<String>>)
    ensures
        match r {
            Some(items) => texts_of(value@) == Some(texts(items@)),
            None => texts_of(value@) is None,
        },
{
    let items = match value {
        Yaml::Sequence(items) => items,
        _ => {
            return None;
        },
    };
    proof {
        lemma_sequence_view(*value);
    }
    let ghost views = yaml_views(items@);
    let mut out: Vec<String> = Vec::new();
    let mut i: usize = 0;
    while i < items.len()
        invariant
            i <= items.len(),
            views == yaml_views(items@),
            value@ == YamlView::Sequence(views),
            out.len() == i,
            forall|k: int| 0 <= k < i ==> (#[trigger] views[k]) is String,
            forall|k: int| 0 <= k < i ==> (#[trigger] out@[k])@ == views[k]->String_0,
        decreases items.len() - i,
    {
        assert(views[i as int] == items@[i as int]@);
        match &items[i] {
            Yaml::String(text) => {
                out.push(text.clone());
            },
            _ => {
                return None;
            },
        }
        i += 1;
    }
    Some(out)
}

/// Reads a field that may be absent, and must else be a sequence of strings.
fn take_defaulted_texts(value: Option<&Yaml>) -> (r: Option<Vec<String>>)
    ensures
        match r {
            Some(items) => defaulted_texts_of(optional_view(value)) == Some(texts(items@)),
            None => defaulted_texts_of(optional_view(value)) is None,
        },
{
    match value {
        None => {
            let out: Vec<String> = Vec::new();
            Some(out)
        },
        Some(v) => take_texts(v),
    }
}

/// Reads a field that may be absent or null, and must else be a sequence of strings.
fn take_optional_texts(value: Option<&Yaml>) -> (r: Option<Option<Vec<String>>>)
    ensures
        match r {
            Some(Some(items)) => optional_texts_of(optional_view(value)) == Some(
                Some(texts(items@)),
            ),
            Some(None) => optional_texts_of(optional_view(value)) == Some(
                None::<Seq<Seq<char>>>,
            ),
            None => optional_texts_of(optional_view(value)) is None,
        },
{
    match value {
        None => Some(None),
        Some(Yaml::Null) => Some(None),
        Some(v) => match take_texts(v) {
            Some(items) => Some(Some(items)),
            None => None,
        },
    }
}

/// The fields that every variable may have.
pub open spec fn common_fields() -> Seq<Seq<char>> {
    seq!["description"@, "type"@]
}

/// The fields that a variable of type string may have.
pub open spec fn string_fields() -> Seq<Seq<char>> {
    seq![
        "description"@,
        "type"@,
        "pattern"@,
        "format"@,
        "maxLength"@,
        "minLength"@,
        "enum"@,
        "$ref"@,
    ]
}

/// The fields that a variable of type number or integer may have.
pub open spec fn bounds_fields() -> Seq<Seq<char>> {
    seq!["description"@, "type"@, "minimum"@, "maximum"@]
}

/// The fields that a variable of type array may have.
pub open spec fn array_fields() -> Seq<Seq<char>> {
    seq!["description"@, "type"@, "minItems"@, "maxItems"@, "items"@]
}

/// The fields that a variable of type object may have.
pub open spec fn object_fields() -> Seq<Seq<char>> {
    seq!["description"@, "type"@, "properties"@, "required"@, "additionalProperties"@, "$ref"@]
}

/// The constraints on a string that the entries of a variable hold.
pub open spec fn string_options_of(entries: Seq<(YamlView, YamlView)>) -> Option<StringOptionsView> {
    let pattern = optional_text_of(field(entries, "pattern"@));
    let format = format_of(field(entries, "format"@));
    let max_length = optional_size_of(field(entries, "maxLength"@));
    let min_length = optional_size_of(field(entries, "minLength"@));
    let enum_items = optional_texts_of(field(entries, "enum"@));
    let object_reference = optional_text_of(field(entries, "$ref"@));
    if only_fields(entries, string_fields()) && pattern is Some && format is Some
        && max_length is Some && min_length is Some && enum_items is Some
        && object_reference is Some {
        Some(
            StringOptionsView {
                pattern: pattern.unwrap(),
                format: format.unwrap(),
                max_length: max_length.unwrap(),
                min_length: min_length.unwrap(),
                enum_items: enum_items.unwrap(),
                object_reference: object_reference.unwrap(),
            },
        )
    } else {
        None
    }
}

/// The bounds that the entries of a variable hold.
pub open spec fn bounds_of(entries: Seq<(YamlView, YamlView)>) -> Option<BoundsView> {
    let minimum = optional_number_of(field(entries, "minimum"@));
    let maximum = optional_number_of(field(entries, "maximum"@));
    if only_fields(entries, bounds_fields()) && minimum is Some && maximum is Some {
        Some(BoundsView { minimum: minimum.unwrap(), maximum: maximum.unwrap() })
    } else {
        None
    }
}

/// The constraints on a string when none is given.
pub open spec fn no_string_options() -> StringOptionsView {
    StringOptionsView {
        pattern: None,
        format: None,
        max_length: None,
        min_length: None,
        enum_items: None,
        object_reference: None,
    }
}

/// The type that a name stands for when it comes without constraints, as an
/// item of a list of types does.
pub open spec fn bare_type(name: Seq<char>) -> Option<TypeView> {
    if name == "null"@ {
        Some(TypeView::Null)
    } else if name == "boolean"@ {
        Some(TypeView::Boolean)
    } else if name == "string"@ {
        Some(TypeView::String(no_string_options()))
    } else if name == "number"@ {
        Some(TypeView::Number(BoundsView { minimum: None, maximum: None }))
    } else if name == "integer"@ {
        Some(TypeView::Integer(BoundsView { minimum: None, maximum: None }))
    } else if name == "array"@ {
        Some(TypeView::Array(ArrayOptionsView { min_items: None, max_items: None, items: None }))
    } else if name == "object"@ {
        Some(
            TypeView::Object(
                ObjectOptionsView {
                    properties: seq![],
                    required: seq![],
                    additional_properties: false,
                    object_reference: None,
                },
            ),
        )
    } else {
        None
    }
}

/// The types that a list of names stands for, each without constraints.
pub open spec fn bare_types(items: Seq<YamlView>) -> Option<Seq<TypeView>> {
    if forall|i: int|
        0 <= i < items.len() ==> (#[trigger] items[i]) is String && bare_type(
            items[i]->String_0,
        ) is Some {
        Some(Seq::new(items.len(), |i: int| bare_type(items[i]->String_0).unwrap()))
    } else {
        None
    }
}

/// A variable that says nothing; it stands where no variable is.
pub open spec fn blank_variable() -> VariableView {
    VariableView { description: None, arg: ArgumentView::Single(TypeView::Null) }
}

/// The description of a variable: absent, or a string.
pub open spec fn variable_description_of(value: Option<YamlView>) -> Option<Option<Seq<char>>> {
    match value {
        None => Some(None),
        Some(YamlView::String(text)) => Some(Some(text)),
        _ => None,
    }
}

/// The variable that a YAML value holds. The value must be a mapping. Its
/// `description`, if it has one, must be a string. Where its `type` is a
/// string, the other fields are the constraints of that type; where it is a
/// sequence of strings, each names a type without constraints, and the other
/// fields are not looked at.
pub open spec fn variable_of(y: YamlView) -> Option<VariableView>
    decreases y,
{
    match y {
        YamlView::Mapping(entries) => {
            let description = variable_description_of(field(entries, "description"@));
            if description is None {
                None
            } else {
                match field(entries, "type"@) {
                    Some(YamlView::String(name)) => match type_of(name, entries) {
                        Some(t) => Some(
                            VariableView {
                                description: description.unwrap(),
                                arg: ArgumentView::Single(t),
                            },
                        ),
                        None => None,
                    },
                    Some(YamlView::Sequence(items)) => match bare_types(items) {
                        Some(types) => Some(
                            VariableView {
                                description: description.unwrap(),
                                arg: ArgumentView::Multiple(types),
                            },
                        ),
                        None => None,
                    },
                    _ => None,
                }
            }
        },
        _ => None,
    }
}

/// The type named `name` with the constraints that the entries of a
/// variable hold.
pub open spec fn type_of(name: Seq<char>, entries: Seq<(YamlView, YamlView)>) -> Option<TypeView>
    decreases entries,
{
    if name == "null"@ {
        if only_fields(entries, common_fields()) {
            Some(TypeView::Null)
        } else {
            None
        }
    } else if name == "boolean"@ {
        if only_fields(entries, common_fields()) {
            Some(TypeView::Boolean)
        } else {
            None
        }
    } else if name == "string"@ {
        match string_options_of(entries) {
            Some(options) => Some(TypeView::String(options)),
            None => None,
        }
    } else if name == "number"@ {
        match bounds_of(entries) {
            Some(bounds) => Some(TypeView::Number(bounds)),
            None => None,
        }
    } else if name == "integer"@ {
        match bounds_of(entries) {
            Some(bounds) => Some(TypeView::Integer(bounds)),
            None => None,
        }
    } else if name == "array"@ {
        let min_items = optional_size_of(field(entries, "minItems"@));
        let max_items = optional_size_of(field(entries, "maxItems"@));
        let i = key_index(entries, "items"@, 0);
        let items: Option<Option<Box<VariableView>>> = if 0 <= i < entries.len() {
            if entries[i].1 is Null {
                Some(None)
            } else {
                match variable_of(entries[i].1) {
                    Some(v) => Some(Some(Box::new(v))),
                    None => None,
                }
            }
        } else {
            Some(None)
        };
        if only_fields(entries, array_fields()) && min_items is Some && max_items is Some
            && items is Some {
            Some(
                TypeView::Array(
                    ArrayOptionsView {
                        min_items: min_items.unwrap(),
                        max_items: max_items.unwrap(),
                        items: items.unwrap(),
                    },
                ),
            )
        } else {
            None
        }
    } else if name == "object"@ {
        let i = key_index(entries, "properties"@, 0);
        let properties = if 0 <= i < entries.len() {
            variables_of(entries[i].1, false)
        } else {
            Some(seq![])
        };
        let required = defaulted_texts_of(field(entries, "required"@));
        let additional_properties = flag_of(field(entries, "additionalProperties"@));
        let object_reference = optional_text_of(field(entries, "$ref"@));
        if only_fields(entries, object_fields()) && properties is Some && required is Some
            && additional_properties is Some && object_reference is Some {
            Some(
                TypeView::Object(
                    ObjectOptionsView {
                        properties: properties.unwrap(),
                        required: required.unwrap(),
                        additional_properties: additional_properties.unwrap(),
                        object_reference: object_reference.unwrap(),
                    },
                ),
            )
        } else {
            None
        }
    } else {
        None
    }
}

/// The variable of each entry of a mapping under its name, in the order of
/// the document.
pub open spec fn named_variables(pairs: Seq<(YamlView, YamlView)>, lenient: bool) -> Seq<
    (Seq<char>, VariableView),
>
    decreases pairs,
{
    Seq::new(
        pairs.len(),
        |j: int|
            if 0 <= j < pairs.len() {
                (
                    key_text(pairs[j].0, lenient).unwrap(),
                    match variable_of(pairs[j].1) {
                        Some(v) => v,
                        None => blank_variable(),
                    },
                )
            } else {
                (seq![], blank_variable())
            },
    )
}

/// Whether each entry of a mapping holds a variable under a name.
pub open spec fn all_variables(pairs: Seq<(YamlView, YamlView)>, lenient: bool) -> bool
    decreases pairs,
{
    forall|j: int|
        0 <= j < pairs.len() ==> key_text((#[trigger] pairs[j]).0, lenient) is Some && variable_of(
            pairs[j].1,
        ) is Some
}

/// The named variables that a YAML value holds, in the order of their
/// names. The value must be a mapping from names, each once, to variables.
/// The properties of a variable are not read leniently; the arguments of a
/// command, the variables of an interface and the types of a document are.
pub open spec fn variables_of(y: YamlView, lenient: bool) -> Option<Seq<(Seq<char>, VariableView)>>
    decreases y,
{
    match y {
        YamlView::Mapping(pairs) => if all_variables(pairs, lenient) {
            sorted_by_name(named_variables(pairs, lenient))
        } else {
            None
        },
        _ => None,
    }
}

/// The names of the fields that every variable may have.
fn common_names() -> (names: Vec<&'static str>)
    ensures
        slice_texts(names@) == common_fields(),
{
    let mut names: Vec<&'static str> = Vec::new();
    names.push("description");
    names.push("type");
    names
}

/// The names of the fields that a variable of type string may have.
fn string_names() -> (names: Vec<&'static str>)
    ensures
        slice_texts(names@) == string_fields(),
{
    let mut names: Vec<&'static str> = Vec::new();
    names.push("description");
    names.push("type");
    names.push("pattern");
    names.push("format");
    names.push("maxLength");
    names.push("minLength");
    names.push("enum");
    names.push("$ref");
    names
}

/// The names of the fields that a variable of type number or integer may have.
fn bounds_names() -> (names: Vec<&'static str>)
    ensures
        slice_texts(names@) == bounds_fields(),
{
    let mut names: Vec<&'static str> = Vec::new();
    names.push("description");
    names.push("type");
    names.push("minimum");
    names.push("maximum");
    names
}

/// The names of the fields that a variable of type array may have.
fn array_names() -> (names: Vec<&'static str>)
    ensures
        slice_texts(names@) == array_fields(),
{
    let mut names: Vec<&'static str> = Vec::new();
    names.push("description");
    names.push("type");
    names.push("minItems");
    names.push("maxItems");
    names.push("items");
    names
}

/// The names of the fields that a variable of type object may have.
fn object_names() -> (names: Vec<&'static str>)
    ensures
        slice_texts(names@) == object_fields(),
{
    let mut names: Vec<&'static str> = Vec::new();
    names.push("description");
    names.push("type");
    names.push("properties");
    names.push("required");
    names.push("additionalProperties");
    names.push("$ref");
    names
}

/// Reads the constraints on a string from the entries of a variable.
fn decode_string_options(entries: &Vec<(Yaml, Yaml)>) -> (r: Option<StringOptions>)
    ensures
        match r {
            Some(options) => string_options_of(entry_views(entries@)) == Some(options@),
            None => string_options_of(entry_views(entries@)) is None,
        },
{
    if !has_only_fields(entries, &string_names()) {
        return None;
    }
    let pattern = match take_optional_text(get_field(entries, "pattern")) {
        Some(v) => v,
        None => {
            return None;
        },
    };
    let format = match take_format(get_field(entries, "format")) {
        Some(v) => v,
        None => {
            return None;
        },
    };
    let max_length = match take_optional_size(get_field(entries, "maxLength")) {
        Some(v) => v,
        None => {
            return None;
        },
    };
    let min_length = match take_optional_size(get_field(entries, "minLength")) {
        Some(v) => v,
        None => {
            return None;
        },
    };
    let enum_items = match take_optional_texts(get_field(entries, "enum")) {
        Some(v) => v,
        None => {
            return None;
        },
    };
    let object_reference = match take_optional_text(get_field(entries, "$ref")) {
        Some(v) => v,
        None => {
            return None;
        },
    };
    Some(StringOptions { pattern, format, max_length, min_length, enum_items, object_reference })
}

/// Reads the bounds of a number from the entries of a variable.
fn decode_bounds(entries: &Vec<(Yaml, Yaml)>) -> (r: Option<NumberOptions>)
    ensures
        match r {
            Some(bounds) => bounds_of(entry_views(entries@)) == Some(bounds@),
            None => bounds_of(entry_views(entries@)) is None,
        },
{
    if !has_only_fields(entries, &bounds_names()) {
        return None;
    }
    let minimum = match take_optional_number(get_field(entries, "minimum")) {
        Some(v) => v,
        None => {
            return None;
        },
    };
    let maximum = match take_optional_number(get_field(entries, "maximum")) {
        Some(v) => v,
        None => {
            return None;
        },
    };
    Some(NumberOptions { minimum, maximum })
}

/// The type that a name stands for when it comes without constraints.
fn default_type(name: &str) -> (r: Option<Type>)
    ensures
        match r {
            Some(t) => bare_type(name@) == Some(t@),
            None => bare_type(name@) is None,
        },
{
    if str_eq(name, "null") {
        Some(Type::Null)
    } else if str_eq(name, "boolean") {
        Some(Type::Boolean)
    } else if str_eq(name, "string") {
        Some(
            Type::String(
                StringOptions {
                    pattern: None,
                    format: None,
                    max_length: None,
                    min_length: None,
                    enum_items: None,
                    object_reference: None,
                },
            ),
        )
    } else if str_eq(name, "number") {
        Some(Type::Number(NumberOptions { minimum: None, maximum: None }))
    } else if str_eq(name, "integer") {
        Some(Type::Integer(IntegerOptions { minimum: None, maximum: None }))
    } else if str_eq(name, "array") {
        Some(Type::Array(ArrayOptions { min_items: None, max_items: None, items: None }))
    } else if str_eq(name, "object") {
        let options = ObjectOptions {
            properties: Vec::new(),
            required: Vec::new(),
            additional_properties: false,
            object_reference: None,
        };
        let t = Type::Object(options);
        proof {
            assert(t@->Object_0.properties =~= seq![]);
            assert(t@->Object_0.required =~= seq![]);
        }
        Some(t)
    } else {
        None
    }
}

/// Reads a list of names of types, each without constraints.
fn decode_bare_types(items: &Vec<Yaml>) -> (r: Option<Vec<Type>>)
    ensures
        match r {
            Some(types) => bare_types(yaml_views(items@)) is Some && Argument::Multiple(types)@
                == ArgumentView::Multiple(bare_types(yaml_views(items@)).unwrap()),
            None => bare_types(yaml_views(items@)) is None,
        },
{
    let ghost views = yaml_views(items@);
    let mut types: Vec<Type> = Vec::new();
    let mut i: usize = 0;
    while i < items.len()
        invariant
            i <= items.len(),
            views == yaml_views(items@),
            types.len() == i,
            forall|k: int|
                0 <= k < i ==> (#[trigger] views[k]) is String && bare_type(views[k]->String_0)
                    == Some(types@[k]@),
        decreases items.len() - i,
    {
        assert(views[i as int] == items@[i as int]@);
        let t = match &items[i] {
            Yaml::String(name) => match default_type(name.as_str()) {
                Some(t) => t,
                None => {
                    return None;
                },
            },
            _ => {
                return None;
            },
        };
        types.push(t);
        i += 1;
    }
    proof {
        assert(Argument::Multiple(types)@->Multiple_0 =~= bare_types(views).unwrap());
    }
    Some(types)
}

/// The detail of the violation of a `type` that is neither a string nor a
/// sequence.
pub open spec fn bad_type_detail() -> Seq<char> {
    "type must be string or sequence"@
}

impl Variable {
    /// Reads a variable from a YAML value. Where its `type` is neither a
    /// string nor a sequence, the detail of the violation says so.
    pub fn deserialize(y: &Yaml) -> (r: Result<Variable, Error>)
        ensures
            decodes_to(r, variable_of(y@)),
            y@ is Mapping && variable_description_of(field(y@->Mapping_0, "description"@)) is Some
                && !(field(y@->Mapping_0, "type"@) matches Some(YamlView::String(_))) && !(field(
                y@->Mapping_0,
                "type"@,
            ) matches Some(YamlView::Sequence(_))) ==> r is Err && r->Err_0->SchemaViolation_0@
                == bad_type_detail(),
        decreases y,
    {
        let entries = match y {
            Yaml::Mapping(entries) => entries,
            _ => {
                return Err(violation("a variable must be a mapping"));
            },
        };
        proof {
            lemma_mapping_view(*y);
            assert(decreases_to!(y => y->Mapping_0));
        }
        let description = match get_field(entries, "description") {
            None => None,
            Some(Yaml::String(text)) => Some(text.clone()),
            Some(_) => {
                return Err(violation("description is not a string"));
            },
        };
        let kind = match get_field(entries, "type") {
            Some(kind) => kind,
            None => {
                return Err(violation("type must be string or sequence"));
            },
        };
        match kind {
            Yaml::String(name) => {
                match decode_type(name.as_str(), entries) {
                    Ok(t) => Ok(Variable { description, arg: Argument::Single(t) }),
                    Err(e) => Err(e),
                }
            },
            Yaml::Sequence(items) => {
                proof {
                    lemma_sequence_view(*kind);
                }
                match decode_bare_types(items) {
                    Some(types) => Ok(Variable { description, arg: Argument::Multiple(types) }),
                    None => Err(violation("a list of types must hold names of types")),
                }
            },
            _ => Err(violation("type must be string or sequence")),
        }
    }
}

/// Reads the type named `name` with the constraints that the entries of a
/// variable hold.
fn decode_type(name: &str, entries: &Vec<(Yaml, Yaml)>) -> (r: Result<Type, Error>)
    ensures
        decodes_to(r, type_of(name@, entry_views(entries@))),
    decreases entries,
{
    if str_eq(name, "null") {
        if has_only_fields(entries, &common_names()) {
            Ok(Type::Null)
        } else {
            Err(violation("unknown field"))
        }
    } else if str_eq(name, "boolean") {
        if has_only_fields(entries, &common_names()) {
            Ok(Type::Boolean)
        } else {
            Err(violation("unknown field"))
        }
    } else if str_eq(name, "string") {
        match decode_string_options(entries) {
            Some(options) => {
                let t = Type::String(options);
                Ok(t)
            },
            None => Err(violation("the constraints of a string do not fit")),
        }
    } else if str_eq(name, "number") {
        match decode_bounds(entries) {
            Some(bounds) => {
                let t = Type::Number(bounds);
                Ok(t)
            },
            None => Err(violation("the constraints of a number do not fit")),
        }
    } else if str_eq(name, "integer") {
        match decode_bounds(entries) {
            Some(bounds) => {
                let t = Type::Integer(
                    IntegerOptions { minimum: bounds.minimum, maximum: bounds.maximum },
                );
                Ok(t)
            },
            None => Err(violation("the constraints of an integer do not fit")),
        }
    } else if str_eq(name, "array") {
        if !has_only_fields(entries, &array_names()) {
            return Err(violation("unknown field"));
        }
        let min_items = match take_optional_size(get_field(entries, "minItems")) {
            Some(v) => v,
            None => {
                return Err(violation("minItems is not a size"));
            },
        };
        let max_items = match take_optional_size(get_field(entries, "maxItems")) {
            Some(v) => v,
            None => {
                return Err(violation("maxItems is not a size"));
            },
        };
        let items = match find_field(entries, "items") {
            None => None,
            Some(i) => {
                match &entries[i].1 {
                    Yaml::Null => None,
                    _ => {
                        proof {
                            assert(decreases_to!(entries => entries@));
                            assert(decreases_to!(entries@ => entries@[i as int]));
                            assert(decreases_to!(entries@[i as int] => entries@[i as int].1));
                        }
                        match Variable::deserialize(&entries[i].1) {
                            Ok(v) => Some(Box::new(v)),
                            Err(e) => {
                                return Err(e);
                            },
                        }
                    },
                }
            },
        };
        let t = Type::Array(ArrayOptions { min_items, max_items, items });
        Ok(t)
    } else if str_eq(name, "object") {
        if !has_only_fields(entries, &object_names()) {
            return Err(violation("unknown field"));
        }
        let properties = match find_field(entries, "properties") {
            None => {
                let none: Vec<(String, Variable)> = Vec::new();
                assert(named_views(none@) =~= seq![]);
                none
            },
            Some(i) => {
                proof {
                    assert(decreases_to!(entries => entries@));
                    assert(decreases_to!(entries@ => entries@[i as int]));
                    assert(decreases_to!(entries@[i as int] => entries@[i as int].1));
                }
                match decode_variables(&entries[i].1, false) {
                    Ok(v) => v,
                    Err(e) => {
                        return Err(e);
                    },
                }
            },
        };
        let required = match take_defaulted_texts(get_field(entries, "required")) {
            Some(v) => v,
            None => {
                return Err(violation("required is not a list of names"));
            },
        };
        let additional_properties = match take_flag(get_field(entries, "additionalProperties")) {
            Some(v) => v,
            None => {
                return Err(violation("additionalProperties is not a boolean"));
            },
        };
        let object_reference = match take_optional_text(get_field(entries, "$ref")) {
            Some(v) => v,
            None => {
                return Err(violation("$ref is not a string"));
            },
        };
        let t = Type::Object(
            ObjectOptions { properties, required, additional_properties, object_reference },
        );
        proof {
            assert(t@->Object_0.properties =~= named_views(properties@));
        }
        Ok(t)
    } else {
        Err(violation("unknown type"))
    }
}

/// Reads named variables from a YAML value, into the order of their names.
pub fn decode_variables(y: &Yaml, lenient: bool) -> (r: Result<Vec<(String, Variable)>, Error>)
    ensures
        match variables_of(y@, lenient) {
            Some(v) => r is Ok && named_views(r->Ok_0@) == v,
            None => r is Err && r->Err_0 is SchemaViolation,
        },
    decreases y,
{
    let pairs = match y {
        Yaml::Mapping(pairs) => pairs,
        _ => {
            return Err(violation("expected a mapping of names"));
        },
    };
    proof {
        lemma_mapping_view(*y);
    }
    let ghost views = entry_views(pairs@);
    let ghost named = named_variables(views, lenient);
    let mut out: Vec<(String, Variable)> = Vec::new();
    let mut j: usize = 0;
    while j < pairs.len()
        invariant
            j <= pairs.len(),
            y is Mapping,
            y->Mapping_0 == *pairs,
            views == entry_views(pairs@),
            named == named_variables(views, lenient),
            y@ == YamlView::Mapping(views),
            forall|k: int|
                0 <= k < j ==> key_text((#[trigger] views[k]).0, lenient) is Some && variable_of(
                    views[k].1,
                ) is Some,
            sorted_by_name(named.take(j as int)) == Some(named_views(out@)),
        decreases pairs.len() - j,
    {
        assert(views[j as int] == (pairs@[j as int].0@, pairs@[j as int].1@));
        let name = match take_key(&pairs[j].0, lenient) {
            Some(name) => name,
            None => {
                return Err(violation("a name must be a string"));
            },
        };
        proof {
            assert(decreases_to!(y => y->Mapping_0));
            assert(decreases_to!(y->Mapping_0 => y->Mapping_0@));
            assert(decreases_to!(y->Mapping_0@ => y->Mapping_0@[j as int]));
            assert(decreases_to!(y->Mapping_0@[j as int] => y->Mapping_0@[j as int].1));
        }
        let variable = match Variable::deserialize(&pairs[j].1) {
            Ok(v) => v,
            Err(e) => {
                return Err(e);
            },
        };
        proof {
            let next = named.take(j + 1);
            assert(next.drop_last() =~= named.take(j as int));
        }
        if find(&out, name.as_str()).is_some() {
            proof {
                lemma_sorted_by_name_of_prefix(named, j + 1);
            }
            return Err(violation("a name occurs twice"));
        }
        insert_sorted(&mut out, name, variable);
        j += 1;
    }
    assert(named.take(j as int) =~= named);
    Ok(out)
}

/// The fields that a command may have.
pub open spec fn command_fields() -> Seq<Seq<char>> {
    seq!["description"@, "arguments"@, "result"@]
}

/// The fields that an interface may have.
pub open spec fn interface_fields() -> Seq<Seq<char>> {
    seq!["description"@, "cmds"@, "vars"@]
}

/// The fields that a slot of a manifest must have.
pub open spec fn provides_entry_fields() -> Seq<Seq<char>> {
    seq!["interface"@, "description"@]
}

/// The fields that the metadata of a manifest must have.
pub open spec fn metadata_fields() -> Seq<Seq<char>> {
    seq!["license"@, "authors"@]
}

/// The fields that a manifest must have.
pub open spec fn manifest_fields() -> Seq<Seq<char>> {
    seq!["description"@, "provides"@, "metadata"@]
}

/// The field that a document with nothing but a description must have.
pub open spec fn yaml_data_fields() -> Seq<Seq<char>> {
    seq!["description"@]
}

/// The fields that a document of data types must have.
pub open spec fn data_types_fields() -> Seq<Seq<char>> {
    seq!["description"@, "types"@]
}

/// A field that may be absent, and must else hold named variables; absent
/// it holds none.
pub open spec fn defaulted_variables_of(value: Option<YamlView>) -> Option<
    Seq<(Seq<char>, VariableView)>,
> {
    match value {
        None => Some(seq![]),
        Some(v) => variables_of(v, true),
    }
}

/// A field that may be absent or null, and must else hold a variable.
pub open spec fn optional_variable_of(value: Option<YamlView>) -> Option<Option<VariableView>> {
    match value {
        None => Some(None),
        Some(YamlView::Null) => Some(None),
        Some(v) => match variable_of(v) {
            Some(variable) => Some(Some(variable)),
            None => None,
        },
    }
}

/// The command that a YAML value holds: a mapping with a description, with
/// arguments if it has any, and with a result if it has one.
pub open spec fn command_of(y: YamlView) -> Option<CommandView> {
    match y {
        YamlView::Mapping(entries) => {
            let description = text_of(field(entries, "description"@));
            let arguments = defaulted_variables_of(field(entries, "arguments"@));
            let result = optional_variable_of(field(entries, "result"@));
            if only_fields(entries, command_fields()) && description is Some && arguments is Some
                && result is Some {
                Some(
                    CommandView {
                        description: description.unwrap(),
                        arguments: arguments.unwrap(),
                        result: result.unwrap(),
                    },
                )
            } else {
                None
            }
        },
        _ => None,
    }
}

/// A command that says nothing; it stands where no command is.
pub open spec fn blank_command() -> CommandView {
    CommandView { description: seq![], arguments: seq![], result: None }
}

/// The command of each entry of a mapping under its name, in the order of
/// the document.
pub open spec fn named_commands(pairs: Seq<(YamlView, YamlView)>) -> Seq<(Seq<char>, CommandView)> {
    Seq::new(
        pairs.len(),
        |j: int|
            (
                scalar_text(pairs[j].0).unwrap(),
                match command_of(pairs[j].1) {
                    Some(c) => c,
                    None => blank_command(),
                },
            ),
    )
}

/// Whether each entry of a mapping holds a command under a name that is not
/// empty.
pub open spec fn all_commands(pairs: Seq<(YamlView, YamlView)>) -> bool {
    forall|j: int|
        0 <= j < pairs.len() ==> scalar_text((#[trigger] pairs[j]).0) is Some && scalar_text(
            pairs[j].0,
        ).unwrap().len() > 0 && command_of(pairs[j].1) is Some
}

/// The named commands that a YAML value holds, in the order of their names.
/// The value must be a mapping from names, each once and none empty, to
/// commands.
pub open spec fn commands_of(y: YamlView) -> Option<Seq<(Seq<char>, CommandView)>> {
    match y {
        YamlView::Mapping(pairs) => if all_commands(pairs) {
            sorted_by_name(named_commands(pairs))
        } else {
            None
        },
        _ => None,
    }
}

/// A field that may be absent, and must else hold named commands; absent it
/// holds none.
pub open spec fn defaulted_commands_of(value: Option<YamlView>) -> Option<
    Seq<(Seq<char>, CommandView)>,
> {
    match value {
        None => Some(seq![]),
        Some(v) => commands_of(v),
    }
}

/// The interface that a YAML value holds: a mapping with a description,
/// with commands if it has any, and with variables if it has any.
pub open spec fn interface_of(y: YamlView) -> Option<InterfaceView> {
    match y {
        YamlView::Mapping(entries) => {
            let description = text_of(field(entries, "description"@));
            let cmds = defaulted_commands_of(field(entries, "cmds"@));
            let vars = defaulted_variables_of(field(entries, "vars"@));
            if only_fields(entries, interface_fields()) && description is Some && cmds is Some
                && vars is Some {
                Some(
                    InterfaceView {
                        description: description.unwrap(),
                        cmds: cmds.unwrap(),
                        vars: vars.unwrap(),
                    },
                )
            } else {
                None
            }
        },
        _ => None,
    }
}

/// The slot that a YAML value holds: a mapping with an interface and a
/// description.
pub open spec fn provides_entry_of(y: YamlView) -> Option<ProvidesEntryView> {
    match y {
        YamlView::Mapping(entries) => {
            let interface = text_of(field(entries, "interface"@));
            let description = text_of(field(entries, "description"@));
            if only_fields(entries, provides_entry_fields()) && interface is Some
                && description is Some {
                Some(
                    ProvidesEntryView {
                        interface: interface.unwrap(),
                        description: description.unwrap(),
                    },
                )
            } else {
                None
            }
        },
        _ => None,
    }
}

/// A slot that says nothing; it stands where no slot is.
pub open spec fn blank_entry() -> ProvidesEntryView {
    ProvidesEntryView { interface: seq![], description: seq![] }
}

/// The slot of each entry of a mapping under its name, in the order of the
/// document.
pub open spec fn named_entries(pairs: Seq<(YamlView, YamlView)>) -> Seq<
    (Seq<char>, ProvidesEntryView),
> {
    Seq::new(
        pairs.len(),
        |j: int|
            (
                scalar_text(pairs[j].0).unwrap(),
                match provides_entry_of(pairs[j].1) {
                    Some(e) => e,
                    None => blank_entry(),
                },
            ),
    )
}

/// Whether each entry of a mapping holds a slot under a name that is not
/// empty.
pub open spec fn all_entries(pairs: Seq<(YamlView, YamlView)>) -> bool {
    forall|j: int|
        0 <= j < pairs.len() ==> scalar_text((#[trigger] pairs[j]).0) is Some && scalar_text(
            pairs[j].0,
        ).unwrap().len() > 0 && provides_entry_of(pairs[j].1) is Some
}

/// The slots that a YAML value holds, in the order of their names. The
/// value must be a mapping from names, each once and none empty, to slots.
pub open spec fn provides_of(y: YamlView) -> Option<Seq<(Seq<char>, ProvidesEntryView)>> {
    match y {
        YamlView::Mapping(pairs) => if all_entries(pairs) {
            sorted_by_name(named_entries(pairs))
        } else {
            None
        },
        _ => None,
    }
}

/// The metadata that a YAML value holds: a mapping with a license and a
/// list of authors.
pub open spec fn metadata_of(y: YamlView) -> Option<MetadataView> {
    match y {
        YamlView::Mapping(entries) => {
            let license = text_of(field(entries, "license"@));
            let authors = match field(entries, "authors"@) {
                Some(v) => scalar_texts_of(v),
                None => None,
            };
            if only_fields(entries, metadata_fields()) && license is Some && authors is Some {
                Some(MetadataView { license: license.unwrap(), authors: authors.unwrap() })
            } else {
                None
            }
        },
        _ => None,
    }
}

/// The manifest that a YAML value holds: a mapping with a description, the
/// slots, and the metadata.
pub open spec fn manifest_of(y: YamlView) -> Option<ManifestView> {
    match y {
        YamlView::Mapping(entries) => {
            let description = text_of(field(entries, "description"@));
            let provides = match field(entries, "provides"@) {
                Some(v) => provides_of(v),
                None => None,
            };
            let metadata = match field(entries, "metadata"@) {
                Some(v) => metadata_of(v),
                None => None,
            };
            if only_fields(entries, manifest_fields()) && description is Some && provides is Some
                && metadata is Some {
                Some(
                    ManifestView {
                        description: description.unwrap(),
                        provides: provides.unwrap(),
                        metadata: metadata.unwrap(),
                    },
                )
            } else {
                None
            }
        },
        _ => None,
    }
}

/// The description that a YAML value holds: a mapping with a description
/// and nothing else.
pub open spec fn yaml_data_of(y: YamlView) -> Option<YamlDataView> {
    match y {
        YamlView::Mapping(entries) => {
            let description = text_of(field(entries, "description"@));
            if only_fields(entries, yaml_data_fields()) && description is Some {
                Some(YamlDataView { description: description.unwrap() })
            } else {
                None
            }
        },
        _ => None,
    }
}

/// The data types that a YAML value holds: a mapping with a description and
/// the named types.
pub open spec fn data_types_of(y: YamlView) -> Option<DataTypesView> {
    match y {
        YamlView::Mapping(entries) => {
            let description = text_of(field(entries, "description"@));
            let types = match field(entries, "types"@) {
                Some(v) => variables_of(v, true),
                None => None,
            };
            if only_fields(entries, data_types_fields()) && description is Some && types is Some {
                Some(DataTypesView { description: description.unwrap(), types: types.unwrap() })
            } else {
                None
            }
        },
        _ => None,
    }
}

/// The manifest that a text holds: the text must be a YAML document, and
/// the document a manifest.
pub open spec fn manifest_document(text: Seq<char>) -> Option<ManifestView> {
    match yaml_document(text) {
        Some(y) => manifest_of(y),
        None => None,
    }
}

/// The interface that a text holds: the text must be a YAML document, and
/// the document an interface.
pub open spec fn interface_document(text: Seq<char>) -> Option<InterfaceView> {
    match yaml_document(text) {
        Some(y) => interface_of(y),
        None => None,
    }
}

/// The data types that a text holds: the text must be a YAML document, and
/// the document one of data types.
pub open spec fn data_types_document(text: Seq<char>) -> Option<DataTypesView> {
    match yaml_document(text) {
        Some(y) => data_types_of(y),
        None => None,
    }
}

/// A list of three names.
fn names_of(first: &'static str, second: &'static str, third: &'static str) -> (names: Vec<
    &'static str,
>)
    ensures
        slice_texts(names@) == seq![first@, second@, third@],
{
    let mut names: Vec<&'static str> = Vec::new();
    names.push(first);
    names.push(second);
    names.push(third);
    names
}

/// A list of two names.
fn pair_of(first: &'static str, second: &'static str) -> (names: Vec<&'static str>)
    ensures
        slice_texts(names@) == seq![first@, second@],
{
    let mut names: Vec<&'static str> = Vec::new();
    names.push(first);
    names.push(second);
    names
}

/// Reads a field that may be absent, and must else hold named variables.
fn take_defaulted_variables(value: Option<&Yaml>) -> (r: Result<Vec<(String, Variable)>, Error>)
    ensures
        match defaulted_variables_of(optional_view(value)) {
            Some(v) => r is Ok && named_views(r->Ok_0@) == v,
            None => r is Err && r->Err_0 is SchemaViolation,
        },
{
    match value {
        None => {
            let none: Vec<(String, Variable)> = Vec::new();
            Ok(none)
        },
        Some(v) => decode_variables(v, true),
    }
}

/// Reads a field that may be absent or null, and must else hold a variable.
fn take_optional_variable(value: Option<&Yaml>) -> (r: Result<Option<Variable>, Error>)
    ensures
        match optional_variable_of(optional_view(value)) {
            Some(Some(v)) => r is Ok && r->Ok_0 is Some && r->Ok_0->Some_0@ == v,
            Some(None) => r is Ok && r->Ok_0 is None,
            None => r is Err && r->Err_0 is SchemaViolation,
        },
{
    match value {
        None => Ok(None),
        Some(Yaml::Null) => Ok(None),
        Some(v) => match Variable::deserialize(v) {
            Ok(variable) => Ok(Some(variable)),
            Err(e) => Err(e),
        },
    }
}

impl Command {
    /// Reads a command from a YAML value.
    pub fn from_yaml(y: &Yaml) -> (r: Result<Command, Error>)
        ensures
            decodes_to(r, command_of(y@)),
            r is Ok ==> command_well_formed(r->Ok_0@),
    {
        proof {
            lemma_command_is_well_formed(y@);
        }
        let entries = match y {
            Yaml::Mapping(entries) => entries,
            _ => {
                return Err(violation("a command must be a mapping"));
            },
        };
        proof {
            lemma_mapping_view(*y);
        }
        if !has_only_fields(entries, &names_of("description", "arguments", "result")) {
            return Err(violation("unknown field in a command"));
        }
        let description = match take_text(get_field(entries, "description")) {
            Some(text) => text,
            None => {
                return Err(violation("a command must have a description"));
            },
        };
        let arguments = match take_defaulted_variables(get_field(entries, "arguments")) {
            Ok(v) => v,
            Err(e) => {
                return Err(e);
            },
        };
        let result = match take_optional_variable(get_field(entries, "result")) {
            Ok(v) => v,
            Err(e) => {
                return Err(e);
            },
        };
        Ok(Command { description, arguments, result })
    }
}

/// Reads named commands from a YAML value, into the order of their names.
pub fn decode_commands(y: &Yaml) -> (r: Result<Vec<(String, Command)>, Error>)
    ensures
        match commands_of(y@) {
            Some(v) => r is Ok && named_views(r->Ok_0@) == v,
            None => r is Err && r->Err_0 is SchemaViolation,
        },
{
    let pairs = match y {
        Yaml::Mapping(pairs) => pairs,
        _ => {
            return Err(violation("expected a mapping of commands"));
        },
    };
    proof {
        lemma_mapping_view(*y);
    }
    let ghost views = entry_views(pairs@);
    let ghost named = named_commands(views);
    let mut out: Vec<(String, Command)> = Vec::new();
    let mut j: usize = 0;
    while j < pairs.len()
        invariant
            j <= pairs.len(),
            views == entry_views(pairs@),
            named == named_commands(views),
            y@ == YamlView::Mapping(views),
            forall|k: int|
                0 <= k < j ==> scalar_text((#[trigger] views[k]).0) is Some && scalar_text(
                    views[k].0,
                ).unwrap().len() > 0 && command_of(views[k].1) is Some,
            sorted_by_name(named.take(j as int)) == Some(named_views(out@)),
        decreases pairs.len() - j,
    {
        assert(views[j as int] == (pairs@[j as int].0@, pairs@[j as int].1@));
        let name = match take_scalar(&pairs[j].0) {
            Some(name) => name,
            None => {
                return Err(violation("the name of a command must be a scalar"));
            },
        };
        if name.as_str().is_empty() {
            return Err(violation("the name of a command must not be empty"));
        }
        let command = match Command::from_yaml(&pairs[j].1) {
            Ok(c) => c,
            Err(e) => {
                return Err(e);
            },
        };
        proof {
            let next = named.take(j + 1);
            assert(next.drop_last() =~= named.take(j as int));
        }
        if find(&out, name.as_str()).is_some() {
            proof {
                lemma_sorted_by_name_of_prefix(named, j + 1);
            }
            return Err(violation("the name of a command occurs twice"));
        }
        insert_sorted(&mut out, name, command);
        j += 1;
    }
    assert(named.take(j as int) =~= named);
    Ok(out)
}

impl ProvidesEntry {
    /// Reads a slot of a manifest from a YAML value.
    pub fn from_yaml(y: &Yaml) -> (r: Result<ProvidesEntry, Error>)
        ensures
            decodes_to(r, provides_entry_of(y@)),
    {
        let entries = match y {
            Yaml::Mapping(entries) => entries,
            _ => {
                return Err(violation("a slot must be a mapping"));
            },
        };
        proof {
            lemma_mapping_view(*y);
        }
        if !has_only_fields(entries, &pair_of("interface", "description")) {
            return Err(violation("unknown field in a slot"));
        }
        let interface = match take_text(get_field(entries, "interface")) {
            Some(text) => text,
            None => {
                return Err(violation("a slot must name its interface"));
            },
        };
        let description = match take_text(get_field(entries, "description")) {
            Some(text) => text,
            None => {
                return Err(violation("a slot must have a description"));
            },
        };
        Ok(ProvidesEntry { interface, description })
    }
}

/// Reads the slots of a manifest from a YAML value, into the order of their
/// names.
pub fn decode_provides(y: &Yaml) -> (r: Result<Vec<(String, ProvidesEntry)>, Error>)
    ensures
        match provides_of(y@) {
            Some(v) => r is Ok && named_views(r->Ok_0@) == v,
            None => r is Err && r->Err_0 is SchemaViolation,
        },
{
    let pairs = match y {
        Yaml::Mapping(pairs) => pairs,
        _ => {
            return Err(violation("expected a mapping of slots"));
        },
    };
    proof {
        lemma_mapping_view(*y);
    }
    let ghost views = entry_views(pairs@);
    let ghost named = named_entries(views);
    let mut out: Vec<(String, ProvidesEntry)> = Vec::new();
    let mut j: usize = 0;
    while j < pairs.len()
        invariant
            j <= pairs.len(),
            views == entry_views(pairs@),
            named == named_entries(views),
            y@ == YamlView::Mapping(views),
            forall|k: int|
                0 <= k < j ==> scalar_text((#[trigger] views[k]).0) is Some && scalar_text(
                    views[k].0,
                ).unwrap().len() > 0 && provides_entry_of(views[k].1) is Some,
            sorted_by_name(named.take(j as int)) == Some(named_views(out@)),
        decreases pairs.len() - j,
    {
        assert(views[j as int] == (pairs@[j as int].0@, pairs@[j as int].1@));
        let name = match take_scalar(&pairs[j].0) {
            Some(name) => name,
            None => {
                return Err(violation("the name of a slot must be a scalar"));
            },
        };
        if name.as_str().is_empty() {
            return Err(violation("the name of a slot must not be empty"));
        }
        let entry = match ProvidesEntry::from_yaml(&pairs[j].1) {
            Ok(e) => e,
            Err(e) => {
                return Err(e);
            },
        };
        proof {
            let next = named.take(j + 1);
            assert(next.drop_last() =~= named.take(j as int));
        }
        if find(&out, name.as_str()).is_some() {
            proof {
                lemma_sorted_by_name_of_prefix(named, j + 1);
            }
            return Err(violation("the name of a slot occurs twice"));
        }
        insert_sorted(&mut out, name, entry);
        j += 1;
    }
    assert(named.take(j as int) =~= named);
    Ok(out)
}

impl Interface {
    /// Reads an interface from a YAML value.
    pub fn from_yaml(y: &Yaml) -> (r: Result<Interface, Error>)
        ensures
            decodes_to(r, interface_of(y@)),
            r is Ok ==> interface_well_formed(r->Ok_0@),
    {
        proof {
            lemma_interface_is_well_formed(y@);
        }
        let entries = match y {
            Yaml::Mapping(entries) => entries,
            _ => {
                return Err(violation("an interface must be a mapping"));
            },
        };
        proof {
            lemma_mapping_view(*y);
        }
        if !has_only_fields(entries, &names_of("description", "cmds", "vars")) {
            return Err(violation("unknown field in an interface"));
        }
        let description = match take_text(get_field(entries, "description")) {
            Some(text) => text,
            None => {
                return Err(violation("an interface must have a description"));
            },
        };
        let cmds = match get_field(entries, "cmds") {
            None => {
                let none: Vec<(String, Command)> = Vec::new();
                assert(named_views(none@) =~= seq![]);
                none
            },
            Some(v) => match decode_commands(v) {
                Ok(cmds) => cmds,
                Err(e) => {
                    return Err(e);
                },
            },
        };
        let vars = match take_defaulted_variables(get_field(entries, "vars")) {
            Ok(v) => v,
            Err(e) => {
                return Err(e);
            },
        };
        Ok(Interface { description, cmds, vars })
    }

    /// Reads an interface from the text of a YAML document.
    pub fn parse(text: &str) -> (r: Result<Interface, Error>)
        ensures
            decodes_to(r, interface_document(text@)),
            r is Ok ==> interface_well_formed(r->Ok_0@),
    {
        match Yaml::parse(text) {
            Ok(y) => Interface::from_yaml(&y),
            Err(e) => Err(e),
        }
    }
}

impl Metadata {
    /// Reads the metadata of a manifest from a YAML value.
    pub fn from_yaml(y: &Yaml) -> (r: Result<Metadata, Error>)
        ensures
            decodes_to(r, metadata_of(y@)),
    {
        let entries = match y {
            Yaml::Mapping(entries) => entries,
            _ => {
                return Err(violation("the metadata must be a mapping"));
            },
        };
        proof {
            lemma_mapping_view(*y);
        }
        if !has_only_fields(entries, &pair_of("license", "authors")) {
            return Err(violation("unknown field in the metadata"));
        }
        let license = match take_text(get_field(entries, "license")) {
            Some(text) => text,
            None => {
                return Err(violation("the metadata must name a license"));
            },
        };
        let authors = match get_field(entries, "authors") {
            Some(v) => match take_scalar_texts(v) {
                Some(authors) => authors,
                None => {
                    return Err(violation("the authors must be a list of names"));
                },
            },
            None => {
                return Err(violation("the metadata must name the authors"));
            },
        };
        Ok(Metadata { license, authors })
    }
}

impl Manifest {
    /// Reads a manifest from a YAML value.
    pub fn from_yaml(y: &Yaml) -> (r: Result<Manifest, Error>)
        ensures
            decodes_to(r, manifest_of(y@)),
            r is Ok ==> manifest_well_formed(r->Ok_0@),
    {
        proof {
            lemma_manifest_is_well_formed(y@);
        }
        let entries = match y {
            Yaml::Mapping(entries) => entries,
            _ => {
                return Err(violation("a manifest must be a mapping"));
            },
        };
        proof {
            lemma_mapping_view(*y);
        }
        if !has_only_fields(entries, &names_of("description", "provides", "metadata")) {
            return Err(violation("unknown field in a manifest"));
        }
        let description = match take_text(get_field(entries, "description")) {
            Some(text) => text,
            None => {
                return Err(violation("a manifest must have a description"));
            },
        };
        let provides = match get_field(entries, "provides") {
            Some(v) => match decode_provides(v) {
                Ok(provides) => provides,
                Err(e) => {
                    return Err(e);
                },
            },
            None => {
                return Err(violation("a manifest must say what it provides"));
            },
        };
        let metadata = match get_field(entries, "metadata") {
            Some(v) => match Metadata::from_yaml(v) {
                Ok(metadata) => metadata,
                Err(e) => {
                    return Err(e);
                },
            },
            None => {
                return Err(violation("a manifest must have metadata"));
            },
        };
        Ok(Manifest { description, provides, metadata })
    }

    /// Reads a manifest from the text of a YAML document.
    pub fn parse(text: &str) -> (r: Result<Manifest, Error>)
        ensures
            decodes_to(r, manifest_document(text@)),
            r is Ok ==> manifest_well_formed(r->Ok_0@),
    {
        match Yaml::parse(text) {
            Ok(y) => Manifest::from_yaml(&y),
            Err(e) => Err(e),
        }
    }
}

impl YamlData {
    /// Reads a description from a YAML value.
    pub fn from_yaml(y: &Yaml) -> (r: Result<YamlData, Error>)
        ensures
            decodes_to(r, yaml_data_of(y@)),
    {
        let entries = match y {
            Yaml::Mapping(entries) => entries,
            _ => {
                return Err(violation("the document must be a mapping"));
            },
        };
        proof {
            lemma_mapping_view(*y);
        }
        let mut names: Vec<&'static str> = Vec::new();
        names.push("description");
        assert(slice_texts(names@) =~= yaml_data_fields());
        if !has_only_fields(entries, &names) {
            return Err(violation("unknown field"));
        }
        match take_text(get_field(entries, "description")) {
            Some(description) => Ok(YamlData { description }),
            None => Err(violation("the document must have a description")),
        }
    }
}

impl DataTypes {
    /// Reads a document of data types from a YAML value.
    pub fn from_yaml(y: &Yaml) -> (r: Result<DataTypes, Error>)
        ensures
            decodes_to(r, data_types_of(y@)),
            r is Ok ==> strictly_sorted(r->Ok_0@.types),
    {
        proof {
            if data_types_of(y@) is Some {
                lemma_variables_are_sorted(field(y@->Mapping_0, "types"@).unwrap(), true);
            }
        }
        let entries = match y {
            Yaml::Mapping(entries) => entries,
            _ => {
                return Err(violation("the document must be a mapping"));
            },
        };
        proof {
            lemma_mapping_view(*y);
        }
        if !has_only_fields(entries, &pair_of("description", "types")) {
            return Err(violation("unknown field in the data types"));
        }
        let description = match take_text(get_field(entries, "description")) {
            Some(text) => text,
            None => {
                return Err(violation("the data types must have a description"));
            },
        };
        let types = match get_field(entries, "types") {
            Some(v) => match decode_variables(v, true) {
                Ok(types) => types,
                Err(e) => {
                    return Err(e);
                },
            },
            None => {
                return Err(violation("the data types must hold types"));
            },
        };
        Ok(DataTypes { description, types })
    }

    /// Reads a document of data types from the text of a YAML document.
    pub fn parse(text: &str) -> (r: Result<DataTypes, Error>)
        ensures
            decodes_to(r, data_types_document(text@)),
            r is Ok ==> strictly_sorted(r->Ok_0@.types),
    {
        match Yaml::parse(text) {
            Ok(y) => DataTypes::from_yaml(&y),
            Err(e) => Err(e),
        }
    }
}

/// The kinds of documents.
#[derive(Clone, Copy, Debug, PartialEq, Eq, Structural)]
pub enum DocumentKind {
    Manifest,
    Interface,
    DataTypes,
}

/// Whether a text is a valid document of a kind.
pub open spec fn valid_document(kind: DocumentKind, text: Seq<char>) -> bool {
    match kind {
        DocumentKind::Manifest => manifest_document(text) is Some,
        DocumentKind::Interface => interface_document(text) is Some,
        DocumentKind::DataTypes => data_types_document(text) is Some,
    }
}

/// Validates the text of a document of a kind: it is read, and the value
/// is dropped.
pub fn validate(kind: DocumentKind, text: &str) -> (r: Result<(), Error>)
    ensures
        r is Ok <==> valid_document(kind, text@),
        r is Err ==> r->Err_0 is SchemaViolation,
{
    match kind {
        DocumentKind::Manifest => match Manifest::parse(text) {
            Ok(_) => Ok(()),
            Err(e) => Err(e),
        },
        DocumentKind::Interface => match Interface::parse(text) {
            Ok(_) => Ok(()),
            Err(e) => Err(e),
        },
        DocumentKind::DataTypes => match DataTypes::parse(text) {
            Ok(_) => Ok(()),
            Err(e) => Err(e),
        },
    }
}

/// The variables that a value holds stand in the order of their names.
pub proof fn lemma_variables_are_sorted(y: YamlView, lenient: bool)
    ensures
        variables_of(y, lenient) is Some ==> strictly_sorted(variables_of(y, lenient).unwrap()),
{
    if variables_of(y, lenient) is Some {
        lemma_sorted_by_name(named_variables(y->Mapping_0, lenient));
    }
}

/// The command that a value holds is well formed.
pub proof fn lemma_command_is_well_formed(y: YamlView)
    ensures
        command_of(y) is Some ==> command_well_formed(command_of(y).unwrap()),
{
    if command_of(y) is Some {
        match field(y->Mapping_0, "arguments"@) {
            Some(v) => {
                lemma_variables_are_sorted(v, true);
            },
            None => {},
        }
    }
}

/// The interface that a value holds is well formed.
pub proof fn lemma_interface_is_well_formed(y: YamlView)
    ensures
        interface_of(y) is Some ==> interface_well_formed(interface_of(y).unwrap()),
{
    if interface_of(y) is Some {
        let entries = y->Mapping_0;
        match field(entries, "vars"@) {
            Some(v) => {
                lemma_variables_are_sorted(v, true);
            },
            None => {},
        }
        match field(entries, "cmds"@) {
            Some(v) => {
                let pairs = v->Mapping_0;
                let named = named_commands(pairs);
                let holds = |entry: (Seq<char>, CommandView)|
                    entry.0.len() > 0 && command_well_formed(entry.1);
                assert forall|j: int| 0 <= j < named.len() implies holds(#[trigger] named[j]) by {
                    lemma_command_is_well_formed(pairs[j].1);
                }
                lemma_sorted_by_name(named);
                lemma_sorted_by_name_keeps(named, holds);
            },
            None => {},
        }
    }
}

/// The manifest that a value holds is well formed.
pub proof fn lemma_manifest_is_well_formed(y: YamlView)
    ensures
        manifest_of(y) is Some ==> manifest_well_formed(manifest_of(y).unwrap()),
{
    if manifest_of(y) is Some {
        let v = field(y->Mapping_0, "provides"@).unwrap();
        let pairs = v->Mapping_0;
        let named = named_entries(pairs);
        let holds = |entry: (Seq<char>, ProvidesEntryView)| entry.0.len() > 0;
        lemma_sorted_by_name(named);
        lemma_sorted_by_name_keeps(named, holds);
    }
}

} // verus!
