//! Interfaces: commands and variables with their JSON-Schema-like types.

use crate::number::{Numeral, NumeralView};
use crate::table::{is_strictly_sorted, named_views, strictly_sorted};
use crate::text::texts;
use vstd::prelude::*;

verus! {

/// An interface: commands and variables by name, each list sorted by name.
#[derive(Debug)]
pub struct Interface {
    pub description: String,
    pub cmds: Vec<(String, Command)>,
    pub vars: Vec<(String, Variable)>,
}

/// A command: arguments by name, sorted by name, and a result if it has one.
#[derive(Debug)]
pub struct Command {
    pub description: String,
    pub arguments: Vec<(String, Variable)>,
    pub result: Option<Variable>,
}

/// A described value: an argument, a result, a variable or a property.
#[derive(Debug)]
pub struct Variable {
    pub description: Option<String>,
    pub arg: Argument,
}

/// The types that a value may have on the wire: one, or any of several.
#[derive(Debug)]
pub enum Argument {
    Single(Type),
    Multiple(Vec<Type>),
}

/// The bounds of a number.
#[derive(Debug)]
pub struct NumberOptions {
    pub minimum: Option<Numeral>,
    pub maximum: Option<Numeral>,
}

/// The bounds of an integer.
#[derive(Debug)]
pub struct IntegerOptions {
    pub minimum: Option<Numeral>,
    pub maximum: Option<Numeral>,
}

/// The constraints on an array.
#[derive(Debug)]
pub struct ArrayOptions {
    pub min_items: Option<usize>,
    pub max_items: Option<usize>,
    pub items: Option<Box<Variable>>,
}

/// The constraints on an object; the properties are sorted by name.
#[derive(Debug)]
pub struct ObjectOptions {
    pub properties: Vec<(String, Variable)>,
    pub required: Vec<String>,
    pub additional_properties: bool,
    pub object_reference: Option<String>,
}

/// The named formats of a string.
#[derive(Clone, Copy, Debug, PartialEq, Eq, Structural)]
pub enum StringFormat {
    DateTime,
}

/// The constraints on a string.
#[derive(Debug)]
pub struct StringOptions {
    pub pattern: Option<String>,
    pub format: Option<StringFormat>,
    pub max_length: Option<usize>,
    pub min_length: Option<usize>,
    pub enum_items: Option<Vec<String>>,
    pub object_reference: Option<String>,
}

/// A type with its constraints.
#[derive(Debug)]
pub enum Type {
    Null,
    Boolean,
    String(StringOptions),
    Number(NumberOptions),
    Integer(IntegerOptions),
    Array(ArrayOptions),
    Object(ObjectOptions),
}

/// The mathematical value of an [`Interface`].
pub struct InterfaceView {
    pub description: Seq<char>,
    pub cmds: Seq<(Seq<char>, CommandView)>,
    pub vars: Seq<(Seq<char>, VariableView)>,
}

/// The mathematical value of a [`Command`].
pub struct CommandView {
    pub description: Seq<char>,
    pub arguments: Seq<(Seq<char>, VariableView)>,
    pub result: Option<VariableView>,
}

/// The mathematical value of a [`Variable`].
pub struct VariableView {
    pub description: Option<Seq<char>>,
    pub arg: ArgumentView,
}

/// The mathematical value of an [`Argument`].
pub enum ArgumentView {
    Single(TypeView),
    Multiple(Seq<TypeView>),
}

/// The mathematical value of a [`NumberOptions`] or an [`IntegerOptions`].
pub struct BoundsView {
    pub minimum: Option<NumeralView>,
    pub maximum: Option<NumeralView>,
}

/// The mathematical value of an [`ArrayOptions`].
pub struct ArrayOptionsView {
    pub min_items: Option<usize>,
    pub max_items: Option<usize>,
    pub items: Option<Box<VariableView>>,
}

/// The mathematical value of an [`ObjectOptions`].
pub struct ObjectOptionsView {
    pub properties: Seq<(Seq<char>, VariableView)>,
    pub required: Seq<Seq<char>>,
    pub additional_properties: bool,
    pub object_reference: Option<Seq<char>>,
}

/// The mathematical value of a [`StringOptions`].
pub struct StringOptionsView {
    pub pattern: Option<Seq<char>>,
    pub format: Option<StringFormat>,
    pub max_length: Option<usize>,
    pub min_length: Option<usize>,
    pub enum_items: Option<Seq<Seq<char>>>,
    pub object_reference: Option<Seq<char>>,
}

/// The mathematical value of a [`Type`].
pub enum TypeView {
    Null,
    Boolean,
    String(StringOptionsView),
    Number(BoundsView),
    Integer(BoundsView),
    Array(ArrayOptionsView),
    Object(ObjectOptionsView),
}

/// The text of a string that may be absent.
pub open spec fn optional_text(s: Option<String>) -> Option<Seq<char>> {
    match s {
        Some(s) => Some(s@),
        None => None,
    }
}

/// The value of a number that may be absent.
pub open spec fn optional_numeral(n: Option<Numeral>) -> Option<NumeralView> {
    match n {
        Some(n) => Some(n@),
        None => None,
    }
}

/// The mathematical value of a variable.
pub open spec fn variable_view(v: Variable) -> VariableView
    decreases v,
{
    VariableView { description: optional_text(v.description), arg: argument_view(v.arg) }
}

/// The mathematical value of an argument.
pub open spec fn argument_view(a: Argument) -> ArgumentView
    decreases a,
{
    match a {
        Argument::Single(t) => ArgumentView::Single(type_view(t)),
        Argument::Multiple(types) => ArgumentView::Multiple(
            Seq::new(
                types@.len(),
                |i: int|
                    if 0 <= i < types@.len() {
                        type_view(types@[i])
                    } else {
                        TypeView::Null
                    },
            ),
        ),
    }
}

/// The mathematical value of a type.
pub open spec fn type_view(t: Type) -> TypeView
    decreases t,
{
    match t {
        Type::Null => TypeView::Null,
        Type::Boolean => TypeView::Boolean,
        Type::String(o) => TypeView::String(o@),
        Type::Number(o) => TypeView::Number(o@),
        Type::Integer(o) => TypeView::Integer(o@),
        Type::Array(o) => TypeView::Array(
            ArrayOptionsView {
                min_items: o.min_items,
                max_items: o.max_items,
                items: match o.items {
                    Some(item) => Some(Box::new(variable_view(*item))),
                    None => None,
                },
            },
        ),
        Type::Object(o) => TypeView::Object(
            ObjectOptionsView {
                properties: Seq::new(
                    o.properties@.len(),
                    |i: int|
                        if 0 <= i < o.properties@.len() {
                            (o.properties@[i].0@, variable_view(o.properties@[i].1))
                        } else {
                            (Seq::empty(), VariableView { description: None, arg: ArgumentView::Single(TypeView::Null) })
                        },
                ),
                required: texts(o.required@),
                additional_properties: o.additional_properties,
                object_reference: optional_text(o.object_reference),
            },
        ),
    }
}

impl View for StringOptions {
    type V = StringOptionsView;

    open spec fn view(&self) -> StringOptionsView {
        StringOptionsView {
            pattern: optional_text(self.pattern),
            format: self.format,
            max_length: self.max_length,
            min_length: self.min_length,
            enum_items: match self.enum_items {
                Some(items) => Some(texts(items@)),
                None => None,
            },
            object_reference: optional_text(self.object_reference),
        }
    }
}

impl View for NumberOptions {
    type V = BoundsView;

    open spec fn view(&self) -> BoundsView {
        BoundsView {
            minimum: optional_numeral(self.minimum),
            maximum: optional_numeral(self.maximum),
        }
    }
}

impl View for IntegerOptions {
    type V = BoundsView;

    open spec fn view(&self) -> BoundsView {
        BoundsView {
            minimum: optional_numeral(self.minimum),
            maximum: optional_numeral(self.maximum),
        }
    }
}

impl View for Type {
    type V = TypeView;

    open spec fn view(&self) -> TypeView {
        type_view(*self)
    }
}

impl View for Argument {
    type V = ArgumentView;

    open spec fn view(&self) -> ArgumentView {
        argument_view(*self)
    }
}

impl View for Variable {
    type V = VariableView;

    open spec fn view(&self) -> VariableView {
        variable_view(*self)
    }
}

impl View for ArrayOptions {
    type V = ArrayOptionsView;

    open spec fn view(&self) -> ArrayOptionsView {
        type_view(Type::Array(*self))->Array_0
    }
}

impl View for ObjectOptions {
    type V = ObjectOptionsView;

    open spec fn view(&self) -> ObjectOptionsView {
        type_view(Type::Object(*self))->Object_0
    }
}

impl View for Command {
    type V = CommandView;

    open spec fn view(&self) -> CommandView {
        CommandView {
            description: self.description@,
            arguments: named_views(self.arguments@),
            result: match self.result {
                Some(v) => Some(v@),
                None => None,
            },
        }
    }
}

impl View for Interface {
    type V = InterfaceView;

    open spec fn view(&self) -> InterfaceView {
        InterfaceView {
            description: self.description@,
            cmds: named_views(self.cmds@),
            vars: named_views(self.vars@),
        }
    }
}

/// Whether a command is well formed: its arguments stand in the order of
/// their names, each name once.
pub open spec fn command_well_formed(command: CommandView) -> bool {
    strictly_sorted(command.arguments)
}

/// Whether an interface is well formed: its commands and its variables
/// stand in the order of their names, each name once; no command has an
/// empty name; and each command is well formed.
pub open spec fn interface_well_formed(interface: InterfaceView) -> bool {
    &&& strictly_sorted(interface.cmds)
    &&& strictly_sorted(interface.vars)
    &&& forall|i: int|
        0 <= i < interface.cmds.len() ==> (#[trigger] interface.cmds[i]).0.len() > 0
            && command_well_formed(interface.cmds[i].1)
}

impl Command {
    /// Whether the command is well formed.
    pub fn is_well_formed(&self) -> (r: bool)
        ensures
            r == command_well_formed(self@),
    {
        is_strictly_sorted(&self.arguments)
    }
}

impl Interface {
    /// Whether the interface is well formed.
    pub fn is_well_formed(&self) -> (r: bool)
        ensures
            r == interface_well_formed(self@),
    {
        if !is_strictly_sorted(&self.cmds) || !is_strictly_sorted(&self.vars) {
            return false;
        }
        let ghost cmds = self@.cmds;
        let mut i: usize = 0;
        while i < self.cmds.len()
            invariant
                i <= self.cmds.len(),
                cmds == named_views(self.cmds@),
                forall|k: int|
                    0 <= k < i ==> (#[trigger] cmds[k]).0.len() > 0 && command_well_formed(
                        cmds[k].1,
                    ),
            decreases self.cmds.len() - i,
        {
            assert(cmds[i as int] == (self.cmds@[i as int].0@, self.cmds@[i as int].1@));
            if self.cmds[i].0.as_str().is_empty() || !self.cmds[i].1.is_well_formed() {
                return false;
            }
            i += 1;
        }
        true
    }
}

} // verus!
