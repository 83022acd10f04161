//! The code emitter: from a manifest and its interfaces to the source text of
//! the module's service surface.

use crate::error::{BuildError, BuildErrorView, Error, ErrorView};
use crate::json::{json_text, lemma_object_view, written, Json, JsonView};
use crate::schema::interface::{
    interface_well_formed, Argument, ArgumentView, Command, CommandView, Interface, InterfaceView, Type, TypeView,
    Variable, VariableView,
};
use crate::schema::manifest::{
    manifest_well_formed, Manifest, ManifestView, ProvidesEntry, ProvidesEntryView,
};
use crate::table::{find, lookup, named_views};
use crate::text::{concatenate, flat, join, joined, literal, push_char, quote, slice_texts, texts};
use vstd::prelude::*;
use vstd::string::StringExecFns;

verus! {

/// How a value of an interface is held in generated code and on the wire.
#[derive(Clone, Copy, Debug, PartialEq, Eq, Structural)]
pub enum Representation {
    /// A boolean.
    Boolean,
    /// A string.
    Text,
    /// Any JSON value, left to the service implementation.
    Opaque,
}

/// The type mapping: a boolean and a string are held as such, a union of
/// types as any JSON value; no other single type is mapped.
pub open spec fn representation(arg: ArgumentView) -> Option<Representation> {
    match arg {
        ArgumentView::Single(TypeView::Boolean) => Some(Representation::Boolean),
        ArgumentView::Single(TypeView::String(_)) => Some(Representation::Text),
        ArgumentView::Single(_) => None,
        ArgumentView::Multiple(_) => Some(Representation::Opaque),
    }
}

/// Maps the type of an argument or a result, `None` where it has no mapping.
pub fn type_for_argument(arg: &Argument) -> (r: Option<Representation>)
    ensures
        r == representation(arg@),
{
    match arg {
        Argument::Single(Type::Boolean) => Some(Representation::Boolean),
        Argument::Single(Type::String(_)) => Some(Representation::Text),
        Argument::Single(_) => None,
        Argument::Multiple(_) => Some(Representation::Opaque),
    }
}

/// The place of an argument of a command, as an unsupported type is reported.
pub open spec fn argument_path(command: Seq<char>, argument: Seq<char>) -> Seq<char> {
    command + "."@ + argument
}

/// The place of the result of a command, as an unsupported type is reported.
pub open spec fn result_path(command: Seq<char>) -> Seq<char> {
    command + " result"@
}

/// The index of the first argument, from `from` on, whose type has no
/// mapping, or the number of arguments.
pub open spec fn first_unmapped(arguments: Seq<(Seq<char>, VariableView)>, from: int) -> int
    decreases arguments.len() - from,
{
    if from < 0 || from >= arguments.len() {
        arguments.len() as int
    } else if representation(arguments[from].1.arg) is None {
        from
    } else {
        first_unmapped(arguments, from + 1)
    }
}

/// The place of the first type of a command that has no mapping, if there is
/// one: the arguments in the order of their names, then the result.
pub open spec fn unsupported_in_command(name: Seq<char>, command: CommandView) -> Option<Seq<char>> {
    let k = first_unmapped(command.arguments, 0);
    if k < command.arguments.len() {
        Some(argument_path(name, command.arguments[k].0))
    } else {
        match command.result {
            Some(v) => if representation(v.arg) is None {
                Some(result_path(name))
            } else {
                None
            },
            None => None,
        }
    }
}

/// The index of the first command, from `from` on, that holds a type without
/// a mapping, or the number of commands.
pub open spec fn first_unsupported(cmds: Seq<(Seq<char>, CommandView)>, from: int) -> int
    decreases cmds.len() - from,
{
    if from < 0 || from >= cmds.len() {
        cmds.len() as int
    } else if unsupported_in_command(cmds[from].0, cmds[from].1) is Some {
        from
    } else {
        first_unsupported(cmds, from + 1)
    }
}

/// The place of the first type of an interface that has no mapping, if there
/// is one: the commands in the order of their names.
pub open spec fn unsupported_in(interface: InterfaceView) -> Option<Seq<char>> {
    let k = first_unsupported(interface.cmds, 0);
    if k < interface.cmds.len() {
        unsupported_in_command(interface.cmds[k].0, interface.cmds[k].1)
    } else {
        None
    }
}

/// Checks that every type of a command has a mapping.
pub(crate) fn check_command(name: &str, command: &Command) -> (r: Result<(), Error>)
    ensures
        match r {
            Ok(()) => unsupported_in_command(name@, command@) is None,
            Err(e) => unsupported_in_command(name@, command@) is Some && e@
                == ErrorView::UnsupportedType(unsupported_in_command(name@, command@).unwrap()),
        },
{
    let ghost arguments = command@.arguments;
    let mut k: usize = 0;
    while k < command.arguments.len()
        invariant
            k <= command.arguments.len(),
            arguments == named_views(command.arguments@),
            first_unmapped(arguments, 0) == first_unmapped(arguments, k as int),
        decreases command.arguments.len() - k,
    {
        let entry = &command.arguments[k];
        if type_for_argument(&entry.1.arg).is_none() {
            let mut path = String::from_str(name);
            path.append(".");
            path.append(entry.0.as_str());
            return Err(Error::UnsupportedType(path));
        }
        k += 1;
    }
    match &command.result {
        Some(v) => {
            if type_for_argument(&v.arg).is_none() {
                let mut path = String::from_str(name);
                path.append(" result");
                return Err(Error::UnsupportedType(path));
            }
        },
        None => {},
    }
    Ok(())
}

/// The detail of the violation of an interface that is not well formed.
pub open spec fn malformed_interface() -> Seq<char> {
    "the interface is not well formed"@
}

/// The detail of the violation of a manifest that is not well formed.
pub open spec fn malformed_manifest() -> Seq<char> {
    "the manifest is not well formed"@
}

/// What is wrong with an interface, if anything: it is not well formed, or
/// it holds a type that has no mapping.
pub open spec fn interface_error(interface: InterfaceView) -> Option<ErrorView> {
    if !interface_well_formed(interface) {
        Some(ErrorView::SchemaViolation(malformed_interface()))
    } else {
        match unsupported_in(interface) {
            Some(path) => Some(ErrorView::UnsupportedType(path)),
            None => None,
        }
    }
}

/// Checks that an interface is well formed and that each of its types has
/// a mapping.
pub fn check_interface(interface: &Interface) -> (r: Result<(), Error>)
    ensures
        match r {
            Ok(()) => interface_error(interface@) is None,
            Err(e) => interface_error(interface@) == Some(e@),
        },
{
    if !interface.is_well_formed() {
        return Err(Error::SchemaViolation(String::from_str("the interface is not well formed")));
    }
    let ghost cmds = interface@.cmds;
    let mut k: usize = 0;
    while k < interface.cmds.len()
        invariant
            k <= interface.cmds.len(),
            interface_well_formed(interface@),
            cmds == named_views(interface.cmds@),
            first_unsupported(cmds, 0) == first_unsupported(cmds, k as int),
        decreases interface.cmds.len() - k,
    {
        let entry = &interface.cmds[k];
        assert(cmds[k as int] == (entry.0@, entry.1@));
        match check_command(entry.0.as_str(), &entry.1) {
            Ok(()) => {},
            Err(e) => {
                return Err(e);
            },
        }
        k += 1;
    }
    Ok(())
}

/// What is wrong with a slot of a manifest, if anything: its interface is
/// not among those given, or is not well formed, or holds a type that has no
/// mapping.
pub open spec fn slot_error(
    entry: ProvidesEntryView,
    interfaces: Seq<(Seq<char>, InterfaceView)>,
) -> Option<ErrorView> {
    match lookup(interfaces, entry.interface) {
        None => Some(ErrorView::InterfaceNotFound(entry.interface)),
        Some(interface) => interface_error(interface),
    }
}

/// The index of the first slot, from `from` on, with which something is
/// wrong, or the number of slots.
pub open spec fn first_bad_slot(
    provides: Seq<(Seq<char>, ProvidesEntryView)>,
    interfaces: Seq<(Seq<char>, InterfaceView)>,
    from: int,
) -> int
    decreases provides.len() - from,
{
    if from < 0 || from >= provides.len() {
        provides.len() as int
    } else if slot_error(provides[from].1, interfaces) is Some {
        from
    } else {
        first_bad_slot(provides, interfaces, from + 1)
    }
}

/// What is wrong with a manifest and the interfaces given for it, if
/// anything, and with which slot: the manifest is not well formed, or else
/// something is wrong with a slot. The first such slot, in the order of
/// their names, decides.
pub open spec fn first_error(
    manifest: ManifestView,
    interfaces: Seq<(Seq<char>, InterfaceView)>,
) -> Option<BuildErrorView> {
    let bad = first_bad_slot(manifest.provides, interfaces, 0);
    if !manifest_well_formed(manifest) {
        Some(
            BuildErrorView {
                file: None,
                slot: None,
                error: ErrorView::SchemaViolation(malformed_manifest()),
            },
        )
    } else if bad < manifest.provides.len() {
        Some(
            BuildErrorView {
                file: None,
                slot: Some(manifest.provides[bad].0),
                error: slot_error(manifest.provides[bad].1, interfaces).unwrap(),
            },
        )
    } else {
        None
    }
}

/// Finds the interface of a slot among those given and checks it.
pub fn check_slot<'a>(entry: &ProvidesEntry, interfaces: &'a Vec<(String, Interface)>) -> (r: Result<
    &'a Interface,
    Error,
>)
    ensures
        match r {
            Ok(interface) => slot_error(entry@, named_views(interfaces@)) is None && lookup(
                named_views(interfaces@),
                entry@.interface,
            ) == Some(interface@),
            Err(e) => slot_error(entry@, named_views(interfaces@)) == Some(e@),
        },
{
    let interface = match find(interfaces, entry.interface.as_str()) {
        Some(i) => &interfaces[i].1,
        None => {
            return Err(Error::InterfaceNotFound(entry.interface.clone()));
        },
    };
    match check_interface(interface) {
        Ok(()) => Ok(interface),
        Err(e) => Err(e),
    }
}

/// The text that `titlecase::titlecase` makes of a text.
pub uninterp spec fn titlecased(word: Seq<char>) -> Seq<char>;

/// `titlecase::titlecase`: returns the text in title case. What that is, is
/// a function of the text alone; no more is claimed. The text must hold no
/// opening bracket: for each of those the outside function calls itself
/// once more.
#[verifier::external_body]
fn titlecase_word(word: &str) -> (r: String)
    requires
        !word@.contains('('),
    ensures
        r@ == titlecased(word@),
{
    titlecase::titlecase(word)
}

/// A piece of a word in title case; an empty piece stays empty, and a
/// piece that holds an opening bracket stays as it is.
pub open spec fn capitalized_piece(piece: Seq<char>) -> Seq<char> {
    if piece.len() == 0 {
        seq![]
    } else if piece.contains('(') {
        piece
    } else {
        titlecased(piece)
    }
}

/// A word read up to some point: the pieces before the last underscore, each
/// in title case and joined, and the piece after it.
pub open spec fn pieces(word: Seq<char>) -> (Seq<char>, Seq<char>)
    decreases word.len(),
{
    if word.len() == 0 {
        (seq![], seq![])
    } else {
        let (done, piece) = pieces(word.drop_last());
        if word.last() == '_' {
            (done + capitalized_piece(piece), seq![])
        } else {
            (done, piece.push(word.last()))
        }
    }
}

/// A word with each of its pieces between underscores in title case, and
/// the underscores left out.
pub open spec fn capitalized(word: Seq<char>) -> Seq<char> {
    pieces(word).0 + capitalized_piece(pieces(word).1)
}

/// The name that a list of words makes: each word capitalized, all joined
/// without a separator.
pub open spec fn title_name(words: Seq<Seq<char>>) -> Seq<char> {
    flat(Seq::new(words.len(), |i: int| capitalized(words[i])))
}

/// Appends a piece in title case.
fn flush(done: &mut String, piece: &str, bracket: bool)
    requires
        bracket == piece@.contains('('),
    ensures
        final(done)@ == old(done)@ + capitalized_piece(piece@),
{
    if piece.is_empty() {
        assert(done@ + capitalized_piece(piece@) =~= done@);
    } else if bracket {
        done.append(piece);
    } else {
        let cased = titlecase_word(piece);
        done.append(cased.as_str());
    }
}

/// Capitalizes a word.
pub fn capitalize(word: &str) -> (r: String)
    ensures
        r@ == capitalized(word@),
{
    let mut done = String::new();
    let mut piece = String::new();
    let mut bracket = false;
    assert(word@.take(0) =~= seq![]);
    for c in it: word.chars()
        invariant
            it.seq() == word@,
            (done@, piece@) == pieces(word@.take(it.index())),
            bracket == piece@.contains('('),
    {
        proof {
            let now = word@.take(it.index() + 1);
            assert(now.drop_last() =~= word@.take(it.index()));
            assert(now.last() == c);
        }
        if c == '_' {
            flush(&mut done, piece.as_str(), bracket);
            piece = String::new();
            bracket = false;
        } else {
            let ghost before = piece@;
            push_char(&mut piece, c);
            proof {
                if before.contains('(') {
                    let i = choose|i: int| 0 <= i < before.len() && before[i] == '(';
                    assert(piece@[i] == '(');
                }
                if c == '(' {
                    assert(piece@[before.len() as int] == '(');
                }
                if piece@.contains('(') {
                    let i = choose|i: int| 0 <= i < piece@.len() && piece@[i] == '(';
                    if i < before.len() {
                        assert(before[i] == '(');
                    }
                }
            }
            bracket = bracket || c == '(';
        }
    }
    assert(word@.take(word@.len() as int) =~= word@);
    flush(&mut done, piece.as_str(), bracket);
    done
}

/// Makes a name of a list of words.
pub fn concat_words(words: &Vec<&str>) -> (r: String)
    ensures
        r@ == title_name(slice_texts(words@)),
{
    let mut parts: Vec<String> = Vec::new();
    let mut k: usize = 0;
    while k < words.len()
        invariant
            k <= words.len(),
            parts.len() == k,
            forall|j: int| 0 <= j < k ==> (#[trigger] parts@[j])@ == capitalized(words@[j]@),
        decreases words.len() - k,
    {
        parts.push(capitalize(words[k]));
        k += 1;
    }
    assert(texts(parts@) =~= Seq::new(
        slice_texts(words@).len(),
        |i: int| capitalized(slice_texts(words@)[i]),
    ));
    concatenate(&parts)
}

/// The name of the service trait of an interface.
pub open spec fn trait_name(interface: Seq<char>) -> Seq<char> {
    title_name(seq![interface, "service"@])
}

/// The name of the type parameter that stands for the implementation of a slot.
pub open spec fn impl_name(slot: Seq<char>) -> Seq<char> {
    title_name(seq![slot, "service"@, "impl"@])
}

/// The name of the dispatch module of a slot, and of the field that holds
/// its implementation.
pub open spec fn service_field(slot: Seq<char>) -> Seq<char> {
    slot + "_service"@
}

/// The name of the field that holds the topics of a slot.
pub open spec fn topics_field(slot: Seq<char>) -> Seq<char> {
    slot + "_service_topics"@
}

/// Makes the name of the service trait of an interface.
fn trait_ident(interface: &str) -> (r: String)
    ensures
        r@ == trait_name(interface@),
{
    let mut words: Vec<&str> = Vec::new();
    words.push(interface);
    words.push("service");
    assert(slice_texts(words@) =~= seq![interface@, "service"@]);
    concat_words(&words)
}

/// Makes the name of the type parameter of a slot.
fn impl_ident(slot: &str) -> (r: String)
    ensures
        r@ == impl_name(slot@),
{
    let mut words: Vec<&str> = Vec::new();
    words.push(slot);
    words.push("service");
    words.push("impl");
    assert(slice_texts(words@) =~= seq![slot@, "service"@, "impl"@]);
    concat_words(&words)
}

/// Makes the name of the dispatch module of a slot.
fn service_name(slot: &str) -> (r: String)
    ensures
        r@ == service_field(slot@),
{
    let mut out = String::from_str(slot);
    out.append("_service");
    out
}

/// Makes the name of the field that holds the topics of a slot.
fn topics_name(slot: &str) -> (r: String)
    ensures
        r@ == topics_field(slot@),
{
    let mut out = String::from_str(slot);
    out.append("_service_topics");
    out
}

/// The Rust type that holds a value: `bool`, `String`, or any JSON value.
pub open spec fn rust_type(arg: ArgumentView) -> Seq<char> {
    match representation(arg) {
        Some(Representation::Boolean) => "bool"@,
        Some(Representation::Text) => "String"@,
        _ => "::serde_json::Value"@,
    }
}

/// Writes the Rust type that holds a value.
fn type_text(arg: &Argument) -> (r: &'static str)
    ensures
        r@ == rust_type(arg@),
{
    match type_for_argument(arg) {
        Some(Representation::Boolean) => "bool",
        Some(Representation::Text) => "String",
        _ => "::serde_json::Value",
    }
}

/// The Rust type of the result of a command; the unit type where it has none.
pub open spec fn result_type(result: Option<VariableView>) -> Seq<char> {
    match result {
        Some(v) => rust_type(v.arg),
        None => "()"@,
    }
}

/// Writes the Rust type of the result of a command.
fn result_text(result: &Option<Variable>) -> (r: String)
    ensures
        r@ == result_type(
            match *result {
                Some(v) => Some(v@),
                None => None,
            },
        ),
{
    match result {
        Some(v) => String::from_str(type_text(&v.arg)),
        None => String::from_str("()"),
    }
}

/// A description, or the words that stand for a missing one.
pub open spec fn described(description: Option<Seq<char>>) -> Seq<char> {
    match description {
        Some(text) => text,
        None => "not documented"@,
    }
}

/// Writes a description, or the words that stand for a missing one.
fn description_text(description: &Option<String>) -> (r: String)
    ensures
        r@ == described(
            match *description {
                Some(s) => Some(s@),
                None => None,
            },
        ),
{
    match description {
        Some(text) => text.clone(),
        None => String::from_str("not documented"),
    }
}

/// The line of a command's documentation that describes one argument.
pub open spec fn argument_doc(name: Seq<char>, variable: VariableView) -> Seq<char> {
    "\n`"@ + name + "`: "@ + described(variable.description)
}

/// The part of a command's documentation that describes its result.
pub open spec fn result_doc(result: Option<VariableView>) -> Seq<char> {
    match result {
        Some(v) => "\n\nReturns: "@ + described(v.description),
        None => seq![],
    }
}

/// The documentation of a command: its description, a line for each
/// argument in the order of their names, and a word on its result.
pub open spec fn command_doc(command: CommandView) -> Seq<char> {
    command.description + "\n"@ + flat(
        Seq::new(
            command.arguments.len(),
            |i: int| argument_doc(command.arguments[i].0, command.arguments[i].1),
        ),
    ) + result_doc(command.result)
}

/// Writes the documentation of a command.
pub(crate) fn emit_command_doc(command: &Command) -> (out: String)
    ensures
        out@ == command_doc(command@),
{
    let ghost arguments = command@.arguments;
    let mut lines: Vec<String> = Vec::new();
    let mut k: usize = 0;
    while k < command.arguments.len()
        invariant
            k <= command.arguments.len(),
            arguments == named_views(command.arguments@),
            lines.len() == k,
            forall|j: int|
                0 <= j < k ==> (#[trigger] lines@[j])@ == argument_doc(
                    arguments[j].0,
                    arguments[j].1,
                ),
        decreases command.arguments.len() - k,
    {
        let entry = &command.arguments[k];
        let mut line = String::from_str("\n`");
        line.append(entry.0.as_str());
        line.append("`: ");
        line.append(description_text(&entry.1.description).as_str());
        lines.push(line);
        k += 1;
    }
    assert(texts(lines@) =~= Seq::new(
        arguments.len(),
        |i: int| argument_doc(arguments[i].0, arguments[i].1),
    ));
    let mut out = command.description.clone();
    out.append("\n");
    out.append(concatenate(&lines).as_str());
    match &command.result {
        Some(v) => {
            let mut tail = String::from_str("\n\nReturns: ");
            tail.append(description_text(&v.description).as_str());
            out.append(tail.as_str());
        },
        None => {},
    }
    out
}

/// One parameter of the method of a command.
pub open spec fn parameter_text(name: Seq<char>, variable: VariableView) -> Seq<char> {
    ", "@ + name + ": "@ + rust_type(variable.arg)
}

/// The statement that adds the command topic of a slot, where its interface
/// has a command.
pub open spec fn topic_text(slot: Seq<char>, interface: InterfaceView) -> Seq<char> {
    if interface.cmds.len() > 0 {
        "        rv.insert(format!(\"everest/{module_name}/{}/cmd\", "@ + literal(slot) + "));\n"@
    } else {
        seq![]
    }
}

/// Emits the statement that adds the command topic of a slot.
fn emit_topic(slot: &str, interface: &Interface) -> (out: String)
    ensures
        out@ == topic_text(slot@, interface@),
{
    if interface.cmds.len() > 0 {
        let mut out = String::from_str("        rv.insert(format!(\"everest/{module_name}/{}/cmd\", ");
        out.append(quote(slot).as_str());
        out.append("));\n");
        out
    } else {
        String::new()
    }
}

/// The names of the service traits of the slots, in the order of the slots.
pub open spec fn trait_names(provides: Seq<(Seq<char>, ProvidesEntryView)>) -> Seq<Seq<char>> {
    Seq::new(provides.len(), |i: int| trait_name(provides[i].1.interface))
}

/// The names of the type parameters of the slots, in the order of the slots.
pub open spec fn generic_names(provides: Seq<(Seq<char>, ProvidesEntryView)>) -> Seq<Seq<char>> {
    Seq::new(provides.len(), |i: int| impl_name(provides[i].0))
}

/// The type parameters of the slots, each bound by its service trait.
pub open spec fn generic_bounds(provides: Seq<(Seq<char>, ProvidesEntryView)>) -> Seq<Seq<char>> {
    Seq::new(
        provides.len(),
        |i: int| impl_name(provides[i].0) + ": "@ + trait_name(provides[i].1.interface),
    )
}

/// The names of the service traits of the slots of a manifest.
pub(crate) fn emit_module_struct_generics_traits(manifest: &Manifest) -> (names: Vec<String>)
    ensures
        texts(names@) == trait_names(manifest@.provides),
{
    let ghost provides = manifest@.provides;
    let mut names: Vec<String> = Vec::new();
    let mut k: usize = 0;
    while k < manifest.provides.len()
        invariant
            k <= manifest.provides.len(),
            provides == named_views(manifest.provides@),
            names.len() == k,
            forall|j: int|
                0 <= j < k ==> (#[trigger] names@[j])@ == trait_name(provides[j].1.interface),
        decreases manifest.provides.len() - k,
    {
        names.push(trait_ident(manifest.provides[k].1.interface.as_str()));
        k += 1;
    }
    names
}

/// The names of the type parameters of the slots of a manifest.
pub(crate) fn emit_module_struct_generics_impls(manifest: &Manifest) -> (names: Vec<String>)
    ensures
        texts(names@) == generic_names(manifest@.provides),
{
    let ghost provides = manifest@.provides;
    let mut names: Vec<String> = Vec::new();
    let mut k: usize = 0;
    while k < manifest.provides.len()
        invariant
            k <= manifest.provides.len(),
            provides == named_views(manifest.provides@),
            names.len() == k,
            forall|j: int| 0 <= j < k ==> (#[trigger] names@[j])@ == impl_name(provides[j].0),
        decreases manifest.provides.len() - k,
    {
        names.push(impl_ident(manifest.provides[k].0.as_str()));
        k += 1;
    }
    names
}

/// The type parameters of the slots of a manifest, each with its bound.
fn emit_generic_bounds(manifest: &Manifest) -> (bounds: Vec<String>)
    ensures
        texts(bounds@) == generic_bounds(manifest@.provides),
{
    let ghost provides = manifest@.provides;
    let traits = emit_module_struct_generics_traits(manifest);
    let impls = emit_module_struct_generics_impls(manifest);
    let mut bounds: Vec<String> = Vec::new();
    let mut k: usize = 0;
    assert(traits.len() == provides.len() && impls.len() == provides.len()) by {
        assert(texts(traits@).len() == traits.len());
        assert(texts(impls@).len() == impls.len());
    }
    while k < impls.len()
        invariant
            k <= impls.len(),
            traits.len() == impls.len(),
            impls.len() == provides.len(),
            texts(traits@) == trait_names(provides),
            texts(impls@) == generic_names(provides),
            bounds.len() == k,
            forall|j: int|
                0 <= j < k ==> (#[trigger] bounds@[j])@ == impl_name(provides[j].0) + ": "@
                    + trait_name(provides[j].1.interface),
        decreases impls.len() - k,
    {
        assert(texts(impls@)[k as int] == impls@[k as int]@);
        assert(texts(traits@)[k as int] == traits@[k as int]@);
        let mut bound = impls[k].clone();
        bound.append(": ");
        bound.append(traits[k].as_str());
        bounds.push(bound);
        k += 1;
    }
    assert(texts(bounds@) =~= generic_bounds(provides));
    bounds
}

/// The metadata of a module as a JSON value: the module's name, and for
/// each slot, in the order of their names, the interface it provides.
pub open spec fn metadata_json(module_name: Seq<char>, provides: Seq<(Seq<char>, ProvidesEntryView)>) -> JsonView {
    JsonView::Object(
        seq![
            ("module"@, JsonView::String(module_name)),
            (
                "provides"@,
                JsonView::Object(
                    Seq::new(
                        provides.len(),
                        |i: int|
                            (
                                provides[i].0,
                                JsonView::Object(
                                    seq![("interface"@, JsonView::String(provides[i].1.interface))],
                                ),
                            ),
                    ),
                ),
            ),
        ],
    )
}

/// Builds the metadata of a module as a JSON value.
pub(crate) fn metadata_value(module_name: &str, provides: &Vec<(String, ProvidesEntry)>) -> (json: Json)
    ensures
        json@ == metadata_json(module_name@, named_views(provides@)),
{
    let ghost slots = named_views(provides@);
    let mut entries: Vec<(String, Json)> = Vec::new();
    let mut k: usize = 0;
    while k < provides.len()
        invariant
            k <= provides.len(),
            slots == named_views(provides@),
            entries.len() == k,
            forall|j: int|
                0 <= j < k ==> (#[trigger] entries@[j]).0@ == slots[j].0 && entries@[j].1@
                    == JsonView::Object(seq![("interface"@, JsonView::String(slots[j].1.interface))]),
        decreases provides.len() - k,
    {
        let mut inner: Vec<(String, Json)> = Vec::new();
        inner.push((String::from_str("interface"), Json::String(provides[k].1.interface.clone())));
        let object = Json::Object(inner);
        proof {
            lemma_object_view(object);
            assert(named_views(inner@) =~= seq![
                ("interface"@, JsonView::String(slots[k as int].1.interface)),
            ]);
        }
        entries.push((provides[k].0.clone(), object));
        k += 1;
    }
    let provided = Json::Object(entries);
    let mut members: Vec<(String, Json)> = Vec::new();
    members.push((String::from_str("module"), Json::String(String::from_str(module_name))));
    members.push((String::from_str("provides"), provided));
    let json = Json::Object(members);
    proof {
        lemma_object_view(provided);
        lemma_object_view(json);
        assert(named_views(entries@) =~= metadata_json(module_name@, slots)->Object_0[1].1->Object_0);
        assert(named_views(members@) =~= metadata_json(module_name@, slots)->Object_0);
    }
    json
}

/// The metadata blob of a module: its metadata as JSON text.
pub open spec fn metadata_blob(module_name: Seq<char>, provides: Seq<(Seq<char>, ProvidesEntryView)>) -> Seq<char> {
    json_text(written(metadata_json(module_name, provides)))
}

/// The constant that holds the metadata blob.
pub open spec fn metadata_text(module_name: Seq<char>, provides: Seq<(Seq<char>, ProvidesEntryView)>) -> Seq<char> {
    "const METADATA: &str = "@ + literal(metadata_blob(module_name, provides)) + ";\n\n"@
}

/// Emits the constant that holds the metadata blob.
pub(crate) fn emit_metadata(module_name: &str, provides: &Vec<(String, ProvidesEntry)>) -> (out: String)
    ensures
        out@ == metadata_text(module_name@, named_views(provides@)),
{
    let blob = metadata_value(module_name, provides).to_text();
    let mut out = String::from_str("const METADATA: &str = ");
    out.append(quote(blob.as_str()).as_str());
    out.append(";\n\n");
    out
}

/// The statement that decodes one argument of a call.
pub open spec fn argument_decode_text(name: Seq<char>, variable: VariableView) -> Seq<char> {
    "                let "@
        + name
        + ": "@
        + rust_type(variable.arg)
        + " = ::serde_json::from_value(\n"@
        + "                    data.args\n"@
        + "                        .remove("@
        + literal(name)
        + ")\n"@
        + "                        .ok_or(::everest::Error::MissingArgument("@
        + literal(name)
        + "))?,\n"@
        + "                )\n"@
        + "                .map_err(|_| ::everest::Error::InvalidArgument("@
        + literal(name)
        + "))?;\n"@
}

/// Emits the statement that decodes one argument of a call.
fn emit_argument_decode(name: &str, variable: &Variable) -> (out: String)
    ensures
        out@ == argument_decode_text(name@, variable@),
{
    let quoted = quote(name);
    let mut out = String::from_str("                let ");
    out.append(name);
    out.append(": ");
    out.append(type_text(&variable.arg));
    out.append(" = ::serde_json::from_value(\n");
    out.append("                    data.args\n");
    out.append("                        .remove(");
    out.append(quoted.as_str());
    out.append(")\n");
    out.append("                        .ok_or(::everest::Error::MissingArgument(");
    out.append(quoted.as_str());
    out.append("))?,\n");
    out.append("                )\n");
    out.append("                .map_err(|_| ::everest::Error::InvalidArgument(");
    out.append(quoted.as_str());
    out.append("))?;\n");
    out
}

/// The statement that publishes the result of a call on a slot.
pub open spec fn publish_text(slot: Seq<char>) -> Seq<char> {
    "                module\n"@
        + "                    .publish(\n"@
        + "                        &format!(\"{}/cmd\", "@
        + literal(slot)
        + "),\n"@
        + "                        ::serde_json::to_string(&::everest::Command::Result {\n"@
        + "                            name,\n"@
        + "                            data: ::everest::ResultData {\n"@
        + "                                id: data.id,\n"@
        + "                                origin: module.module_name.clone(),\n"@
        + "                                retval: {\n"@
        + "                                    #[allow(clippy::useless_conversion)]\n"@
        + "                                    retval.into()\n"@
        + "                                },\n"@
        + "                            },\n"@
        + "                        })\n"@
        + "                        .expect(\"serialization should be infallible for this data type\"),\n"@
        + "                    )\n"@
        + "                    .await?;\n"@
}

/// Emits the statement that publishes the result of a call on a slot.
fn emit_publish(slot: &str) -> (out: String)
    ensures
        out@ == publish_text(slot@),
{
    let mut out = String::from_str("                module\n");
    out.append("                    .publish(\n");
    out.append("                        &format!(\"{}/cmd\", ");
    out.append(quote(slot).as_str());
    out.append("),\n");
    out.append("                        ::serde_json::to_string(&::everest::Command::Result {\n");
    out.append("                            name,\n");
    out.append("                            data: ::everest::ResultData {\n");
    out.append("                                id: data.id,\n");
    out.append("                                origin: module.module_name.clone(),\n");
    out.append("                                retval: {\n");
    out.append("                                    #[allow(clippy::useless_conversion)]\n");
    out.append("                                    retval.into()\n");
    out.append("                                },\n");
    out.append("                            },\n");
    out.append("                        })\n");
    out.append("                        .expect(\"serialization should be infallible for this data type\"),\n");
    out.append("                    )\n");
    out.append("                    .await?;\n");
    out
}

/// The arm of the dispatch that serves one command: it decodes the declared
/// arguments in the order of their names, calls the service implementation,
/// and publishes the result.
pub open spec fn arm_text(slot: Seq<char>, name: Seq<char>, command: CommandView) -> Seq<char> {
    "            "@
        + literal(name)
        + " => {\n"@
        + flat(
            Seq::new(
                command.arguments.len(),
                |i: int| argument_decode_text(command.arguments[i].0, command.arguments[i].1),
            ),
        )
        + "                #[allow(clippy::let_unit_value)]\n"@
        + "                let retval = module."@
        + service_field(slot)
        + "."@
        + name
        + "("@
        + joined(
            Seq::new(
                command.arguments.len(),
                |i: int| command.arguments[i].0,
            ),
            ", "@,
        )
        + ").await?;\n"@
        + publish_text(slot)
        + "            }\n"@
}

/// Emits the arm of the dispatch that serves one command.
pub(crate) fn emit_command_implementation_glue(slot: &str, name: &str, command: &Command) -> (out: String)
    ensures
        out@ == arm_text(slot@, name@, command@),
{
    let ghost arguments = command@.arguments;
    let mut decodes: Vec<String> = Vec::new();
    let mut names: Vec<String> = Vec::new();
    let mut k: usize = 0;
    while k < command.arguments.len()
        invariant
            k <= command.arguments.len(),
            arguments == named_views(command.arguments@),
            decodes.len() == k,
            names.len() == k,
            forall|j: int|
                0 <= j < k ==> (#[trigger] decodes@[j])@ == argument_decode_text(
                    arguments[j].0,
                    arguments[j].1,
                ),
            forall|j: int| 0 <= j < k ==> (#[trigger] names@[j])@ == arguments[j].0,
        decreases command.arguments.len() - k,
    {
        let entry = &command.arguments[k];
        decodes.push(emit_argument_decode(entry.0.as_str(), &entry.1));
        names.push(entry.0.clone());
        k += 1;
    }
    assert(texts(decodes@) =~= Seq::new(
        arguments.len(),
        |i: int| argument_decode_text(arguments[i].0, arguments[i].1),
    ));
    assert(texts(names@) =~= Seq::new(arguments.len(), |i: int| arguments[i].0));
    let mut out = String::from_str("            ");
    out.append(quote(name).as_str());
    out.append(" => {\n");
    out.append(concatenate(&decodes).as_str());
    out.append("                #[allow(clippy::let_unit_value)]\n");
    out.append("                let retval = module.");
    out.append(service_name(slot).as_str());
    out.append(".");
    out.append(name);
    out.append("(");
    out.append(join(&names, ", ").as_str());
    out.append(").await?;\n");
    out.append(emit_publish(slot).as_str());
    out.append("            }\n");
    out
}

/// The declaration of the method of one command: its documentation, its
/// name, one parameter for each argument in the order of their names, and
/// the type of its result.
pub open spec fn method_text(name: Seq<char>, command: CommandView) -> Seq<char> {
    "    #[doc = "@
        + literal(command_doc(command))
        + "]\n"@
        + "    async fn "@
        + name
        + "(&mut self"@
        + flat(
            Seq::new(
                command.arguments.len(),
                |i: int| parameter_text(command.arguments[i].0, command.arguments[i].1),
            ),
        )
        + ") -> ::everest::Result<"@
        + result_type(command.result)
        + ">;\n"@
}

/// Emits the declaration of the method of one command.
pub(crate) fn emit_command(name: &str, command: &Command) -> (out: String)
    ensures
        out@ == method_text(name@, command@),
{
    let ghost arguments = command@.arguments;
    let mut parameters: Vec<String> = Vec::new();
    let mut k: usize = 0;
    while k < command.arguments.len()
        invariant
            k <= command.arguments.len(),
            arguments == named_views(command.arguments@),
            parameters.len() == k,
            forall|j: int|
                0 <= j < k ==> (#[trigger] parameters@[j])@ == parameter_text(
                    arguments[j].0,
                    arguments[j].1,
                ),
        decreases command.arguments.len() - k,
    {
        let entry = &command.arguments[k];
        let mut parameter = String::from_str(", ");
        parameter.append(entry.0.as_str());
        parameter.append(": ");
        parameter.append(type_text(&entry.1.arg));
        parameters.push(parameter);
        k += 1;
    }
    assert(texts(parameters@) =~= Seq::new(
        arguments.len(),
        |i: int| parameter_text(arguments[i].0, arguments[i].1),
    ));
    let mut out = String::from_str("    #[doc = ");
    out.append(quote(emit_command_doc(command).as_str()).as_str());
    out.append("]\n");
    out.append("    async fn ");
    out.append(name);
    out.append("(&mut self");
    out.append(concatenate(&parameters).as_str());
    out.append(") -> ::everest::Result<");
    out.append(result_text(&command.result).as_str());
    out.append(">;\n");
    out
}

/// The service trait of a slot: one method for each command of its
/// interface, in the order of their names.
pub open spec fn trait_text(entry: ProvidesEntryView, interface: InterfaceView) -> Seq<char> {
    "#[doc = "@
        + literal(entry.description)
        + "]\n"@
        + "#[async_trait::async_trait]\n"@
        + "pub trait "@
        + trait_name(entry.interface)
        + " {\n"@
        + flat(
            Seq::new(
                interface.cmds.len(),
                |i: int| method_text(interface.cmds[i].0, interface.cmds[i].1),
            ),
        )
        + "}\n"@
        + "\n"@
}

/// Emits the service trait of a slot.
pub(crate) fn emit_interface_service_trait(entry: &ProvidesEntry, interface: &Interface) -> (out: String)
    ensures
        out@ == trait_text(entry@, interface@),
{
    let ghost cmds = interface@.cmds;
    let mut methods: Vec<String> = Vec::new();
    let mut k: usize = 0;
    while k < interface.cmds.len()
        invariant
            k <= interface.cmds.len(),
            cmds == named_views(interface.cmds@),
            methods.len() == k,
            forall|j: int|
                0 <= j < k ==> (#[trigger] methods@[j])@ == method_text(cmds[j].0, cmds[j].1),
        decreases interface.cmds.len() - k,
    {
        let entry = &interface.cmds[k];
        methods.push(emit_command(entry.0.as_str(), &entry.1));
        k += 1;
    }
    assert(texts(methods@) =~= Seq::new(cmds.len(), |i: int| method_text(cmds[i].0, cmds[i].1)));
    let mut out = String::from_str("#[doc = ");
    out.append(quote(entry.description.as_str()).as_str());
    out.append("]\n");
    out.append("#[async_trait::async_trait]\n");
    out.append("pub trait ");
    out.append(trait_ident(entry.interface.as_str()).as_str());
    out.append(" {\n");
    out.append(concatenate(&methods).as_str());
    out.append("}\n");
    out.append("\n");
    out
}

/// The dispatch module of a slot: its topics, and the handler of its
/// messages with one arm for each command, in the order of their names.
pub open spec fn glue_text(
    provides: Seq<(Seq<char>, ProvidesEntryView)>,
    slot: Seq<char>,
    interface: InterfaceView,
) -> Seq<char> {
    "mod "@
        + service_field(slot)
        + " {\n"@
        + "    use super::*;\n"@
        + "\n"@
        + "    pub fn generate_topics(module_name: &str) -> ::std::collections::HashSet<String> {\n"@
        + "        let mut rv = ::std::collections::HashSet::new();\n"@
        + topic_text(slot, interface)
        + "        rv\n"@
        + "    }\n"@
        + "\n"@
        + "    pub async fn handle_mqtt_message<"@
        + joined(generic_bounds(provides), ", "@)
        + ">(\n"@
        + "        module: &mut Module<"@
        + joined(generic_names(provides), ", "@)
        + ">,\n"@
        + "        payload: &[u8],\n"@
        + "    ) -> ::everest::Result<()> {\n"@
        + "        let Ok(cmd) = ::serde_json::from_slice::<::everest::Command>(payload) else {\n"@
        + "            return Ok(());\n"@
        + "        };\n"@
        + "        let (name, mut data) = match cmd {\n"@
        + "            ::everest::Command::Call { name, data } => (name, data),\n"@
        + "            ::everest::Command::Result { .. } => return Ok(()),\n"@
        + "        };\n"@
        + "        match &name as &str {\n"@
        + flat(
            Seq::new(
                interface.cmds.len(),
                |i: int| arm_text(slot, interface.cmds[i].0, interface.cmds[i].1),
            ),
        )
        + "            _ => {}\n"@
        + "        }\n"@
        + "        Ok(())\n"@
        + "    }\n"@
        + "}\n"@
        + "\n"@
}

/// Emits the dispatch module of a slot.
pub(crate) fn emit_interface_service_glue(manifest: &Manifest, slot: &str, interface: &Interface) -> (out:
    String)
    ensures
        out@ == glue_text(manifest@.provides, slot@, interface@),
{
    let ghost cmds = interface@.cmds;
    let bounds = emit_generic_bounds(manifest);
    let generics = emit_module_struct_generics_impls(manifest);
    let mut arms: Vec<String> = Vec::new();
    let mut k: usize = 0;
    while k < interface.cmds.len()
        invariant
            k <= interface.cmds.len(),
            cmds == named_views(interface.cmds@),
            arms.len() == k,
            forall|j: int|
                0 <= j < k ==> (#[trigger] arms@[j])@ == arm_text(slot@, cmds[j].0, cmds[j].1),
        decreases interface.cmds.len() - k,
    {
        let entry = &interface.cmds[k];
        arms.push(emit_command_implementation_glue(slot, entry.0.as_str(), &entry.1));
        k += 1;
    }
    assert(texts(arms@) =~= Seq::new(cmds.len(), |i: int| arm_text(slot@, cmds[i].0, cmds[i].1)));
    let mut out = String::from_str("mod ");
    out.append(service_name(slot).as_str());
    out.append(" {\n");
    out.append("    use super::*;\n");
    out.append("\n");
    out.append("    pub fn generate_topics(module_name: &str) -> ::std::collections::HashSet<String> {\n");
    out.append("        let mut rv = ::std::collections::HashSet::new();\n");
    out.append(emit_topic(slot, interface).as_str());
    out.append("        rv\n");
    out.append("    }\n");
    out.append("\n");
    out.append("    pub async fn handle_mqtt_message<");
    out.append(join(&bounds, ", ").as_str());
    out.append(">(\n");
    out.append("        module: &mut Module<");
    out.append(join(&generics, ", ").as_str());
    out.append(">,\n");
    out.append("        payload: &[u8],\n");
    out.append("    ) -> ::everest::Result<()> {\n");
    out.append("        let Ok(cmd) = ::serde_json::from_slice::<::everest::Command>(payload) else {\n");
    out.append("            return Ok(());\n");
    out.append("        };\n");
    out.append("        let (name, mut data) = match cmd {\n");
    out.append("            ::everest::Command::Call { name, data } => (name, data),\n");
    out.append("            ::everest::Command::Result { .. } => return Ok(()),\n");
    out.append("        };\n");
    out.append("        match &name as &str {\n");
    out.append(concatenate(&arms).as_str());
    out.append("            _ => {}\n");
    out.append("        }\n");
    out.append("        Ok(())\n");
    out.append("    }\n");
    out.append("}\n");
    out.append("\n");
    out
}

/// The two fields of the module struct that belong to a slot: the service implementation and its topics.
pub open spec fn field_text(slot: Seq<char>) -> Seq<char> {
    "    "@
        + service_field(slot)
        + ": "@
        + impl_name(slot)
        + ",\n"@
        + "    "@
        + topics_field(slot)
        + ": ::std::collections::HashSet<String>,\n"@
}

/// Emits the two fields of the module struct that belong to a slot.
fn emit_field(slot: &str) -> (out: String)
    ensures
        out@ == field_text(slot@),
{
    let mut out = String::from_str("    ");
    out.append(service_name(slot).as_str());
    out.append(": ");
    out.append(impl_ident(slot).as_str());
    out.append(",\n");
    out.append("    ");
    out.append(topics_name(slot).as_str());
    out.append(": ::std::collections::HashSet<String>,\n");
    out
}

/// The parameter of `init` that takes the service implementation of a slot.
pub open spec fn parameter_of_init_text(slot: Seq<char>) -> Seq<char> {
    service_field(slot)
        + ": "@
        + impl_name(slot)
}

/// Emits the parameter of `init` that belongs to a slot.
fn emit_parameter_of_init(slot: &str) -> (out: String)
    ensures
        out@ == parameter_of_init_text(slot@),
{
    let mut out = service_name(slot);
    out.append(": ");
    out.append(impl_ident(slot).as_str());
    out
}

/// The statements of `init` that subscribe to the topics of a slot.
pub open spec fn subscribe_text(slot: Seq<char>) -> Seq<char> {
    "        let "@
        + topics_field(slot)
        + " = "@
        + service_field(slot)
        + "::generate_topics(&module_name);\n"@
        + "        for t in "@
        + topics_field(slot)
        + ".iter() {\n"@
        + "            client.subscribe(t, ::rumqttc::QoS::ExactlyOnce).await?;\n"@
        + "        }\n"@
}

/// Emits the statements of `init` that subscribe to the topics of a slot.
fn emit_subscribe(slot: &str) -> (out: String)
    ensures
        out@ == subscribe_text(slot@),
{
    let mut out = String::from_str("        let ");
    out.append(topics_name(slot).as_str());
    out.append(" = ");
    out.append(service_name(slot).as_str());
    out.append("::generate_topics(&module_name);\n");
    out.append("        for t in ");
    out.append(topics_name(slot).as_str());
    out.append(".iter() {\n");
    out.append("            client.subscribe(t, ::rumqttc::QoS::ExactlyOnce).await?;\n");
    out.append("        }\n");
    out
}

/// The two members of the module value that belong to a slot.
pub open spec fn member_text(slot: Seq<char>) -> Seq<char> {
    "            "@
        + service_field(slot)
        + ",\n"@
        + "            "@
        + topics_field(slot)
        + ",\n"@
}

/// Emits the two members of the module value that belong to a slot.
fn emit_member(slot: &str) -> (out: String)
    ensures
        out@ == member_text(slot@),
{
    let mut out = String::from_str("            ");
    out.append(service_name(slot).as_str());
    out.append(",\n");
    out.append("            ");
    out.append(topics_name(slot).as_str());
    out.append(",\n");
    out
}

/// The statement of the receive loop that routes a message to a slot.
pub open spec fn route_text(slot: Seq<char>) -> Seq<char> {
    "                    if self."@
        + topics_field(slot)
        + ".contains(&data.topic as &str) {\n"@
        + "                        "@
        + service_field(slot)
        + "::handle_mqtt_message(self, &data.payload).await?;\n"@
        + "                    }\n"@
}

/// Emits the statement of the receive loop that belongs to a slot.
fn emit_route(slot: &str) -> (out: String)
    ensures
        out@ == route_text(slot@),
{
    let mut out = String::from_str("                    if self.");
    out.append(topics_name(slot).as_str());
    out.append(".contains(&data.topic as &str) {\n");
    out.append("                        ");
    out.append(service_name(slot).as_str());
    out.append("::handle_mqtt_message(self, &data.payload).await?;\n");
    out.append("                    }\n");
    out
}

/// The module struct and its methods: one type parameter for each slot, in
/// the order of their names, bound by the slot's service trait; `init`, which
/// opens the session, subscribes, and publishes the metadata and then the
/// readiness flag; `loop_forever`, which routes each message to its slot; and
/// `publish`.
pub open spec fn struct_text(module_name: Seq<char>, provides: Seq<(Seq<char>, ProvidesEntryView)>) -> Seq<
    char,
> {
    "pub struct Module<"@
        + joined(generic_bounds(provides), ", "@)
        + "> {\n"@
        + "    client: ::rumqttc::AsyncClient,\n"@
        + "    event_loop: ::rumqttc::EventLoop,\n"@
        + "    module_name: String,\n"@
        + flat(Seq::new(provides.len(), |i: int| field_text(provides[i].0)))
        + "}\n"@
        + "\n"@
        + "impl<"@
        + joined(generic_bounds(provides), ", "@)
        + "> Module<"@
        + joined(generic_names(provides), ", "@)
        + "> {\n"@
        + "    pub async fn init("@
        + joined(
            Seq::new(
                provides.len(),
                |i: int| parameter_of_init_text(provides[i].0),
            ),
            ", "@,
        )
        + ") -> ::everest::Result<Self> {\n"@
        + "        let (client, event_loop, module_name) = ::everest::initialize_mqtt("@
        + literal(module_name)
        + ");\n"@
        + flat(Seq::new(provides.len(), |i: int| subscribe_text(provides[i].0)))
        + "        let m = Module {\n"@
        + "            client,\n"@
        + "            event_loop,\n"@
        + "            module_name,\n"@
        + flat(Seq::new(provides.len(), |i: int| member_text(provides[i].0)))
        + "        };\n"@
        + "        m.publish(\"metadata\", METADATA).await?;\n"@
        + "        m.publish(\"ready\", \"true\").await?;\n"@
        + "        Ok(m)\n"@
        + "    }\n"@
        + "\n"@
        + "    pub async fn loop_forever(&mut self) -> ::everest::Result<()> {\n"@
        + "        loop {\n"@
        + "            let msg = self.event_loop.poll().await?;\n"@
        + "            match msg {\n"@
        + "                ::rumqttc::Event::Incoming(::rumqttc::Packet::Publish(data)) => {\n"@
        + flat(Seq::new(provides.len(), |i: int| route_text(provides[i].0)))
        + "                }\n"@
        + "                ::rumqttc::Event::Outgoing(_) | ::rumqttc::Event::Incoming(_) => (),\n"@
        + "            }\n"@
        + "        }\n"@
        + "    }\n"@
        + "\n"@
        + "    async fn publish(&self, topic: &str, value: impl Into<Vec<u8>>) -> ::everest::Result<()> {\n"@
        + "        self.client\n"@
        + "            .publish(\n"@
        + "                &format!(\"everest/{}/{topic}\", self.module_name),\n"@
        + "                ::rumqttc::QoS::ExactlyOnce,\n"@
        + "                false,\n"@
        + "                value,\n"@
        + "            )\n"@
        + "            .await?;\n"@
        + "        Ok(())\n"@
        + "    }\n"@
        + "}\n"@
}

/// Emits the module struct and its methods.
pub(crate) fn emit_module_struct(module_name: &str, manifest: &Manifest) -> (out: String)
    ensures
        out@ == struct_text(module_name@, manifest@.provides),
{
    let ghost provides = manifest@.provides;
    let bounds = emit_generic_bounds(manifest);
    let generics = emit_module_struct_generics_impls(manifest);
    let mut fields: Vec<String> = Vec::new();
    let mut parameters: Vec<String> = Vec::new();
    let mut subscribes: Vec<String> = Vec::new();
    let mut members: Vec<String> = Vec::new();
    let mut routes: Vec<String> = Vec::new();
    let mut k: usize = 0;
    while k < manifest.provides.len()
        invariant
            k <= manifest.provides.len(),
            provides == named_views(manifest.provides@),
            fields.len() == k,
            parameters.len() == k,
            subscribes.len() == k,
            members.len() == k,
            routes.len() == k,
            forall|j: int| 0 <= j < k ==> (#[trigger] fields@[j])@ == field_text(provides[j].0),
            forall|j: int|
                0 <= j < k ==> (#[trigger] parameters@[j])@ == parameter_of_init_text(
                    provides[j].0,
                ),
            forall|j: int|
                0 <= j < k ==> (#[trigger] subscribes@[j])@ == subscribe_text(provides[j].0),
            forall|j: int| 0 <= j < k ==> (#[trigger] members@[j])@ == member_text(provides[j].0),
            forall|j: int| 0 <= j < k ==> (#[trigger] routes@[j])@ == route_text(provides[j].0),
        decreases manifest.provides.len() - k,
    {
        let slot = manifest.provides[k].0.as_str();
        fields.push(emit_field(slot));
        parameters.push(emit_parameter_of_init(slot));
        subscribes.push(emit_subscribe(slot));
        members.push(emit_member(slot));
        routes.push(emit_route(slot));
        k += 1;
    }
    assert(texts(fields@) =~= Seq::new(provides.len(), |i: int| field_text(provides[i].0)));
    assert(texts(parameters@) =~= Seq::new(
        provides.len(),
        |i: int| parameter_of_init_text(provides[i].0),
    ));
    assert(texts(subscribes@) =~= Seq::new(provides.len(), |i: int| subscribe_text(provides[i].0)));
    assert(texts(members@) =~= Seq::new(provides.len(), |i: int| member_text(provides[i].0)));
    assert(texts(routes@) =~= Seq::new(provides.len(), |i: int| route_text(provides[i].0)));
    let mut out = String::from_str("pub struct Module<");
    out.append(join(&bounds, ", ").as_str());
    out.append("> {\n");
    out.append("    client: ::rumqttc::AsyncClient,\n");
    out.append("    event_loop: ::rumqttc::EventLoop,\n");
    out.append("    module_name: String,\n");
    out.append(concatenate(&fields).as_str());
    out.append("}\n");
    out.append("\n");
    out.append("impl<");
    out.append(join(&bounds, ", ").as_str());
    out.append("> Module<");
    out.append(join(&generics, ", ").as_str());
    out.append("> {\n");
    out.append("    pub async fn init(");
    out.append(join(&parameters, ", ").as_str());
    out.append(") -> ::everest::Result<Self> {\n");
    out.append("        let (client, event_loop, module_name) = ::everest::initialize_mqtt(");
    out.append(quote(module_name).as_str());
    out.append(");\n");
    out.append(concatenate(&subscribes).as_str());
    out.append("        let m = Module {\n");
    out.append("            client,\n");
    out.append("            event_loop,\n");
    out.append("            module_name,\n");
    out.append(concatenate(&members).as_str());
    out.append("        };\n");
    out.append("        m.publish(\"metadata\", METADATA).await?;\n");
    out.append("        m.publish(\"ready\", \"true\").await?;\n");
    out.append("        Ok(m)\n");
    out.append("    }\n");
    out.append("\n");
    out.append("    pub async fn loop_forever(&mut self) -> ::everest::Result<()> {\n");
    out.append("        loop {\n");
    out.append("            let msg = self.event_loop.poll().await?;\n");
    out.append("            match msg {\n");
    out.append("                ::rumqttc::Event::Incoming(::rumqttc::Packet::Publish(data)) => {\n");
    out.append(concatenate(&routes).as_str());
    out.append("                }\n");
    out.append("                ::rumqttc::Event::Outgoing(_) | ::rumqttc::Event::Incoming(_) => (),\n");
    out.append("            }\n");
    out.append("        }\n");
    out.append("    }\n");
    out.append("\n");
    out.append("    async fn publish(&self, topic: &str, value: impl Into<Vec<u8>>) -> ::everest::Result<()> {\n");
    out.append("        self.client\n");
    out.append("            .publish(\n");
    out.append("                &format!(\"everest/{}/{topic}\", self.module_name),\n");
    out.append("                ::rumqttc::QoS::ExactlyOnce,\n");
    out.append("                false,\n");
    out.append("                value,\n");
    out.append("            )\n");
    out.append("            .await?;\n");
    out.append("        Ok(())\n");
    out.append("    }\n");
    out.append("}\n");
    out
}

/// What is emitted for one slot: its service trait, then its dispatch module.
pub open spec fn slot_text(
    provides: Seq<(Seq<char>, ProvidesEntryView)>,
    interfaces: Seq<(Seq<char>, InterfaceView)>,
    i: int,
) -> Seq<char> {
    let interface = lookup(interfaces, provides[i].1.interface).unwrap();
    trait_text(provides[i].1, interface) + glue_text(provides, provides[i].0, interface)
}

/// The source text of a module: the metadata constant; for each slot, in
/// the order of their names, its service trait and its dispatch module; and
/// the module struct.
pub open spec fn emitted(
    module_name: Seq<char>,
    manifest: ManifestView,
    interfaces: Seq<(Seq<char>, InterfaceView)>,
) -> Seq<char> {
    metadata_text(module_name, manifest.provides) + flat(
        Seq::new(
            manifest.provides.len(),
            |i: int| slot_text(manifest.provides, interfaces, i),
        ),
    ) + struct_text(module_name, manifest.provides)
}

/// Emits the source text of a module. Each slot of the manifest takes its
/// interface, by name, from `interfaces`. A manifest that is not well
/// formed is an error, and so is the first slot, in the order of their
/// names, with which something is wrong; the error names the slot.
pub fn emit(module_name: &str, manifest: &Manifest, interfaces: &Vec<(String, Interface)>) -> (r:
    Result<String, BuildError>)
    ensures
        match first_error(manifest@, named_views(interfaces@)) {
            Some(e) => r is Err && r->Err_0@ == e,
            None => r is Ok && r->Ok_0@ == emitted(
                module_name@,
                manifest@,
                named_views(interfaces@),
            ),
        },
{
    if !manifest.is_well_formed() {
        return Err(
            BuildError {
                file: None,
                slot: None,
                error: Error::SchemaViolation(String::from_str("the manifest is not well formed")),
            },
        );
    }
    let ghost provides = manifest@.provides;
    let ghost given = named_views(interfaces@);
    let mut parts: Vec<String> = Vec::new();
    let mut k: usize = 0;
    while k < manifest.provides.len()
        invariant
            k <= manifest.provides.len(),
            manifest_well_formed(manifest@),
            provides == named_views(manifest.provides@),
            provides == manifest@.provides,
            given == named_views(interfaces@),
            first_bad_slot(provides, given, 0) == first_bad_slot(provides, given, k as int),
            parts.len() == k,
            forall|j: int| 0 <= j < k ==> (#[trigger] parts@[j])@ == slot_text(provides, given, j),
        decreases manifest.provides.len() - k,
    {
        let entry = &manifest.provides[k];
        assert(provides[k as int] == (entry.0@, entry.1@));
        let interface = match check_slot(&entry.1, interfaces) {
            Ok(interface) => interface,
            Err(e) => {
                return Err(BuildError { file: None, slot: Some(entry.0.clone()), error: e });
            },
        };
        let mut part = emit_interface_service_trait(&entry.1, interface);
        part.append(emit_interface_service_glue(manifest, entry.0.as_str(), interface).as_str());
        parts.push(part);
        k += 1;
    }
    assert(texts(parts@) =~= Seq::new(provides.len(), |i: int| slot_text(provides, given, i)));
    let mut out = emit_metadata(module_name, &manifest.provides);
    out.append(concatenate(&parts).as_str());
    out.append(emit_module_struct(module_name, manifest).as_str());
    Ok(out)
}

/// Emitting is a function of the values of its inputs: the same module name,
/// manifest and interfaces give the same text.
pub proof fn lemma_emit_is_deterministic(
    module_name: Seq<char>,
    manifest: ManifestView,
    interfaces: Seq<(Seq<char>, InterfaceView)>,
    other_name: Seq<char>,
    other_manifest: ManifestView,
    other_interfaces: Seq<(Seq<char>, InterfaceView)>,
)
    requires
        module_name == other_name,
        manifest == other_manifest,
        interfaces == other_interfaces,
    ensures
        emitted(module_name, manifest, interfaces) == emitted(
            other_name,
            other_manifest,
            other_interfaces,
        ),
        first_error(manifest, interfaces) == first_error(other_manifest, other_interfaces),
{
}

} // verus!
