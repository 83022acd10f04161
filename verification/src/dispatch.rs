//! Dispatch of one inbound message: from payload to the call of a command,
//! and from the returned value to the result that is published.

use crate::codegen::{
    argument_path, malformed_interface, representation, type_for_argument, Representation,
};
use crate::envelope::{decoded, Command, EnvelopeView, ResultData, ResultDataView};
use crate::error::{Error, ErrorView};
use crate::json::{json_views, Json, JsonView};
use crate::schema::interface::{
    interface_well_formed, Interface, InterfaceView, Variable, VariableView,
};
use crate::table::{find, lookup, named_views};
use crate::text::texts;
use vstd::prelude::*;
use vstd::string::StringExecFns;

verus! {

/// A call that passed dispatch: the command, the id of the call, and the
/// values of the declared arguments, in the order of their names.
#[derive(Debug)]
pub struct Invocation {
    pub name: String,
    pub id: String,
    pub args: Vec<Json>,
}

/// The mathematical value of an [`Invocation`].
pub struct InvocationView {
    pub name: Seq<char>,
    pub id: Seq<char>,
    pub args: Seq<JsonView>,
}

impl View for Invocation {
    type V = InvocationView;

    open spec fn view(&self) -> InvocationView {
        InvocationView { name: self.name@, id: self.id@, args: json_views(self.args@) }
    }
}

impl Clone for Invocation {
    fn clone(&self) -> (r: Invocation)
        ensures
            r@ == self@,
    {
        let mut args: Vec<Json> = Vec::new();
        let mut i: usize = 0;
        while i < self.args.len()
            invariant
                i <= self.args.len(),
                args.len() == i,
                forall|k: int| 0 <= k < i ==> args@[k]@ == self.args@[k]@,
            decreases self.args.len() - i,
        {
            args.push(self.args[i].clone());
            i += 1;
        }
        assert(json_views(args@) =~= json_views(self.args@));
        Invocation { name: self.name.clone(), id: self.id.clone(), args }
    }
}

/// The topic on which a slot receives calls and publishes results.
pub open spec fn command_topic(module_name: Seq<char>, slot: Seq<char>) -> Seq<char> {
    "everest/"@ + module_name + "/"@ + slot + "/cmd"@
}

/// The topics of a slot: its command topic where the interface has a
/// command, none otherwise.
pub open spec fn slot_topics(module_name: Seq<char>, slot: Seq<char>, interface: InterfaceView) -> Seq<
    Seq<char>,
> {
    if interface.cmds.len() > 0 {
        seq![command_topic(module_name, slot)]
    } else {
        seq![]
    }
}

/// The topics to subscribe to for a slot.
pub fn generate_topics(module_name: &str, slot: &str, interface: &Interface) -> (topics: Vec<String>)
    ensures
        texts(topics@) == slot_topics(module_name@, slot@, interface@),
{
    let mut topics: Vec<String> = Vec::new();
    if interface.cmds.len() > 0 {
        let mut topic = String::from_str("everest/");
        topic.append(module_name);
        topic.append("/");
        topic.append(slot);
        topic.append("/cmd");
        topics.push(topic);
    }
    topics
}

/// Whether a value on the wire fits a representation.
pub open spec fn fits(representation: Representation, value: JsonView) -> bool {
    match representation {
        Representation::Boolean => value is Bool,
        Representation::Text => value is String,
        Representation::Opaque => true,
    }
}

/// What is wrong with one declared argument of a call, if anything: it is
/// missing, or its type has no mapping, or the value does not fit.
pub open spec fn argument_error(
    command: Seq<char>,
    name: Seq<char>,
    variable: VariableView,
    given: Seq<(Seq<char>, JsonView)>,
) -> Option<ErrorView> {
    match lookup(given, name) {
        None => Some(ErrorView::MissingArgument(name)),
        Some(value) => match representation(variable.arg) {
            None => Some(ErrorView::UnsupportedType(argument_path(command, name))),
            Some(r) => if fits(r, value) {
                None
            } else {
                Some(ErrorView::InvalidArgument(name))
            },
        },
    }
}

/// The index of the first declared argument, from `from` on, with which
/// something is wrong, or the number of declared arguments.
pub open spec fn first_bad(
    command: Seq<char>,
    declared: Seq<(Seq<char>, VariableView)>,
    given: Seq<(Seq<char>, JsonView)>,
    from: int,
) -> int
    decreases declared.len() - from,
{
    if from < 0 || from >= declared.len() {
        declared.len() as int
    } else if argument_error(command, declared[from].0, declared[from].1, given) is Some {
        from
    } else {
        first_bad(command, declared, given, from + 1)
    }
}

/// The values of the declared arguments, in the order of their declaration.
pub open spec fn argument_values(
    declared: Seq<(Seq<char>, VariableView)>,
    given: Seq<(Seq<char>, JsonView)>,
) -> Seq<JsonView> {
    Seq::new(declared.len(), |i: int| lookup(given, declared[i].0).unwrap())
}

/// What dispatch makes of an envelope on an interface that is well formed.
/// A result is ignored, and so is a call of a command that the interface
/// does not declare. A call of a declared command fails on its first
/// declared argument, in the order of their names, with which something is
/// wrong; otherwise it is to be invoked.
pub open spec fn select_in(interface: InterfaceView, envelope: EnvelopeView) -> Result<
    Option<InvocationView>,
    ErrorView,
> {
    match envelope {
        EnvelopeView::Result { .. } => Ok(None),
        EnvelopeView::Call { name, data } => match lookup(interface.cmds, name) {
            None => Ok(None),
            Some(command) => {
                let bad = first_bad(name, command.arguments, data.args, 0);
                if bad < command.arguments.len() {
                    Err(
                        argument_error(
                            name,
                            command.arguments[bad].0,
                            command.arguments[bad].1,
                            data.args,
                        ).unwrap(),
                    )
                } else {
                    Ok(
                        Some(
                            InvocationView {
                                name,
                                id: data.id,
                                args: argument_values(command.arguments, data.args),
                            },
                        ),
                    )
                }
            },
        },
    }
}

/// What dispatch makes of an envelope: on an interface that is not well
/// formed it fails with a schema violation; on any other it goes by
/// [`select_in`].
pub open spec fn select(interface: InterfaceView, envelope: EnvelopeView) -> Result<
    Option<InvocationView>,
    ErrorView,
> {
    if interface_well_formed(interface) {
        select_in(interface, envelope)
    } else {
        Err(ErrorView::SchemaViolation(malformed_interface()))
    }
}

/// What dispatch makes of a payload: one that holds no envelope is ignored,
/// any other goes by [`select`].
pub open spec fn handled(interface: InterfaceView, payload: Seq<u8>) -> Result<
    Option<InvocationView>,
    ErrorView,
> {
    match decoded(payload) {
        None => Ok(None),
        Some(envelope) => select(interface, envelope),
    }
}

/// The mathematical value of what dispatch returns.
pub open spec fn outcome_view(r: Result<Option<Invocation>, Error>) -> Result<
    Option<InvocationView>,
    ErrorView,
> {
    match r {
        Ok(Some(invocation)) => Ok(Some(invocation@)),
        Ok(None) => Ok(None),
        Err(e) => Err(e@),
    }
}

/// Checks one declared argument of a call and returns its value.
fn take_argument(command: &str, name: &str, variable: &Variable, given: &Vec<(String, Json)>) -> (r:
    Result<Json, Error>)
    ensures
        match r {
            Ok(value) => argument_error(command@, name@, variable@, named_views(given@)) is None
                && lookup(named_views(given@), name@) == Some(value@),
            Err(e) => argument_error(command@, name@, variable@, named_views(given@)) == Some(e@),
        },
{
    let value = match find(given, name) {
        Some(i) => &given[i].1,
        None => return Err(Error::MissingArgument(String::from_str(name))),
    };
    match type_for_argument(&variable.arg) {
        None => {
            let mut path = String::from_str(command);
            path.append(".");
            path.append(name);
            Err(Error::UnsupportedType(path))
        },
        Some(Representation::Boolean) => match value {
            Json::Bool(_) => Ok(value.clone()),
            _ => Err(Error::InvalidArgument(String::from_str(name))),
        },
        Some(Representation::Text) => match value {
            Json::String(_) => Ok(value.clone()),
            _ => Err(Error::InvalidArgument(String::from_str(name))),
        },
        Some(Representation::Opaque) => Ok(value.clone()),
    }
}

/// Dispatches an envelope against an interface.
pub fn select_call(interface: &Interface, envelope: &Command) -> (r: Result<
    Option<Invocation>,
    Error,
>)
    ensures
        outcome_view(r) == select(interface@, envelope@),
{
    if !interface.is_well_formed() {
        return Err(Error::SchemaViolation(String::from_str("the interface is not well formed")));
    }
    let (name, data) = match envelope {
        Command::Call { name, data } => (name, data),
        Command::Result { .. } => return Ok(None),
    };
    let command = match find(&interface.cmds, name.as_str()) {
        Some(i) => &interface.cmds[i].1,
        None => return Ok(None),
    };
    let ghost declared = command@.arguments;
    let ghost given = data@.args;
    let mut args: Vec<Json> = Vec::new();
    let mut k: usize = 0;
    while k < command.arguments.len()
        invariant
            k <= command.arguments.len(),
            interface_well_formed(interface@),
            envelope@ == (EnvelopeView::Call { name: name@, data: data@ }),
            lookup(interface@.cmds, name@) == Some(command@),
            declared == command@.arguments,
            declared == named_views(command.arguments@),
            given == named_views(data.args@),
            first_bad(name@, declared, given, 0) == first_bad(name@, declared, given, k as int),
            args.len() == k,
            forall|j: int| 0 <= j < k ==> args@[j]@ == argument_values(declared, given)[j],
        decreases command.arguments.len() - k,
    {
        let entry = &command.arguments[k];
        match take_argument(name.as_str(), entry.0.as_str(), &entry.1, &data.args) {
            Ok(value) => {
                args.push(value);
            },
            Err(e) => {
                return Err(e);
            },
        }
        k += 1;
    }
    let invocation = Invocation { name: name.clone(), id: data.id.clone(), args };
    assert(invocation@.args =~= argument_values(declared, given));
    Ok(Some(invocation))
}

/// Dispatches a payload against an interface: the decisions of the handler
/// of a slot, up to the call of the service implementation.
pub fn handle_mqtt_message(interface: &Interface, payload: &[u8]) -> (r: Result<
    Option<Invocation>,
    Error,
>)
    ensures
        outcome_view(r) == handled(interface@, payload@),
{
    match Command::decode(payload) {
        Ok(envelope) => select_call(interface, &envelope),
        Err(_) => Ok(None),
    }
}

/// The result of a call: the name and the id of the call, the module as the
/// origin, and the returned value.
pub open spec fn result_of(module_name: Seq<char>, invocation: InvocationView, retval: JsonView) -> EnvelopeView {
    EnvelopeView::Result {
        name: invocation.name,
        data: ResultDataView { id: invocation.id, origin: module_name, retval },
    }
}

/// Builds the envelope that answers a call.
pub fn result_envelope(module_name: &str, invocation: &Invocation, retval: Json) -> (r: Command)
    ensures
        r@ == result_of(module_name@, invocation@, retval@),
{
    Command::Result {
        name: invocation.name.clone(),
        data: ResultData {
            id: invocation.id.clone(),
            origin: String::from_str(module_name),
            retval,
        },
    }
}

} // verus!
