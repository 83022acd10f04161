//! The errors of the library.

use vstd::prelude::*;
use vstd::string::StringExecFns;

verus! {

/// What can go wrong, by layer: loading a schema, emitting code, decoding an
/// envelope, dispatching a call, and the transport.
#[derive(Debug)]
pub enum Error {
    /// A document does not fit its schema; the text says why.
    SchemaViolation(String),
    /// A type that the emitter cannot map; the text names the place.
    UnsupportedType(String),
    /// A slot names an interface that is not among those given.
    InterfaceNotFound(String),
    /// A payload that is no envelope.
    MalformedEnvelope,
    /// A call lacks a declared argument.
    MissingArgument(String),
    /// A call holds a declared argument of the wrong type.
    InvalidArgument(String),
    /// The MQTT client refused a request.
    MqttClient,
    /// The connection to the broker failed.
    MqttConnection,
    /// A service implementation failed; the text is its message.
    Service(String),
}

/// The mathematical value of an [`Error`].
pub enum ErrorView {
    SchemaViolation(Seq<char>),
    UnsupportedType(Seq<char>),
    InterfaceNotFound(Seq<char>),
    MalformedEnvelope,
    MissingArgument(Seq<char>),
    InvalidArgument(Seq<char>),
    MqttClient,
    MqttConnection,
    Service(Seq<char>),
}

impl View for Error {
    type V = ErrorView;

    open spec fn view(&self) -> ErrorView {
        match self {
            Error::SchemaViolation(detail) => ErrorView::SchemaViolation(detail@),
            Error::UnsupportedType(path) => ErrorView::UnsupportedType(path@),
            Error::InterfaceNotFound(name) => ErrorView::InterfaceNotFound(name@),
            Error::MalformedEnvelope => ErrorView::MalformedEnvelope,
            Error::MissingArgument(name) => ErrorView::MissingArgument(name@),
            Error::InvalidArgument(name) => ErrorView::InvalidArgument(name@),
            Error::MqttClient => ErrorView::MqttClient,
            Error::MqttConnection => ErrorView::MqttConnection,
            Error::Service(message) => ErrorView::Service(message@),
        }
    }
}

impl Clone for Error {
    fn clone(&self) -> (r: Error)
        ensures
            r@ == self@,
    {
        match self {
            Error::SchemaViolation(detail) => Error::SchemaViolation(detail.clone()),
            Error::UnsupportedType(path) => Error::UnsupportedType(path.clone()),
            Error::InterfaceNotFound(name) => Error::InterfaceNotFound(name.clone()),
            Error::MalformedEnvelope => Error::MalformedEnvelope,
            Error::MissingArgument(name) => Error::MissingArgument(name.clone()),
            Error::InvalidArgument(name) => Error::InvalidArgument(name.clone()),
            Error::MqttClient => Error::MqttClient,
            Error::MqttConnection => Error::MqttConnection,
            Error::Service(message) => Error::Service(message.clone()),
        }
    }
}

/// The message of an error, as it is shown.
pub open spec fn message_of(e: ErrorView) -> Seq<char> {
    match e {
        ErrorView::SchemaViolation(detail) => "schema violation: "@ + detail,
        ErrorView::UnsupportedType(path) => "unsupported type: '"@ + path + "'"@,
        ErrorView::InterfaceNotFound(name) => "interface not found: '"@ + name + "'"@,
        ErrorView::MalformedEnvelope => "malformed envelope"@,
        ErrorView::MissingArgument(name) => "missing argument to command call: '"@ + name + "'"@,
        ErrorView::InvalidArgument(name) => "invalid argument to command call: '"@ + name + "'"@,
        ErrorView::MqttClient => "mqtt error"@,
        ErrorView::MqttConnection => "mqtt error"@,
        ErrorView::Service(message) => "service failed: "@ + message,
    }
}

impl Error {
    /// The message of the error, as it is shown.
    pub fn message(&self) -> (text: String)
        ensures
            text@ == message_of(self@),
    {
        match self {
            Error::SchemaViolation(detail) => {
                let mut text = String::from_str("schema violation: ");
                text.append(detail.as_str());
                text
            },
            Error::UnsupportedType(path) => {
                let mut text = String::from_str("unsupported type: '");
                text.append(path.as_str());
                text.append("'");
                text
            },
            Error::InterfaceNotFound(name) => {
                let mut text = String::from_str("interface not found: '");
                text.append(name.as_str());
                text.append("'");
                text
            },
            Error::MalformedEnvelope => String::from_str("malformed envelope"),
            Error::MissingArgument(name) => {
                let mut text = String::from_str("missing argument to command call: '");
                text.append(name.as_str());
                text.append("'");
                text
            },
            Error::InvalidArgument(name) => {
                let mut text = String::from_str("invalid argument to command call: '");
                text.append(name.as_str());
                text.append("'");
                text
            },
            Error::MqttClient => String::from_str("mqtt error"),
            Error::MqttConnection => String::from_str("mqtt error"),
            Error::Service(message) => {
                let mut text = String::from_str("service failed: ");
                text.append(message.as_str());
                text
            },
        }
    }
}

/// An error of a build, with what was at hand when it arose: the file that
/// was read, where one was, and the slot, where it was the slot's.
#[derive(Debug)]
pub struct BuildError {
    pub file: Option<String>,
    pub slot: Option<String>,
    pub error: Error,
}

/// The mathematical value of a [`BuildError`].
pub struct BuildErrorView {
    pub file: Option<Seq<char>>,
    pub slot: Option<Seq<char>>,
    pub error: ErrorView,
}

impl View for BuildError {
    type V = BuildErrorView;

    open spec fn view(&self) -> BuildErrorView {
        BuildErrorView {
            file: match self.file {
                Some(file) => Some(file@),
                None => None,
            },
            slot: match self.slot {
                Some(slot) => Some(slot@),
                None => None,
            },
            error: self.error@,
        }
    }
}

/// The words that name the file of a build error.
pub open spec fn file_context(file: Option<Seq<char>>) -> Seq<char> {
    match file {
        Some(file) => "while reading '"@ + file + "': "@,
        None => seq![],
    }
}

/// The words that name the slot of a build error.
pub open spec fn slot_context(slot: Option<Seq<char>>) -> Seq<char> {
    match slot {
        Some(slot) => "for slot '"@ + slot + "': "@,
        None => seq![],
    }
}

/// The message of a build error: the file, the slot, then the error.
pub open spec fn build_message_of(e: BuildErrorView) -> Seq<char> {
    file_context(e.file) + slot_context(e.slot) + message_of(e.error)
}

impl BuildError {
    /// The message of the error, as it is shown.
    pub fn message(&self) -> (text: String)
        ensures
            text@ == build_message_of(self@),
    {
        let mut text = String::new();
        match &self.file {
            Some(file) => {
                text.append("while reading '");
                text.append(file.as_str());
                text.append("': ");
                assert(text@ =~= file_context(self@.file));
            },
            None => {},
        }
        let ghost before = text@;
        match &self.slot {
            Some(slot) => {
                let mut words = String::from_str("for slot '");
                words.append(slot.as_str());
                words.append("': ");
                text.append(words.as_str());
            },
            None => {
                assert(before + slot_context(self@.slot) =~= before);
            },
        }
        text.append(self.error.message().as_str());
        text
    }
}

} // verus!
