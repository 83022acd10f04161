//! The envelope that carries a call or its result over the wire.

use crate::error::{Error, ErrorView};
use crate::json::{json_document, json_text, lemma_object_view, written, Json, JsonView};
use crate::table::{find, lemma_lookup_index_is, lookup, named_views};
use crate::text::str_eq;
use vstd::prelude::*;
use vstd::string::StringExecFns;
use vstd::utf8::encode_utf8;

verus! {

/// An envelope: a call of a command, or the result of one.
#[derive(Debug)]
#[allow(inconsistent_fields)]
pub enum Command {
    Call { name: String, data: CallData },
    Result { name: String, data: ResultData },
}

/// What a call carries: its id, who sent it, and the arguments by name.
#[derive(Debug)]
pub struct CallData {
    pub id: String,
    pub origin: String,
    pub args: Vec<(String, Json)>,
}

/// What a result carries: the id of the call, who answers, and the value.
#[derive(Debug)]
pub struct ResultData {
    pub id: String,
    pub origin: String,
    pub retval: Json,
}

/// The mathematical value of a [`Command`].
#[allow(inconsistent_fields)]
pub enum EnvelopeView {
    Call { name: Seq<char>, data: CallDataView },
    Result { name: Seq<char>, data: ResultDataView },
}

/// The mathematical value of a [`CallData`].
pub struct CallDataView {
    pub id: Seq<char>,
    pub origin: Seq<char>,
    pub args: Seq<(Seq<char>, JsonView)>,
}

/// The mathematical value of a [`ResultData`].
pub struct ResultDataView {
    pub id: Seq<char>,
    pub origin: Seq<char>,
    pub retval: JsonView,
}

impl View for CallData {
    type V = CallDataView;

    open spec fn view(&self) -> CallDataView {
        CallDataView { id: self.id@, origin: self.origin@, args: named_views(self.args@) }
    }
}

impl View for ResultData {
    type V = ResultDataView;

    open spec fn view(&self) -> ResultDataView {
        ResultDataView { id: self.id@, origin: self.origin@, retval: self.retval@ }
    }
}

impl View for Command {
    type V = EnvelopeView;

    open spec fn view(&self) -> EnvelopeView {
        match self {
            Command::Call { name, data } => EnvelopeView::Call { name: name@, data: data@ },
            Command::Result { name, data } => EnvelopeView::Result { name: name@, data: data@ },
        }
    }
}

/// The JSON object of a call's data: `id`, `origin`, `args`.
pub open spec fn call_data_json(data: CallDataView) -> JsonView {
    JsonView::Object(
        seq![
            ("id"@, JsonView::String(data.id)),
            ("origin"@, JsonView::String(data.origin)),
            ("args"@, JsonView::Object(data.args)),
        ],
    )
}

/// The JSON object of a result's data: `id`, `origin`, `retval`.
pub open spec fn result_data_json(data: ResultDataView) -> JsonView {
    JsonView::Object(
        seq![
            ("id"@, JsonView::String(data.id)),
            ("origin"@, JsonView::String(data.origin)),
            ("retval"@, data.retval),
        ],
    )
}

/// The JSON object of an envelope: `type` (`call` or `result`), `name`, `data`.
pub open spec fn envelope_json(envelope: EnvelopeView) -> JsonView {
    match envelope {
        EnvelopeView::Call { name, data } => JsonView::Object(
            seq![
                ("type"@, JsonView::String("call"@)),
                ("name"@, JsonView::String(name)),
                ("data"@, call_data_json(data)),
            ],
        ),
        EnvelopeView::Result { name, data } => JsonView::Object(
            seq![
                ("type"@, JsonView::String("result"@)),
                ("name"@, JsonView::String(name)),
                ("data"@, result_data_json(data)),
            ],
        ),
    }
}

/// The text of the member named `key`, where there is one and it is a string.
pub open spec fn text_member(members: Seq<(Seq<char>, JsonView)>, key: Seq<char>) -> Option<
    Seq<char>,
> {
    match lookup(members, key) {
        Some(JsonView::String(text)) => Some(text),
        _ => None,
    }
}

/// The members of the member named `key`, where there is one and it is an object.
pub open spec fn object_member(members: Seq<(Seq<char>, JsonView)>, key: Seq<char>) -> Option<
    Seq<(Seq<char>, JsonView)>,
> {
    match lookup(members, key) {
        Some(JsonView::Object(inner)) => Some(inner),
        _ => None,
    }
}

/// The call data that a JSON object's members hold: `id` and `origin` must be
/// strings and `args` an object; other members are ignored.
pub open spec fn json_call_data(members: Seq<(Seq<char>, JsonView)>) -> Option<CallDataView> {
    let id = text_member(members, "id"@);
    let origin = text_member(members, "origin"@);
    let args = object_member(members, "args"@);
    if id is Some && origin is Some && args is Some {
        Some(CallDataView { id: id->Some_0, origin: origin->Some_0, args: args->Some_0 })
    } else {
        None
    }
}

/// The result data that a JSON object's members hold: `id` and `origin` must
/// be strings and `retval` present; other members are ignored.
pub open spec fn json_result_data(members: Seq<(Seq<char>, JsonView)>) -> Option<ResultDataView> {
    let id = text_member(members, "id"@);
    let origin = text_member(members, "origin"@);
    let retval = lookup(members, "retval"@);
    if id is Some && origin is Some && retval is Some {
        Some(ResultDataView { id: id->Some_0, origin: origin->Some_0, retval: retval->Some_0 })
    } else {
        None
    }
}

/// The envelope that a JSON value holds, `None` where it holds none: the
/// value must be an object whose `type` is the string `call` or `result`,
/// whose `name` is a string and whose `data` is an object that fits the type.
pub open spec fn json_envelope(json: JsonView) -> Option<EnvelopeView> {
    match json {
        JsonView::Object(members) => {
            let kind = text_member(members, "type"@);
            let name = text_member(members, "name"@);
            let data = object_member(members, "data"@);
            if kind is Some && name is Some && data is Some {
                if kind->Some_0 == "call"@ {
                    match json_call_data(data->Some_0) {
                        Some(d) => Some(EnvelopeView::Call { name: name->Some_0, data: d }),
                        None => None,
                    }
                } else if kind->Some_0 == "result"@ {
                    match json_result_data(data->Some_0) {
                        Some(d) => Some(EnvelopeView::Result { name: name->Some_0, data: d }),
                        None => None,
                    }
                } else {
                    None
                }
            } else {
                None
            }
        },
        _ => None,
    }
}

/// The envelope that a payload holds: the payload must be JSON text, and the
/// value an envelope.
pub open spec fn decoded(payload: Seq<u8>) -> Option<EnvelopeView> {
    match json_document(payload) {
        Some(json) => json_envelope(json),
        None => None,
    }
}

/// The text that an envelope is written as.
pub open spec fn encoded(envelope: EnvelopeView) -> Seq<char> {
    json_text(written(envelope_json(envelope)))
}

/// The names of the members of an envelope differ from one another.
pub proof fn lemma_member_names_differ()
    ensures
        "type"@ != "name"@,
        "type"@ != "data"@,
        "name"@ != "data"@,
        "id"@ != "origin"@,
        "id"@ != "args"@,
        "id"@ != "retval"@,
        "origin"@ != "args"@,
        "origin"@ != "retval"@,
        "call"@ != "result"@,
{
    reveal_strlit("type");
    reveal_strlit("name");
    reveal_strlit("data");
    reveal_strlit("id");
    reveal_strlit("origin");
    reveal_strlit("args");
    reveal_strlit("retval");
    reveal_strlit("call");
    reveal_strlit("result");
    assert("name"@.len() == 4 && "name"@[0] == 'n');
    assert("data"@.len() == 4 && "data"@[0] == 'd');
    assert("origin"@.len() == 6 && "origin"@[0] == 'o');
    assert("args"@.len() == 4);
    assert("retval"@.len() == 6 && "retval"@[0] == 'r');
    assert("result"@.len() == 6);
}

/// Reading the JSON value of an envelope gives the envelope back.
pub proof fn lemma_json_round_trip(envelope: EnvelopeView)
    ensures
        json_envelope(envelope_json(envelope)) == Some(envelope),
{
    lemma_member_names_differ();
    let members = envelope_json(envelope)->Object_0;
    lemma_lookup_index_is(members, "name"@, 1);
    lemma_lookup_index_is(members, "data"@, 2);
    let data = members[2].1->Object_0;
    lemma_lookup_index_is(data, "origin"@, 1);
    match envelope {
        EnvelopeView::Call { name, data: d } => {
            lemma_lookup_index_is(data, "args"@, 2);
        },
        EnvelopeView::Result { name, data: d } => {
            lemma_lookup_index_is(data, "retval"@, 2);
        },
    }
}

/// An envelope survives being written and read, wherever the JSON library
/// reads back from the text the value that it wrote.
pub proof fn lemma_round_trip(envelope: EnvelopeView)
    ensures
        json_document(encode_utf8(json_text(written(envelope_json(envelope))))) == Some(
            envelope_json(envelope),
        ) ==> decoded(encode_utf8(encoded(envelope))) == Some(envelope),
{
    lemma_json_round_trip(envelope);
}

/// The string member named `key`.
fn get_text<'a>(members: &'a Vec<(String, Json)>, key: &str) -> (r: Option<&'a String>)
    ensures
        match r {
            Some(s) => text_member(named_views(members@), key@) == Some(s@),
            None => text_member(named_views(members@), key@) is None,
        },
{
    match find(members, key) {
        Some(i) => match &members[i].1 {
            Json::String(s) => Some(s),
            _ => None,
        },
        None => None,
    }
}

/// The object member named `key`.
fn get_object<'a>(members: &'a Vec<(String, Json)>, key: &str) -> (r: Option<
    &'a Vec<(String, Json)>,
>)
    ensures
        match r {
            Some(inner) => object_member(named_views(members@), key@) == Some(
                named_views(inner@),
            ),
            None => object_member(named_views(members@), key@) is None,
        },
{
    match find(members, key) {
        Some(i) => match &members[i].1 {
            Json::Object(inner) => {
                Some(inner)
            },
            _ => None,
        },
        None => None,
    }
}

/// A copy of a list of named values.
pub fn clone_members(members: &Vec<(String, Json)>) -> (r: Vec<(String, Json)>)
    ensures
        named_views(r@) == named_views(members@),
{
    let mut copy: Vec<(String, Json)> = Vec::new();
    let mut i: usize = 0;
    while i < members.len()
        invariant
            i <= members.len(),
            copy.len() == i,
            forall|k: int|
                0 <= k < i ==> copy@[k].0@ == members@[k].0@ && copy@[k].1@ == members@[k].1@,
        decreases members.len() - i,
    {
        copy.push((members[i].0.clone(), members[i].1.clone()));
        i += 1;
    }
    copy
}

impl CallData {
    /// The JSON object of this data.
    pub fn to_json(&self) -> (json: Json)
        ensures
            json@ == call_data_json(self@),
    {
        let args = Json::Object(clone_members(&self.args));
        proof {
            lemma_object_view(args);
        }
        let mut members: Vec<(String, Json)> = Vec::new();
        members.push((String::from_str("id"), Json::String(self.id.clone())));
        members.push((String::from_str("origin"), Json::String(self.origin.clone())));
        members.push((String::from_str("args"), args));
        let json = Json::Object(members);
        proof {
            lemma_object_view(json);
            assert(named_views(members@) =~= call_data_json(self@)->Object_0);
        }
        json
    }

    /// Reads the data of a call from the members of a JSON object.
    pub fn from_members(members: &Vec<(String, Json)>) -> (r: Option<CallData>)
        ensures
            match r {
                Some(data) => json_call_data(named_views(members@)) == Some(data@),
                None => json_call_data(named_views(members@)) is None,
            },
    {
        let id = match get_text(members, "id") {
            Some(s) => s.clone(),
            None => return None,
        };
        let origin = match get_text(members, "origin") {
            Some(s) => s.clone(),
            None => return None,
        };
        let args = match get_object(members, "args") {
            Some(inner) => clone_members(inner),
            None => return None,
        };
        Some(CallData { id, origin, args })
    }
}

impl ResultData {
    /// The JSON object of this data.
    pub fn to_json(&self) -> (json: Json)
        ensures
            json@ == result_data_json(self@),
    {
        let mut members: Vec<(String, Json)> = Vec::new();
        members.push((String::from_str("id"), Json::String(self.id.clone())));
        members.push((String::from_str("origin"), Json::String(self.origin.clone())));
        members.push((String::from_str("retval"), self.retval.clone()));
        let json = Json::Object(members);
        proof {
            lemma_object_view(json);
            assert(named_views(members@) =~= result_data_json(self@)->Object_0);
        }
        json
    }

    /// Reads the data of a result from the members of a JSON object.
    pub fn from_members(members: &Vec<(String, Json)>) -> (r: Option<ResultData>)
        ensures
            match r {
                Some(data) => json_result_data(named_views(members@)) == Some(data@),
                None => json_result_data(named_views(members@)) is None,
            },
    {
        let id = match get_text(members, "id") {
            Some(s) => s.clone(),
            None => return None,
        };
        let origin = match get_text(members, "origin") {
            Some(s) => s.clone(),
            None => return None,
        };
        let retval = match find(members, "retval") {
            Some(i) => members[i].1.clone(),
            None => return None,
        };
        Some(ResultData { id, origin, retval })
    }
}

impl Command {
    /// The JSON object of this envelope.
    pub fn to_json(&self) -> (json: Json)
        ensures
            json@ == envelope_json(self@),
    {
        let mut members: Vec<(String, Json)> = Vec::new();
        match self {
            Command::Call { name, data } => {
                members.push((String::from_str("type"), Json::String(String::from_str("call"))));
                members.push((String::from_str("name"), Json::String(name.clone())));
                members.push((String::from_str("data"), data.to_json()));
            },
            Command::Result { name, data } => {
                members.push((String::from_str("type"), Json::String(String::from_str("result"))));
                members.push((String::from_str("name"), Json::String(name.clone())));
                members.push((String::from_str("data"), data.to_json()));
            },
        }
        let json = Json::Object(members);
        proof {
            lemma_object_view(json);
            assert(named_views(members@) =~= envelope_json(self@)->Object_0);
        }
        json
    }

    /// Reads an envelope from a JSON value. A value that holds no envelope is
    /// a malformed envelope.
    pub fn from_json(json: &Json) -> (r: Result<Command, Error>)
        ensures
            match json_envelope(json@) {
                Some(envelope) => r is Ok && r->Ok_0@ == envelope,
                None => r is Err && r->Err_0@ == ErrorView::MalformedEnvelope,
            },
    {
        let members = match json {
            Json::Object(members) => members,
            _ => return Err(Error::MalformedEnvelope),
        };
        proof {
            lemma_object_view(*json);
        }
        let kind = match get_text(members, "type") {
            Some(s) => s,
            None => return Err(Error::MalformedEnvelope),
        };
        let name = match get_text(members, "name") {
            Some(s) => s,
            None => return Err(Error::MalformedEnvelope),
        };
        let data = match get_object(members, "data") {
            Some(inner) => inner,
            None => return Err(Error::MalformedEnvelope),
        };
        if str_eq(kind.as_str(), "call") {
            match CallData::from_members(data) {
                Some(d) => Ok(Command::Call { name: name.clone(), data: d }),
                None => Err(Error::MalformedEnvelope),
            }
        } else if str_eq(kind.as_str(), "result") {
            match ResultData::from_members(data) {
                Some(d) => Ok(Command::Result { name: name.clone(), data: d }),
                None => Err(Error::MalformedEnvelope),
            }
        } else {
            Err(Error::MalformedEnvelope)
        }
    }

    /// Writes the envelope as JSON text.
    pub fn encode(&self) -> (text: String)
        ensures
            text@ == encoded(self@),
    {
        self.to_json().to_text()
    }

    /// Reads an envelope from a payload. A payload that is no JSON text, or
    /// whose value holds no envelope, is a malformed envelope.
    pub fn decode(payload: &[u8]) -> (r: Result<Command, Error>)
        ensures
            match decoded(payload@) {
                Some(envelope) => r is Ok && r->Ok_0@ == envelope,
                None => r is Err && r->Err_0@ == ErrorView::MalformedEnvelope,
            },
    {
        match Json::parse(payload) {
            Some(json) => Command::from_json(&json),
            None => Err(Error::MalformedEnvelope),
        }
    }
}

} // verus!
