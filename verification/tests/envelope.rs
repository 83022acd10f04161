use everest::envelope::{CallData, Command, ResultData};
use everest::error::Error;
use everest::json::Json;
use everest::number::Numeral;

fn text(json: &Json) -> String {
    json.to_text()
}

#[test]
fn call_is_written_in_field_order() {
    let call = Command::Call {
        name: "store".to_string(),
        data: CallData {
            id: "a1".to_string(),
            origin: "peer".to_string(),
            args: vec![
                ("key".to_string(), Json::String("k".to_string())),
                ("value".to_string(), Json::Number(Numeral::PosInt(42))),
            ],
        },
    };
    assert_eq!(
        call.encode(),
        r#"{"type":"call","name":"store","data":{"id":"a1","origin":"peer","args":{"key":"k","value":42}}}"#
    );
}

#[test]
fn result_is_written_in_field_order() {
    let result = Command::Result {
        name: "load".to_string(),
        data: ResultData {
            id: "a\"2".to_string(),
            origin: "RustKvs".to_string(),
            retval: Json::Array(vec![
                Json::Null,
                Json::Bool(false),
                Json::Number(Numeral::NegInt(-7)),
                Json::Number(Numeral::Float("1.5".to_string())),
            ]),
        },
    };
    assert_eq!(
        result.encode(),
        r#"{"type":"result","name":"load","data":{"id":"a\"2","origin":"RustKvs","retval":[null,false,-7,1.5]}}"#
    );
}

#[test]
fn decode_gives_back_what_encode_wrote() {
    let call = Command::Call {
        name: "store".to_string(),
        data: CallData {
            id: "a1".to_string(),
            origin: "peer".to_string(),
            args: vec![
                ("value".to_string(), Json::Object(vec![("x".to_string(), Json::Null)])),
                ("key".to_string(), Json::String("line\nbreak".to_string())),
            ],
        },
    };
    let written = call.encode();
    match Command::decode(written.as_bytes()).unwrap() {
        Command::Call { name, data } => {
            assert_eq!(name, "store");
            assert_eq!(data.id, "a1");
            assert_eq!(data.origin, "peer");
            assert_eq!(data.args.len(), 2);
            assert_eq!(data.args[0].0, "value");
            assert_eq!(text(&data.args[0].1), r#"{"x":null}"#);
            assert_eq!(data.args[1].0, "key");
            assert!(matches!(&data.args[1].1, Json::String(s) if s == "line\nbreak"));
        }
        other => panic!("unexpected {other:?}"),
    }
    let result = Command::Result {
        name: "exists".to_string(),
        data: ResultData { id: "7".to_string(), origin: "m".to_string(), retval: Json::Bool(true) },
    };
    let again = Command::decode(result.encode().as_bytes()).unwrap();
    assert_eq!(again.encode(), result.encode());
    assert!(matches!(again, Command::Result { .. }));
}

#[test]
fn from_json_reads_what_to_json_built() {
    let result = Command::Result {
        name: "n".to_string(),
        data: ResultData { id: "i".to_string(), origin: "o".to_string(), retval: Json::Null },
    };
    match Command::from_json(&result.to_json()).unwrap() {
        Command::Result { name, data } => {
            assert_eq!(name, "n");
            assert_eq!(data.id, "i");
            assert_eq!(data.origin, "o");
            assert!(matches!(data.retval, Json::Null));
        }
        other => panic!("unexpected {other:?}"),
    }
}

#[test]
fn unknown_type_is_malformed() {
    assert!(matches!(
        Command::decode(br#"{"type":"event","name":"x","data":{"id":"1","origin":"o","args":{}}}"#),
        Err(Error::MalformedEnvelope)
    ));
}

#[test]
fn what_is_no_envelope_is_malformed() {
    for payload in [
        &b"{not json"[..],
        b"[]",
        b"null",
        br#"{"name":"x","data":{"id":"1","origin":"o","args":{}}}"#,
        br#"{"type":"call","data":{"id":"1","origin":"o","args":{}}}"#,
        br#"{"type":"call","name":"x"}"#,
        br#"{"type":"call","name":"x","data":{"origin":"o","args":{}}}"#,
        br#"{"type":"call","name":"x","data":{"id":"1","args":{}}}"#,
        br#"{"type":"call","name":"x","data":{"id":"1","origin":"o"}}"#,
        br#"{"type":"call","name":"x","data":{"id":"1","origin":"o","args":[]}}"#,
        br#"{"type":"call","name":7,"data":{"id":"1","origin":"o","args":{}}}"#,
        br#"{"type":"result","name":"x","data":{"id":"1","origin":"o"}}"#,
        br#"{"type":"result","name":"x","data":{"id":1,"origin":"o","retval":null}}"#,
    ] {
        assert!(matches!(Command::decode(payload), Err(Error::MalformedEnvelope)));
    }
}

#[test]
fn unknown_members_are_ignored() {
    let decoded = Command::decode(
        br#"{"extra":1,"type":"result","name":"x","data":{"id":"1","more":[],"origin":"o","retval":{"a":1}}}"#,
    )
    .unwrap();
    assert_eq!(
        decoded.encode(),
        r#"{"type":"result","name":"x","data":{"id":"1","origin":"o","retval":{"a":1}}}"#
    );
}

#[test]
fn json_text_is_read_and_written() {
    let parsed = Json::parse(b" {\"b\": [1, -2, 2.50, \"x\\u0041\"], \"a\": {}} ").unwrap();
    assert_eq!(parsed.to_text(), r#"{"b":[1,-2,2.5,"xA"],"a":{}}"#);
    assert!(Json::parse(b"{").is_none());
    assert!(Json::parse(b"").is_none());
    let big = Json::parse(b"18446744073709551615").unwrap();
    assert!(matches!(big, Json::Number(Numeral::PosInt(u64::MAX))));
    assert_eq!(Json::Number(Numeral::Float("no number".to_string())).to_text(), "null");
    let twice = Json::Object(vec![
        ("k".to_string(), Json::Bool(true)),
        ("k".to_string(), Json::Bool(false)),
    ]);
    assert_eq!(twice.to_text(), r#"{"k":false}"#);
    assert_eq!(twice.clone().to_text(), r#"{"k":false}"#);
}

#[test]
fn errors_have_messages() {
    assert_eq!(
        Error::MissingArgument("key".to_string()).message(),
        "missing argument to command call: 'key'"
    );
    assert_eq!(
        Error::InvalidArgument("key".to_string()).message(),
        "invalid argument to command call: 'key'"
    );
    assert_eq!(Error::MqttClient.message(), "mqtt error");
    assert_eq!(Error::MqttConnection.message(), "mqtt error");
    assert_eq!(Error::MalformedEnvelope.message(), "malformed envelope");
    assert_eq!(Error::SchemaViolation("x".to_string()).message(), "schema violation: x");
    assert_eq!(Error::UnsupportedType("c.a".to_string()).message(), "unsupported type: 'c.a'");
    assert_eq!(Error::InterfaceNotFound("kvs".to_string()).message(), "interface not found: 'kvs'");
    assert_eq!(Error::Service("no".to_string()).message(), "service failed: no");
    assert_eq!(Error::Service("no".to_string()).clone().message(), "service failed: no");
}

#[test]
fn a_float_that_is_no_number_is_written_as_null() {
    let value = Json::Array(vec![
        Json::Number(Numeral::Float("1e3".to_string())),
        Json::Number(Numeral::Float("1e999".to_string())),
        Json::Object(vec![("x".to_string(), Json::Number(Numeral::Float("-".to_string())))]),
    ]);
    assert_eq!(value.to_text(), r#"[1000.0,null,{"x":null}]"#);
    match value.cleaned() {
        Json::Array(items) => {
            assert!(matches!(&items[0], Json::Number(Numeral::Float(text)) if text == "1e3"));
            assert!(matches!(items[1], Json::Null));
        }
        other => panic!("unexpected {other:?}"),
    }
}
