use everest::dispatch::{generate_topics, handle_mqtt_message, Invocation};
use everest::error::Error;
use everest::json::Json;
use everest::module::{Action, Event, Module, PublicationKind, QoS};
use everest::number::Numeral;
use everest::schema::interface::{Argument, Command, Interface, StringOptions, Type, Variable};
use everest::schema::manifest::{Manifest, Metadata, ProvidesEntry};
use std::collections::BTreeMap;

fn string_type() -> Type {
    Type::String(StringOptions {
        pattern: None,
        format: None,
        max_length: None,
        min_length: None,
        enum_items: None,
        object_reference: None,
    })
}

fn any_value() -> Argument {
    Argument::Multiple(vec![Type::Null, Type::Boolean, string_type()])
}

fn key_argument() -> (String, Variable) {
    (
        "key".to_string(),
        Variable { description: Some("the key".to_string()), arg: Argument::Single(string_type()) },
    )
}

fn kvs_interface() -> Interface {
    Interface {
        description: "a simple key-value store".to_string(),
        cmds: vec![
            (
                "delete".to_string(),
                Command {
                    description: "removes the value stored under a key".to_string(),
                    arguments: vec![key_argument()],
                    result: None,
                },
            ),
            (
                "exists".to_string(),
                Command {
                    description: "checks if something is stored under a key".to_string(),
                    arguments: vec![key_argument()],
                    result: Some(Variable {
                        description: Some("whether the key exists".to_string()),
                        arg: Argument::Single(Type::Boolean),
                    }),
                },
            ),
            (
                "load".to_string(),
                Command {
                    description: "loads the value stored under a key".to_string(),
                    arguments: vec![key_argument()],
                    result: Some(Variable { description: None, arg: any_value() }),
                },
            ),
            (
                "store".to_string(),
                Command {
                    description: "stores a value under a key".to_string(),
                    arguments: vec![
                        key_argument(),
                        ("value".to_string(), Variable { description: None, arg: any_value() }),
                    ],
                    result: None,
                },
            ),
        ],
        vars: vec![],
    }
}

fn kvs_manifest() -> Manifest {
    Manifest {
        description: "a key-value store".to_string(),
        provides: vec![(
            "main".to_string(),
            ProvidesEntry { interface: "kvs".to_string(), description: "the store".to_string() },
        )],
        metadata: Metadata { license: "Apache-2.0".to_string(), authors: vec!["a".to_string()] },
    }
}

struct Kvs {
    values: BTreeMap<String, Json>,
}

fn text_of(json: &Json) -> String {
    match json {
        Json::String(s) => s.clone(),
        _ => panic!("not a string"),
    }
}

impl Kvs {
    fn call(&mut self, invocation: &Invocation) -> Json {
        match invocation.name.as_str() {
            "store" => {
                self.values.insert(text_of(&invocation.args[0]), invocation.args[1].clone());
                Json::Null
            }
            "load" => self.values.get(&text_of(&invocation.args[0])).cloned().unwrap_or(Json::Null),
            "delete" => {
                self.values.remove(&text_of(&invocation.args[0]));
                Json::Null
            }
            "exists" => Json::Bool(self.values.contains_key(&text_of(&invocation.args[0]))),
            other => panic!("no command {other}"),
        }
    }
}

/// Runs one payload through a serving module and returns what it publishes.
fn serve(module: &mut Module, kvs: &mut Kvs, topic: &str, payload: &str) -> Vec<(String, String)> {
    let mut published = Vec::new();
    let event = Event::Message { topic: topic.to_string(), payload: payload.as_bytes().to_vec() };
    for action in module.step(&event) {
        match action {
            Action::Invoke { slot, invocation } => {
                assert_eq!(slot, "main");
                let retval = kvs.call(&invocation);
                for next in module.step(&Event::Returned(retval)) {
                    match next {
                        Action::Publish(p) => {
                            assert_eq!(p.kind, PublicationKind::Result);
                            assert_eq!(p.qos, QoS::ExactlyOnce);
                            assert!(!p.retain);
                            published.push((p.topic, p.payload));
                            assert!(module.step(&Event::Done).is_empty());
                        }
                        other => panic!("unexpected {other:?}"),
                    }
                }
            }
            Action::Stop(_) => {}
            other => panic!("unexpected {other:?}"),
        }
    }
    published
}

fn started<'a>(interfaces: &'a Vec<(String, Interface)>) -> Module<'a> {
    let manifest = kvs_manifest();
    let (mut module, first) = Module::init("RustKvs", &manifest, interfaces).unwrap();
    let mut actions = first;
    while !actions.is_empty() {
        assert_eq!(actions.len(), 1);
        assert!(matches!(actions[0], Action::Subscribe { .. } | Action::Publish(_)));
        actions = module.step(&Event::Done);
    }
    assert!(module.is_serving());
    module
}

const TOPIC: &str = "everest/RustKvs/main/cmd";

#[test]
fn store_round_trip() {
    let interfaces = vec![("kvs".to_string(), kvs_interface())];
    let mut module = started(&interfaces);
    let mut kvs = Kvs { values: BTreeMap::new() };
    let out = serve(
        &mut module,
        &mut kvs,
        TOPIC,
        r#"{"type":"call","name":"store","data":{"id":"a1","origin":"peer","args":{"key":"k","value":42}}}"#,
    );
    assert_eq!(
        out,
        vec![(
            TOPIC.to_string(),
            r#"{"type":"result","name":"store","data":{"id":"a1","origin":"RustKvs","retval":null}}"#
                .to_string()
        )]
    );
    assert!(matches!(kvs.values.get("k"), Some(Json::Number(Numeral::PosInt(42)))));
    assert!(module.is_serving());
}

#[test]
fn load_miss() {
    let interfaces = vec![("kvs".to_string(), kvs_interface())];
    let mut module = started(&interfaces);
    let mut kvs = Kvs { values: BTreeMap::new() };
    serve(
        &mut module,
        &mut kvs,
        TOPIC,
        r#"{"type":"call","name":"store","data":{"id":"a1","origin":"peer","args":{"key":"k","value":42}}}"#,
    );
    let out = serve(
        &mut module,
        &mut kvs,
        TOPIC,
        r#"{"type":"call","name":"load","data":{"id":"a2","origin":"p","args":{"key":"missing"}}}"#,
    );
    assert_eq!(
        out,
        vec![(
            TOPIC.to_string(),
            r#"{"type":"result","name":"load","data":{"id":"a2","origin":"RustKvs","retval":null}}"#
                .to_string()
        )]
    );
}

#[test]
fn load_hit_returns_the_stored_value() {
    let interfaces = vec![("kvs".to_string(), kvs_interface())];
    let mut module = started(&interfaces);
    let mut kvs = Kvs { values: BTreeMap::new() };
    serve(
        &mut module,
        &mut kvs,
        TOPIC,
        r#"{"type":"call","name":"store","data":{"id":"a1","origin":"peer","args":{"key":"k","value":{"b":[1,-2,1.5,"x"],"a":null}}}}"#,
    );
    let out = serve(
        &mut module,
        &mut kvs,
        TOPIC,
        r#"{"type":"call","name":"load","data":{"id":"a2","origin":"p","args":{"key":"k"}}}"#,
    );
    assert_eq!(
        out[0].1,
        r#"{"type":"result","name":"load","data":{"id":"a2","origin":"RustKvs","retval":{"b":[1,-2,1.5,"x"],"a":null}}}"#
    );
}

#[test]
fn exists_hit() {
    let interfaces = vec![("kvs".to_string(), kvs_interface())];
    let mut module = started(&interfaces);
    let mut kvs = Kvs { values: BTreeMap::new() };
    serve(
        &mut module,
        &mut kvs,
        TOPIC,
        r#"{"type":"call","name":"store","data":{"id":"a1","origin":"peer","args":{"key":"k","value":42}}}"#,
    );
    let out = serve(
        &mut module,
        &mut kvs,
        TOPIC,
        r#"{"type":"call","name":"exists","data":{"id":"a3","origin":"p","args":{"key":"k"}}}"#,
    );
    assert_eq!(
        out,
        vec![(
            TOPIC.to_string(),
            r#"{"type":"result","name":"exists","data":{"id":"a3","origin":"RustKvs","retval":true}}"#
                .to_string()
        )]
    );
}

#[test]
fn missing_argument_stops_the_module() {
    let interfaces = vec![("kvs".to_string(), kvs_interface())];
    let mut module = started(&interfaces);
    let event = Event::Message {
        topic: TOPIC.to_string(),
        payload: br#"{"type":"call","name":"store","data":{"id":"a4","origin":"p","args":{}}}"#.to_vec(),
    };
    let actions = module.step(&event);
    assert_eq!(actions.len(), 1);
    match &actions[0] {
        Action::Stop(Error::MissingArgument(name)) => assert_eq!(name, "key"),
        other => panic!("unexpected {other:?}"),
    }
    assert!(module.has_failed());
    assert!(module.step(&event).is_empty());
}

#[test]
fn unknown_command_is_ignored() {
    let interfaces = vec![("kvs".to_string(), kvs_interface())];
    let mut module = started(&interfaces);
    let mut kvs = Kvs { values: BTreeMap::new() };
    let out = serve(
        &mut module,
        &mut kvs,
        TOPIC,
        r#"{"type":"call","name":"nope","data":{"id":"a5","origin":"p","args":{}}}"#,
    );
    assert!(out.is_empty());
    assert!(module.is_serving());
}

#[test]
fn malformed_envelope_is_ignored() {
    let interfaces = vec![("kvs".to_string(), kvs_interface())];
    let mut module = started(&interfaces);
    let mut kvs = Kvs { values: BTreeMap::new() };
    assert!(serve(&mut module, &mut kvs, TOPIC, "{not json").is_empty());
    assert!(serve(&mut module, &mut kvs, TOPIC, r#"{"type":"shout","name":"x","data":{}}"#).is_empty());
    assert!(module.is_serving());
}

#[test]
fn inbound_result_is_ignored() {
    let interfaces = vec![("kvs".to_string(), kvs_interface())];
    let mut module = started(&interfaces);
    let mut kvs = Kvs { values: BTreeMap::new() };
    let out = serve(
        &mut module,
        &mut kvs,
        TOPIC,
        r#"{"type":"result","name":"store","data":{"id":"a1","origin":"RustKvs","retval":null}}"#,
    );
    assert!(out.is_empty());
    assert!(module.is_serving());
}

#[test]
fn message_on_another_topic_is_ignored() {
    let interfaces = vec![("kvs".to_string(), kvs_interface())];
    let mut module = started(&interfaces);
    let mut kvs = Kvs { values: BTreeMap::new() };
    let out = serve(
        &mut module,
        &mut kvs,
        "everest/RustKvs/other/cmd",
        r#"{"type":"call","name":"store","data":{"id":"a1","origin":"peer","args":{"key":"k","value":42}}}"#,
    );
    assert!(out.is_empty());
    assert!(kvs.values.is_empty());
}

#[test]
fn invalid_argument_names_the_argument() {
    let interface = kvs_interface();
    let r = handle_mqtt_message(
        &interface,
        br#"{"type":"call","name":"exists","data":{"id":"a","origin":"p","args":{"key":7}}}"#,
    );
    match r {
        Err(Error::InvalidArgument(name)) => assert_eq!(name, "key"),
        other => panic!("unexpected {other:?}"),
    }
}

#[test]
fn unknown_arguments_are_ignored_and_order_is_irrelevant() {
    let interface = kvs_interface();
    let r = handle_mqtt_message(
        &interface,
        br#"{"type":"call","name":"store","data":{"id":"a","origin":"p","args":{"extra":1,"value":"v","key":"k"}}}"#,
    );
    let invocation = r.unwrap().unwrap();
    assert_eq!(invocation.name, "store");
    assert_eq!(invocation.id, "a");
    assert_eq!(invocation.args.len(), 2);
    assert_eq!(text_of(&invocation.args[0]), "k");
    assert_eq!(text_of(&invocation.args[1]), "v");
}

#[test]
fn unsupported_type_is_reported_at_dispatch() {
    let interface = Interface {
        description: String::new(),
        cmds: vec![(
            "c".to_string(),
            Command {
                description: String::new(),
                arguments: vec![(
                    "n".to_string(),
                    Variable { description: None, arg: Argument::Single(Type::Null) },
                )],
                result: None,
            },
        )],
        vars: vec![],
    };
    let r = handle_mqtt_message(
        &interface,
        br#"{"type":"call","name":"c","data":{"id":"a","origin":"p","args":{"n":null}}}"#,
    );
    match r {
        Err(Error::UnsupportedType(path)) => assert_eq!(path, "c.n"),
        other => panic!("unexpected {other:?}"),
    }
}

#[test]
fn topics_follow_the_commands() {
    assert_eq!(
        generate_topics("RustKvs", "main", &kvs_interface()),
        vec!["everest/RustKvs/main/cmd".to_string()]
    );
    let empty = Interface { description: String::new(), cmds: vec![], vars: vec![] };
    assert!(generate_topics("RustKvs", "main", &empty).is_empty());
}

#[test]
fn startup_subscribes_then_announces() {
    let interfaces = vec![("kvs".to_string(), kvs_interface())];
    let manifest = kvs_manifest();
    let metadata = r#"{"module":"RustKvs","provides":{"main":{"interface":"kvs"}}}"#;
    let (mut module, actions) = Module::init("RustKvs", &manifest, &interfaces).unwrap();
    assert_eq!(module.module_name(), "RustKvs");
    assert_eq!(actions.len(), 1);
    match &actions[0] {
        Action::Subscribe { topic, qos } => {
            assert_eq!(topic, TOPIC);
            assert_eq!(*qos, QoS::ExactlyOnce);
        }
        other => panic!("unexpected {other:?}"),
    }
    assert!(module.step(&Event::Other).is_empty());
    let first = module.step(&Event::Done);
    match first.as_slice() {
        [Action::Publish(p)] => {
            assert_eq!(p.kind, PublicationKind::Metadata);
            assert_eq!(p.topic, "everest/RustKvs/metadata");
            assert_eq!(p.payload, metadata);
            assert_eq!(p.qos, QoS::ExactlyOnce);
            assert!(!p.retain);
        }
        other => panic!("unexpected {other:?}"),
    }
    let second = module.step(&Event::Done);
    match second.as_slice() {
        [Action::Publish(p)] => {
            assert_eq!(p.kind, PublicationKind::Ready);
            assert_eq!(p.topic, "everest/RustKvs/ready");
            assert_eq!(p.payload, "true");
        }
        other => panic!("unexpected {other:?}"),
    }
    assert!(!module.is_serving());
    assert!(module.step(&Event::Done).is_empty());
    assert!(module.is_serving());
}

#[test]
fn a_failed_metadata_publish_withholds_ready() {
    let interfaces = vec![("kvs".to_string(), kvs_interface())];
    let (mut module, _) = Module::init("RustKvs", &kvs_manifest(), &interfaces).unwrap();
    assert!(matches!(module.step(&Event::Done).as_slice(), [Action::Publish(_)]));
    let actions = module.step(&Event::Failed(Error::MqttClient));
    assert!(matches!(actions.as_slice(), [Action::Stop(Error::MqttClient)]));
    assert!(module.step(&Event::Done).is_empty());
    assert!(module.step(&Event::Done).is_empty());
    assert!(module.has_failed());
}

#[test]
fn a_failed_subscription_withholds_the_announcement() {
    let interfaces = vec![("kvs".to_string(), kvs_interface())];
    let (mut module, first) = Module::init("RustKvs", &kvs_manifest(), &interfaces).unwrap();
    assert!(matches!(first.as_slice(), [Action::Subscribe { .. }]));
    let events = vec![Event::Failed(Error::MqttClient), Event::Done, Event::Done, Event::Done];
    let actions = module.loop_forever(&events);
    assert!(matches!(actions.as_slice(), [Action::Stop(Error::MqttClient)]));
}

#[test]
fn subscriptions_come_one_by_one() {
    let manifest = Manifest {
        description: String::new(),
        provides: vec![
            (
                "a".to_string(),
                ProvidesEntry { interface: "kvs".to_string(), description: String::new() },
            ),
            (
                "b".to_string(),
                ProvidesEntry { interface: "kvs".to_string(), description: String::new() },
            ),
        ],
        metadata: Metadata { license: String::new(), authors: vec![] },
    };
    let interfaces = vec![("kvs".to_string(), kvs_interface())];
    let (mut module, first) = Module::init("M", &manifest, &interfaces).unwrap();
    assert!(matches!(first.as_slice(), [Action::Subscribe { topic, .. }] if topic == "everest/M/a/cmd"));
    let second = module.step(&Event::Done);
    assert!(matches!(second.as_slice(), [Action::Subscribe { topic, .. }] if topic == "everest/M/b/cmd"));
    let third = module.step(&Event::Done);
    match third.as_slice() {
        [Action::Publish(p)] => {
            assert_eq!(p.kind, PublicationKind::Metadata);
            assert_eq!(
                p.payload,
                r#"{"module":"M","provides":{"a":{"interface":"kvs"},"b":{"interface":"kvs"}}}"#
            );
        }
        other => panic!("unexpected {other:?}"),
    }
}

#[test]
fn loop_forever_keeps_the_order_of_publications() {
    let interfaces = vec![("kvs".to_string(), kvs_interface())];
    let manifest = kvs_manifest();
    let (mut module, _) = Module::init("RustKvs", &manifest, &interfaces).unwrap();
    let events = vec![
        Event::Message { topic: TOPIC.to_string(), payload: b"{}".to_vec() },
        Event::Returned(Json::Null),
        Event::Done,
        Event::Other,
        Event::Done,
        Event::Done,
        Event::Message {
            topic: TOPIC.to_string(),
            payload: br#"{"type":"call","name":"exists","data":{"id":"1","origin":"p","args":{"key":"k"}}}"#
                .to_vec(),
        },
        Event::Returned(Json::Bool(false)),
        Event::Done,
        Event::Failed(Error::MqttConnection),
        Event::Done,
    ];
    let actions = module.loop_forever(&events);
    let kinds: Vec<String> = actions
        .iter()
        .map(|a| match a {
            Action::Subscribe { .. } => "subscribe".to_string(),
            Action::Publish(p) => format!("{:?}", p.kind),
            Action::Invoke { .. } => "invoke".to_string(),
            Action::Stop(e) => format!("{e:?}"),
        })
        .collect();
    assert_eq!(kinds, vec!["Metadata", "Ready", "invoke", "Result", "MqttConnection"]);
    assert!(module.has_failed());
}

#[test]
fn init_reports_a_missing_interface() {
    let interfaces: Vec<(String, Interface)> = vec![];
    match Module::init("RustKvs", &kvs_manifest(), &interfaces) {
        Err(Error::InterfaceNotFound(name)) => assert_eq!(name, "kvs"),
        other => panic!("unexpected {:?}", other.map(|_| ())),
    }
}

#[test]
fn what_is_not_well_formed_is_a_violation() {
    let mut unsorted = kvs_interface();
    unsorted.cmds.swap(0, 1);
    let interfaces = vec![("kvs".to_string(), unsorted)];
    assert!(matches!(
        Module::init("RustKvs", &kvs_manifest(), &interfaces),
        Err(Error::SchemaViolation(_))
    ));
    match handle_mqtt_message(
        &interfaces[0].1,
        br#"{"type":"call","name":"exists","data":{"id":"1","origin":"p","args":{"key":"k"}}}"#,
    ) {
        Err(Error::SchemaViolation(detail)) => assert_eq!(detail, "the interface is not well formed"),
        other => panic!("unexpected {other:?}"),
    }
    assert!(matches!(handle_mqtt_message(&interfaces[0].1, b"{not json"), Ok(None)));
    let mut twice = kvs_manifest();
    twice.provides.push(twice_entry());
    let interfaces = vec![("kvs".to_string(), kvs_interface())];
    match Module::init("RustKvs", &twice, &interfaces) {
        Err(Error::SchemaViolation(detail)) => assert_eq!(detail, "the manifest is not well formed"),
        other => panic!("unexpected {:?}", other.map(|_| ())),
    }
    let mut arguments = kvs_interface();
    arguments.cmds[3].1.arguments.swap(0, 1);
    assert!(!arguments.is_well_formed());
    assert!(kvs_interface().is_well_formed());
    assert!(kvs_manifest().is_well_formed());
    assert!(!twice.is_well_formed());
}

fn twice_entry() -> (String, ProvidesEntry) {
    ("main".to_string(), ProvidesEntry { interface: "kvs".to_string(), description: String::new() })
}

#[test]
fn failures_stop_the_module_with_their_error() {
    let interfaces = vec![("kvs".to_string(), kvs_interface())];
    let mut module = started(&interfaces);
    let actions = module.step(&Event::Failed(Error::MqttClient));
    assert!(matches!(actions.as_slice(), [Action::Stop(Error::MqttClient)]));
    assert!(module.has_failed());

    let mut module = started(&interfaces);
    let event = Event::Message {
        topic: TOPIC.to_string(),
        payload: br#"{"type":"call","name":"exists","data":{"id":"1","origin":"p","args":{"key":"k"}}}"#
            .to_vec(),
    };
    assert!(matches!(module.step(&event).as_slice(), [Action::Invoke { .. }]));
    assert!(!module.is_serving());
    assert!(module.step(&event).is_empty());
    let actions = module.step(&Event::Failed(Error::Service("out of space".to_string())));
    match actions.as_slice() {
        [Action::Stop(Error::Service(message))] => assert_eq!(message, "out of space"),
        other => panic!("unexpected {other:?}"),
    }
    assert!(module.has_failed());
    assert!(module.step(&Event::Returned(Json::Null)).is_empty());
}

#[test]
fn publisher_prefixes_the_topic() {
    let publisher = everest::module::Publisher { module: "m1".to_string() };
    let p = publisher.publish(PublicationKind::Ready, "ready", "true".to_string());
    assert_eq!(p.topic, "everest/m1/ready");
    assert_eq!(p.payload, "true");
    assert_eq!(p.qos, QoS::ExactlyOnce);
    assert!(!p.retain);
    assert_eq!(p.kind, PublicationKind::Ready);
}

#[test]
fn init_reports_an_unsupported_type() {
    let interface = Interface {
        description: String::new(),
        cmds: vec![(
            "c".to_string(),
            Command {
                description: String::new(),
                arguments: vec![],
                result: Some(Variable { description: None, arg: Argument::Single(Type::Null) }),
            },
        )],
        vars: vec![],
    };
    let interfaces = vec![("kvs".to_string(), interface)];
    match Module::init("RustKvs", &kvs_manifest(), &interfaces) {
        Err(Error::UnsupportedType(path)) => assert_eq!(path, "c result"),
        other => panic!("unexpected {:?}", other.map(|_| ())),
    }
}

#[test]
fn a_module_without_commands_subscribes_to_nothing() {
    let interfaces = vec![(
        "kvs".to_string(),
        Interface { description: String::new(), cmds: vec![], vars: vec![] },
    )];
    let (mut module, actions) = Module::init("m", &kvs_manifest(), &interfaces).unwrap();
    assert!(matches!(actions.as_slice(), [Action::Publish(p)] if p.kind == PublicationKind::Metadata));
    assert!(matches!(module.step(&Event::Done).as_slice(), [Action::Publish(p)] if p.kind == PublicationKind::Ready));
    assert!(module.step(&Event::Done).is_empty());
    let event = Event::Message { topic: "everest/m/main/cmd".to_string(), payload: b"{}".to_vec() };
    assert!(module.step(&event).is_empty());
    assert!(module.is_serving());
}
