use everest::builder::Builder;
use everest::builder::join_path;
use everest::codegen::{
    capitalize, check_interface, concat_words, emit, type_for_argument, Representation,
};
use everest::error::{BuildError, Error};
use everest::schema::interface::{Argument, Interface, Type};
use everest::schema::manifest::Manifest;
use everest::session::initialize_mqtt;
use everest::text::{concatenate, join, quote, str_eq, str_lt};

const KVS: &str = "description: A store\ncmds:\n  store:\n    description: Stores a value\n    arguments:\n      value:\n        type: [string, number]\n      key:\n        description: The key\n        type: string\n  exists:\n    description: Checks a key\n    arguments:\n      key:\n        type: string\n    result:\n      description: Whether it exists\n      type: boolean\n";

const MANIFEST: &str = "description: d\nprovides:\n  main:\n    interface: kvs\n    description: The \"main\" store\nmetadata:\n  license: l\n  authors: [a]\n";

fn kvs() -> Vec<(String, Interface)> {
    vec![("kvs".to_string(), Interface::parse(KVS).unwrap())]
}

#[test]
fn names_are_title_cased_and_joined() {
    assert_eq!(concat_words(&vec!["rust_kvs", "service"]), "RustKvsService");
    assert_eq!(concat_words(&vec!["kvs", "service"]), "KvsService");
    assert_eq!(concat_words(&vec!["main", "service", "impl"]), "MainServiceImpl");
    assert_eq!(concat_words(&vec![]), "");
    assert_eq!(capitalize("_a__b_"), "AB");
    assert_eq!(capitalize("((a_b"), "((aB");
    assert_eq!(capitalize(""), "");
}

#[test]
fn types_are_mapped() {
    assert_eq!(type_for_argument(&Argument::Single(Type::Boolean)), Some(Representation::Boolean));
    let interface = Interface::parse(KVS).unwrap();
    let store = &interface.cmds[1].1;
    assert_eq!(type_for_argument(&store.arguments[0].1.arg), Some(Representation::Text));
    assert_eq!(type_for_argument(&store.arguments[1].1.arg), Some(Representation::Opaque));
    assert_eq!(type_for_argument(&Argument::Single(Type::Null)), None);
}

#[test]
fn literals_are_escaped() {
    assert_eq!(quote("a\"b\\c\nd\te\rf"), "\"a\\\"b\\\\c\\nd\\te\\rf\"");
    assert_eq!(quote(""), "\"\"");
}

#[test]
fn strings_are_joined_and_ordered() {
    let items = vec!["a".to_string(), "b".to_string(), "c".to_string()];
    assert_eq!(join(&items, ", "), "a, b, c");
    assert_eq!(join(&vec![], ", "), "");
    assert_eq!(concatenate(&items), "abc");
    assert!(str_lt("a", "b"));
    assert!(str_lt("a", "ab"));
    assert!(!str_lt("ab", "a"));
    assert!(!str_lt("a", "a"));
    assert!(str_lt("", "a"));
    assert!(str_lt("Z", "a"));
    assert!(str_eq("same", "same"));
    assert!(!str_eq("same", "some"));
}

#[test]
fn metadata_constant_holds_the_blob() {
    let manifest = Manifest::parse(MANIFEST).unwrap();
    let text = emit("RustKvs", &manifest, &kvs()).unwrap();
    assert!(text.starts_with(
        "const METADATA: &str = \"{\\\"module\\\":\\\"RustKvs\\\",\\\"provides\\\":{\\\"main\\\":{\\\"interface\\\":\\\"kvs\\\"}}}\";\n\n"
    ));
}

#[test]
fn command_becomes_a_method() {
    let manifest = Manifest::parse(MANIFEST).unwrap();
    let text = emit("RustKvs", &manifest, &kvs()).unwrap();
    assert!(text.contains(
        "    #[doc = \"Stores a value\\n\\n`key`: The key\\n`value`: not documented\"]\n    async fn store(&mut self, key: String, value: ::serde_json::Value) -> ::everest::Result<()>;\n"
    ));
    assert!(text.contains(
        "    #[doc = \"Checks a key\\n\\n`key`: not documented\\n\\nReturns: Whether it exists\"]\n    async fn exists(&mut self, key: String) -> ::everest::Result<bool>;\n"
    ));
}

#[test]
fn trait_holds_the_methods_in_order() {
    let manifest = Manifest::parse(MANIFEST).unwrap();
    let text = emit("RustKvs", &manifest, &kvs()).unwrap();
    assert!(text.contains(
        "#[doc = \"The \\\"main\\\" store\"]\n#[async_trait::async_trait]\npub trait KvsService {\n"
    ));
    assert!(text.find("async fn exists").unwrap() < text.find("async fn store").unwrap());
}

#[test]
fn generics_follow_the_slots() {
    let manifest = Manifest::parse(
        "description: d\nprovides:\n  second_slot:\n    interface: other\n    description: x\n  first:\n    interface: kvs\n    description: y\nmetadata:\n  license: l\n  authors: []\n",
    )
    .unwrap();
    let interfaces = vec![
        ("kvs".to_string(), Interface::parse(KVS).unwrap()),
        ("other".to_string(), Interface::parse("description: o\n").unwrap()),
    ];
    let text = emit("M", &manifest, &interfaces).unwrap();
    assert!(text.contains(
        "pub struct Module<FirstServiceImpl: KvsService, SecondSlotServiceImpl: OtherService> {\n"
    ));
    assert!(text.contains("    first_service: FirstServiceImpl,\n    first_service_topics: ::std::collections::HashSet<String>,\n    second_slot_service: SecondSlotServiceImpl,\n"));
    assert!(text.contains("pub async fn init(first_service: FirstServiceImpl, second_slot_service: SecondSlotServiceImpl) -> ::everest::Result<Self> {\n        let (client, event_loop, module_name) = ::everest::initialize_mqtt(\"M\");\n"));
    assert!(text.contains("if self.second_slot_service_topics.contains(&data.topic as &str) {\n                        second_slot_service::handle_mqtt_message(self, &data.payload).await?;\n"));
    let metadata = text.find("m.publish(\"metadata\", METADATA).await?;").unwrap();
    let ready = text.find("m.publish(\"ready\", \"true\").await?;").unwrap();
    assert!(metadata < ready);
}

#[test]
fn emit_puts_the_sections_in_order() {
    let manifest = Manifest::parse(MANIFEST).unwrap();
    let text = emit("RustKvs", &manifest, &kvs()).unwrap();
    let metadata = text.find("const METADATA: &str = ").unwrap();
    let service = text.find("pub trait KvsService {").unwrap();
    let glue = text.find("mod main_service {").unwrap();
    let module = text.find("pub struct Module<MainServiceImpl: KvsService> {").unwrap();
    assert_eq!(metadata, 0);
    assert!(metadata < service && service < glue && glue < module);
    assert!(text.contains("rv.insert(format!(\"everest/{module_name}/{}/cmd\", \"main\"));"));
    assert!(text.contains("            \"store\" => {\n                let key: String = ::serde_json::from_value(\n                    data.args\n                        .remove(\"key\")\n                        .ok_or(::everest::Error::MissingArgument(\"key\"))?,\n                )\n                .map_err(|_| ::everest::Error::InvalidArgument(\"key\"))?;\n                let value: ::serde_json::Value = ::serde_json::from_value("));
    assert!(text.contains("let retval = module.main_service.store(key, value).await?;"));
    assert!(text.contains("&format!(\"{}/cmd\", \"main\"),"));
    assert!(text.find("\"exists\" => {").unwrap() < text.find("\"store\" => {").unwrap());
}

#[test]
fn emit_is_deterministic() {
    let manifest = Manifest::parse(MANIFEST).unwrap();
    let first = emit("RustKvs", &manifest, &kvs()).unwrap();
    let second = emit("RustKvs", &Manifest::parse(MANIFEST).unwrap(), &kvs()).unwrap();
    assert_eq!(first, second);
}

#[test]
fn emit_does_not_depend_on_the_order_of_the_source() {
    let one = "description: d\nprovides:\n  a:\n    interface: x\n    description: one\n  b:\n    interface: y\n    description: two\nmetadata:\n  license: l\n  authors: []\n";
    let other = "description: d\nprovides:\n  b:\n    description: two\n    interface: y\n  a:\n    description: one\n    interface: x\nmetadata:\n  authors: []\n  license: l\n";
    let x = "description: x\ncmds:\n  q:\n    description: q\n    arguments:\n      n:\n        type: boolean\n      m:\n        type: string\n  p:\n    description: p\n";
    let x_other = "cmds:\n  p:\n    description: p\n  q:\n    arguments:\n      m:\n        type: string\n      n:\n        type: boolean\n    description: q\ndescription: x\n";
    let y = "description: y\n";
    let first = emit(
        "M",
        &Manifest::parse(one).unwrap(),
        &vec![
            ("x".to_string(), Interface::parse(x).unwrap()),
            ("y".to_string(), Interface::parse(y).unwrap()),
        ],
    )
    .unwrap();
    let second = emit(
        "M",
        &Manifest::parse(other).unwrap(),
        &vec![
            ("y".to_string(), Interface::parse(y).unwrap()),
            ("x".to_string(), Interface::parse(x_other).unwrap()),
        ],
    )
    .unwrap();
    assert_eq!(first, second);
    assert!(first.find("mod a_service {").unwrap() < first.find("mod b_service {").unwrap());
    assert!(first.contains("async fn q(&mut self, m: String, n: bool) -> ::everest::Result<()>;"));
    let b = &first[first.find("mod b_service {").unwrap()..];
    assert!(!b[..b.find("pub async fn handle_mqtt_message").unwrap()].contains("rv.insert"));
}

fn parts(e: BuildError) -> (Option<String>, Option<String>, Error) {
    (e.file, e.slot, e.error)
}

#[test]
fn emit_reports_a_missing_interface() {
    let manifest = Manifest::parse(MANIFEST).unwrap();
    match parts(emit("RustKvs", &manifest, &vec![]).unwrap_err()) {
        (None, Some(slot), Error::InterfaceNotFound(name)) => {
            assert_eq!(slot, "main");
            assert_eq!(name, "kvs");
        }
        other => panic!("unexpected {other:?}"),
    }
}

#[test]
fn emit_reports_an_unsupported_type() {
    let manifest = Manifest::parse(MANIFEST).unwrap();
    let interface = Interface::parse(
        "description: d\ncmds:\n  a:\n    description: fine\n    arguments:\n      x:\n        type: boolean\n  b:\n    description: bad\n    arguments:\n      n:\n        type: number\n      m:\n        type: integer\n",
    )
    .unwrap();
    match check_interface(&interface) {
        Err(Error::UnsupportedType(path)) => assert_eq!(path, "b.m"),
        other => panic!("unexpected {other:?}"),
    }
    let e = emit("RustKvs", &manifest, &vec![("kvs".to_string(), interface)]).unwrap_err();
    assert_eq!(e.message(), "for slot 'main': unsupported type: 'b.m'");
    match parts(e) {
        (None, Some(slot), Error::UnsupportedType(path)) => {
            assert_eq!(slot, "main");
            assert_eq!(path, "b.m");
        }
        other => panic!("unexpected {other:?}"),
    }
    let interface = Interface::parse(
        "description: d\ncmds:\n  c:\n    description: bad\n    result:\n      type: array\n",
    )
    .unwrap();
    match parts(emit("RustKvs", &manifest, &vec![("kvs".to_string(), interface)]).unwrap_err()) {
        (None, Some(_), Error::UnsupportedType(path)) => assert_eq!(path, "c result"),
        other => panic!("unexpected {other:?}"),
    }
}

#[test]
fn emit_refuses_what_is_not_well_formed() {
    let mut manifest = Manifest::parse(
        "description: d\nprovides:\n  a:\n    interface: kvs\n    description: x\n  b:\n    interface: kvs\n    description: y\nmetadata:\n  license: l\n  authors: []\n",
    )
    .unwrap();
    manifest.provides.swap(0, 1);
    match parts(emit("M", &manifest, &kvs()).unwrap_err()) {
        (None, None, Error::SchemaViolation(detail)) => {
            assert_eq!(detail, "the manifest is not well formed")
        }
        other => panic!("unexpected {other:?}"),
    }
    let manifest = Manifest::parse(MANIFEST).unwrap();
    let mut interface = Interface::parse(KVS).unwrap();
    interface.cmds.swap(0, 1);
    match parts(emit("M", &manifest, &vec![("kvs".to_string(), interface)]).unwrap_err()) {
        (None, Some(slot), Error::SchemaViolation(detail)) => {
            assert_eq!(slot, "main");
            assert_eq!(detail, "the interface is not well formed");
        }
        other => panic!("unexpected {other:?}"),
    }
}

#[test]
fn paths_are_joined_as_paths_are() {
    assert_eq!(join_path("", "generated.rs"), "generated.rs");
    assert_eq!(join_path("out", "generated.rs"), "out/generated.rs");
    assert_eq!(join_path("out/", "generated.rs"), "out/generated.rs");
    assert_eq!(join_path("/", "generated.rs"), "/generated.rs");
}

#[test]
fn builder_says_where_things_lie() {
    let builder = Builder::new("RustKvs", "manifest.yaml", "/core");
    assert_eq!(builder.module_name(), "RustKvs");
    assert_eq!(builder.manifest_path(), "manifest.yaml");
    assert_eq!(builder.interface_path("kvs"), "/core/interfaces/kvs.yaml");
    assert_eq!(builder.output_path(Some("/out")).unwrap(), "/out/generated.rs");
    assert!(builder.output_path(None).is_none());
    let builder = builder.out_dir("/elsewhere");
    assert_eq!(builder.output_path(Some("/out")).unwrap(), "/elsewhere/generated.rs");
    assert_eq!(builder.output_path(None).unwrap(), "/elsewhere/generated.rs");
    assert_eq!(builder.module_name(), "RustKvs");
    let relative = Builder::new("M", "manifest.yaml", "").out_dir("");
    assert_eq!(relative.interface_path("kvs"), "interfaces/kvs.yaml");
    assert_eq!(relative.output_path(None).unwrap(), "generated.rs");
}

#[test]
fn builder_generates_what_emit_emits() {
    let builder = Builder::new("RustKvs", "manifest.yaml", "/core").out_dir("/out");
    let texts = vec![("kvs".to_string(), KVS.to_string())];
    let text = builder.generate(MANIFEST, &texts).unwrap();
    assert_eq!(text, emit("RustKvs", &Manifest::parse(MANIFEST).unwrap(), &kvs()).unwrap());
}

#[test]
fn builder_reports_what_does_not_load() {
    let builder = Builder::new("RustKvs", "module/manifest.yaml", "/core");
    let e = builder.generate(MANIFEST, &vec![]).unwrap_err();
    assert_eq!(
        e.message(),
        "while reading '/core/interfaces/kvs.yaml': for slot 'main': interface not found: 'kvs'"
    );
    match parts(e) {
        (Some(file), Some(slot), Error::InterfaceNotFound(name)) => {
            assert_eq!(file, "/core/interfaces/kvs.yaml");
            assert_eq!(slot, "main");
            assert_eq!(name, "kvs");
        }
        other => panic!("unexpected {other:?}"),
    }
    match parts(
        builder.generate(MANIFEST, &vec![("kvs".to_string(), "cmds: 3\n".to_string())]).unwrap_err(),
    ) {
        (Some(file), Some(slot), Error::SchemaViolation(_)) => {
            assert_eq!(file, "/core/interfaces/kvs.yaml");
            assert_eq!(slot, "main");
        }
        other => panic!("unexpected {other:?}"),
    }
    match parts(builder.generate("description: d\n", &vec![]).unwrap_err()) {
        (Some(file), None, Error::SchemaViolation(_)) => assert_eq!(file, "module/manifest.yaml"),
        other => panic!("unexpected {other:?}"),
    }
    let bad = "description: d\ncmds:\n  c:\n    description: c\n    arguments:\n      o:\n        type: object\n";
    match parts(builder.generate(MANIFEST, &vec![("kvs".to_string(), bad.to_string())]).unwrap_err()) {
        (Some(_), Some(_), Error::UnsupportedType(path)) => assert_eq!(path, "c.o"),
        other => panic!("unexpected {other:?}"),
    }
}

#[test]
fn session_settings_are_fixed() {
    let session = initialize_mqtt("RustKvs", "kvs_1");
    assert_eq!(session.client_id, "RustKvs/kvs_1");
    assert_eq!(session.host, "127.0.0.1");
    assert_eq!(session.port, 1883);
    assert_eq!(session.keep_alive_secs, 60);
    assert_eq!(session.capacity, 10);
    assert_eq!(session.module_name, "RustKvs");
}
