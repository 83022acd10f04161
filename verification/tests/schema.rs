use everest::error::Error;
use everest::number::Numeral;
use everest::schema::interface::{Argument, Interface, StringFormat, Type, Variable};
use everest::schema::load::{validate, DocumentKind};
use everest::schema::manifest::{Manifest, YamlData};
use everest::schema::DataTypes;
use everest::yaml::Yaml;

const KVS: &str = r#"
description: This interface defines a simple key-value-store interface
cmds:
  store:
    description: This command stores a value under a given key
    arguments:
      value:
        description: Value to store
        type:
          - "null"
          - string
          - number
          - integer
          - boolean
          - array
          - object
      key:
        description: Key to store the value for
        type: string
        pattern: ^[A-Za-z0-9_.]*$
  load:
    description: This command loads the previously stored value for a given key
    arguments:
      key:
        description: Key to load the value for
        type: string
        pattern: ^[A-Za-z0-9_.]*$
    result:
      description: The previously stored value
      type:
        - "null"
        - string
        - number
        - integer
        - boolean
        - array
        - object
  delete:
    description: This command removes the value stored under a given key
    arguments:
      key:
        description: Key to delete the value for
        type: string
        pattern: ^[A-Za-z0-9_.]*$
  exists:
    description: This command checks if something is stored under a given key
    arguments:
      key:
        description: Key to check the existence for
        type: string
        pattern: ^[A-Za-z0-9_.]*$
    result:
      description: Returns 'True' if something was stored for this key
      type: boolean
"#;

const MANIFEST: &str = r#"
description: Simple key-value store
provides:
  main:
    interface: kvs
    description: This implements a key-value store
metadata:
  license: https://opensource.org/licenses/Apache-2.0
  authors:
    - Holger Rapp
    - Someone Else
"#;

fn detail(r: Result<Variable, Error>) -> String {
    match r {
        Err(Error::SchemaViolation(detail)) => detail,
        other => panic!("unexpected {other:?}"),
    }
}

fn variable(text: &str) -> Result<Variable, Error> {
    Variable::deserialize(&Yaml::parse(text).unwrap())
}

#[test]
fn interface_is_read_and_sorted_by_name() {
    let interface = Interface::parse(KVS).unwrap();
    assert_eq!(interface.description, "This interface defines a simple key-value-store interface");
    let names: Vec<&str> = interface.cmds.iter().map(|c| c.0.as_str()).collect();
    assert_eq!(names, vec!["delete", "exists", "load", "store"]);
    assert!(interface.vars.is_empty());
    let store = &interface.cmds[3].1;
    let arguments: Vec<&str> = store.arguments.iter().map(|a| a.0.as_str()).collect();
    assert_eq!(arguments, vec!["key", "value"]);
    assert!(store.result.is_none());
    match &store.arguments[0].1.arg {
        Argument::Single(Type::String(options)) => {
            assert_eq!(options.pattern.as_deref(), Some("^[A-Za-z0-9_.]*$"));
            assert!(options.format.is_none());
        }
        other => panic!("unexpected {other:?}"),
    }
    match &store.arguments[1].1.arg {
        Argument::Multiple(types) => {
            assert_eq!(types.len(), 7);
            assert!(matches!(types[0], Type::Null));
            assert!(matches!(types[4], Type::Boolean));
            assert!(matches!(types[6], Type::Object(_)));
        }
        other => panic!("unexpected {other:?}"),
    }
    let exists = &interface.cmds[1].1;
    assert!(matches!(exists.result.as_ref().unwrap().arg, Argument::Single(Type::Boolean)));
}

#[test]
fn manifest_is_read() {
    let manifest = Manifest::parse(MANIFEST).unwrap();
    assert_eq!(manifest.description, "Simple key-value store");
    assert_eq!(manifest.provides.len(), 1);
    assert_eq!(manifest.provides[0].0, "main");
    assert_eq!(manifest.provides[0].1.interface, "kvs");
    assert_eq!(manifest.provides[0].1.description, "This implements a key-value store");
    assert_eq!(manifest.metadata.license, "https://opensource.org/licenses/Apache-2.0");
    assert_eq!(manifest.metadata.authors, vec!["Holger Rapp", "Someone Else"]);
}

#[test]
fn slots_come_out_in_the_order_of_their_names() {
    let text = "description: d\nprovides:\n  b:\n    interface: y\n    description: two\n  a:\n    interface: x\n    description: one\nmetadata:\n  license: l\n  authors: []\n";
    let manifest = Manifest::parse(text).unwrap();
    let names: Vec<&str> = manifest.provides.iter().map(|p| p.0.as_str()).collect();
    assert_eq!(names, vec!["a", "b"]);
    assert_eq!(manifest.provides[0].1.interface, "x");
}

#[test]
fn unknown_fields_are_violations() {
    assert!(matches!(
        Manifest::parse("description: d\nprovides: {}\nmetadata:\n  license: l\n  authors: []\nextra: 1\n"),
        Err(Error::SchemaViolation(_))
    ));
    assert!(matches!(
        Interface::parse("description: d\ncommands: {}\n"),
        Err(Error::SchemaViolation(_))
    ));
    assert!(matches!(variable("type: string\nminimum: 1\n"), Err(Error::SchemaViolation(_))));
    assert!(matches!(variable("type: boolean\npattern: x\n"), Err(Error::SchemaViolation(_))));
    assert!(matches!(
        Interface::parse("description: d\ncmds:\n  c:\n    description: x\n    other: 1\n"),
        Err(Error::SchemaViolation(_))
    ));
}

#[test]
fn missing_fields_are_violations() {
    assert!(matches!(Manifest::parse("description: d\nprovides: {}\n"), Err(Error::SchemaViolation(_))));
    assert!(matches!(Interface::parse("cmds: {}\n"), Err(Error::SchemaViolation(_))));
    assert!(matches!(
        Manifest::parse("description: d\nprovides:\n  main:\n    interface: kvs\nmetadata:\n  license: l\n  authors: []\n"),
        Err(Error::SchemaViolation(_))
    ));
}

#[test]
fn text_that_is_no_yaml_is_a_violation() {
    assert!(matches!(Manifest::parse("a: [1, 2"), Err(Error::SchemaViolation(_))));
    assert!(matches!(Interface::parse("a: 1\na: 2\n"), Err(Error::SchemaViolation(_))));
}

#[test]
fn empty_interface_is_valid() {
    let interface = Interface::parse("description: nothing\n").unwrap();
    assert!(interface.cmds.is_empty());
    assert!(interface.vars.is_empty());
}

#[test]
fn empty_names_are_violations() {
    assert!(matches!(
        Interface::parse("description: d\ncmds:\n  \"\":\n    description: x\n"),
        Err(Error::SchemaViolation(_))
    ));
    assert!(matches!(
        Manifest::parse("description: d\nprovides:\n  \"\":\n    interface: kvs\n    description: x\nmetadata:\n  license: l\n  authors: []\n"),
        Err(Error::SchemaViolation(_))
    ));
}

#[test]
fn type_as_string_takes_the_other_fields_as_options() {
    let v = variable("description: a text\ntype: string\nminLength: 2\nmaxLength: 10\nformat: date-time\nenum: [a, b]\n$ref: /x\n").unwrap();
    assert_eq!(v.description.as_deref(), Some("a text"));
    match v.arg {
        Argument::Single(Type::String(o)) => {
            assert_eq!(o.min_length, Some(2));
            assert_eq!(o.max_length, Some(10));
            assert_eq!(o.format, Some(StringFormat::DateTime));
            assert_eq!(o.enum_items, Some(vec!["a".to_string(), "b".to_string()]));
            assert_eq!(o.object_reference.as_deref(), Some("/x"));
            assert!(o.pattern.is_none());
        }
        other => panic!("unexpected {other:?}"),
    }
}

#[test]
fn type_as_sequence_gives_bare_types() {
    let v = variable("type: [string, number]\npattern: ignored\n").unwrap();
    assert!(v.description.is_none());
    match v.arg {
        Argument::Multiple(types) => {
            assert_eq!(types.len(), 2);
            match &types[0] {
                Type::String(o) => assert!(o.pattern.is_none()),
                other => panic!("unexpected {other:?}"),
            }
            match &types[1] {
                Type::Number(o) => assert!(o.minimum.is_none() && o.maximum.is_none()),
                other => panic!("unexpected {other:?}"),
            }
        }
        other => panic!("unexpected {other:?}"),
    }
    assert!(matches!(variable("type: [string, what]\n"), Err(Error::SchemaViolation(_))));
    assert!(matches!(variable("type: [string, 3]\n"), Err(Error::SchemaViolation(_))));
}

#[test]
fn type_must_be_string_or_sequence() {
    assert_eq!(detail(variable("type: 3\n")), "type must be string or sequence");
    assert_eq!(detail(variable("type: {a: b}\n")), "type must be string or sequence");
    assert_eq!(detail(variable("description: d\n")), "type must be string or sequence");
    assert!(matches!(variable("type: what\n"), Err(Error::SchemaViolation(_))));
    assert!(matches!(variable("- a\n"), Err(Error::SchemaViolation(_))));
    assert!(matches!(variable("description: 3\ntype: string\n"), Err(Error::SchemaViolation(_))));
}

#[test]
fn numbers_and_nested_variables_are_kept() {
    let v = variable("type: number\nminimum: -3\nmaximum: 2.5\n").unwrap();
    match v.arg {
        Argument::Single(Type::Number(o)) => {
            assert!(matches!(o.minimum, Some(Numeral::NegInt(-3))));
            match o.maximum {
                Some(Numeral::Float(text)) => assert_eq!(text, "2.5"),
                other => panic!("unexpected {other:?}"),
            }
        }
        other => panic!("unexpected {other:?}"),
    }
    let v = variable("type: integer\nminimum: 0\n").unwrap();
    match v.arg {
        Argument::Single(Type::Integer(o)) => {
            assert!(matches!(o.minimum, Some(Numeral::PosInt(0))));
            assert!(o.maximum.is_none());
        }
        other => panic!("unexpected {other:?}"),
    }
    let v = variable("type: array\nminItems: 1\nmaxItems: 4\nitems:\n  type: object\n  required: [b]\n  additionalProperties: true\n  properties:\n    b:\n      type: boolean\n    a:\n      type: \"null\"\n").unwrap();
    match v.arg {
        Argument::Single(Type::Array(o)) => {
            assert_eq!(o.min_items, Some(1));
            assert_eq!(o.max_items, Some(4));
            match o.items.unwrap().arg {
                Argument::Single(Type::Object(inner)) => {
                    assert_eq!(inner.required, vec!["b"]);
                    assert!(inner.additional_properties);
                    let names: Vec<&str> = inner.properties.iter().map(|p| p.0.as_str()).collect();
                    assert_eq!(names, vec!["a", "b"]);
                    assert!(matches!(inner.properties[0].1.arg, Argument::Single(Type::Null)));
                }
                other => panic!("unexpected {other:?}"),
            }
        }
        other => panic!("unexpected {other:?}"),
    }
    assert!(matches!(variable("type: array\nminItems: -1\n"), Err(Error::SchemaViolation(_))));
    assert!(matches!(variable("type: array\nitems: 3\n"), Err(Error::SchemaViolation(_))));
    assert!(matches!(variable("type: string\nformat: time\n"), Err(Error::SchemaViolation(_))));
}

#[test]
fn data_types_and_descriptions_are_read() {
    let types = DataTypes::parse("description: d\ntypes:\n  B:\n    type: string\n  A:\n    type: boolean\n").unwrap();
    assert_eq!(types.description, "d");
    let names: Vec<&str> = types.types.iter().map(|t| t.0.as_str()).collect();
    assert_eq!(names, vec!["A", "B"]);
    assert!(matches!(DataTypes::parse("description: d\n"), Err(Error::SchemaViolation(_))));
    let data = YamlData::from_yaml(&Yaml::parse("description: only\n").unwrap()).unwrap();
    assert_eq!(data.description, "only");
    assert!(matches!(
        YamlData::from_yaml(&Yaml::parse("description: only\nmore: 1\n").unwrap()),
        Err(Error::SchemaViolation(_))
    ));
}

#[test]
fn validate_goes_by_the_kind() {
    assert!(validate(DocumentKind::Manifest, MANIFEST).is_ok());
    assert!(validate(DocumentKind::Interface, KVS).is_ok());
    assert!(validate(DocumentKind::DataTypes, "description: d\ntypes: {}\n").is_ok());
    assert!(matches!(validate(DocumentKind::Interface, MANIFEST), Err(Error::SchemaViolation(_))));
    assert!(matches!(validate(DocumentKind::Manifest, KVS), Err(Error::SchemaViolation(_))));
    assert!(matches!(validate(DocumentKind::DataTypes, KVS), Err(Error::SchemaViolation(_))));
}

#[test]
fn yaml_values_keep_document_order_and_tags() {
    match Yaml::parse("b: 1\na: !thing [x, 2.5, -1, true, null]\n").unwrap() {
        Yaml::Mapping(entries) => {
            assert_eq!(entries.len(), 2);
            assert!(matches!(&entries[0].0, Yaml::String(s) if s == "b"));
            assert!(matches!(entries[0].1, Yaml::Number(Numeral::PosInt(1))));
            match &entries[1].1 {
                Yaml::Tagged(tag, value) => {
                    assert_eq!(tag, "!thing");
                    match value.as_ref() {
                        Yaml::Sequence(items) => {
                            assert_eq!(items.len(), 5);
                            assert!(matches!(items[2], Yaml::Number(Numeral::NegInt(-1))));
                            assert!(matches!(items[3], Yaml::Bool(true)));
                            assert!(matches!(items[4], Yaml::Null));
                        }
                        other => panic!("unexpected {other:?}"),
                    }
                }
                other => panic!("unexpected {other:?}"),
            }
        }
        other => panic!("unexpected {other:?}"),
    }
}

#[test]
fn scalars_are_read_as_strings_outside_of_variables() {
    let interface = Interface::parse(
        "description: 123\ncmds:\n  1:\n    description: true\n    arguments:\n      -7:\n        type: string\n      2.5:\n        type: boolean\n",
    )
    .unwrap();
    assert_eq!(interface.description, "123");
    assert_eq!(interface.cmds[0].0, "1");
    assert_eq!(interface.cmds[0].1.description, "true");
    let arguments: Vec<&str> = interface.cmds[0].1.arguments.iter().map(|a| a.0.as_str()).collect();
    assert_eq!(arguments, vec!["-7", "2.5"]);
    let manifest = Manifest::parse(
        "description: false\nprovides:\n  18446744073709551615:\n    interface: 10\n    description: 0\nmetadata:\n  license: -9223372036854775808\n  authors: [1, b, true]\n",
    )
    .unwrap();
    assert_eq!(manifest.description, "false");
    assert_eq!(manifest.provides[0].0, "18446744073709551615");
    assert_eq!(manifest.provides[0].1.interface, "10");
    assert_eq!(manifest.provides[0].1.description, "0");
    assert_eq!(manifest.metadata.license, "-9223372036854775808");
    assert_eq!(manifest.metadata.authors, vec!["1", "b", "true"]);
    assert!(matches!(Interface::parse("description: ~\n"), Err(Error::SchemaViolation(_))));
    assert!(matches!(Interface::parse("description: [a]\n"), Err(Error::SchemaViolation(_))));
}

#[test]
fn within_a_variable_a_string_must_be_a_string() {
    assert!(matches!(variable("description: 3\ntype: string\n"), Err(Error::SchemaViolation(_))));
    assert!(matches!(variable("type: string\npattern: 3\n"), Err(Error::SchemaViolation(_))));
    assert!(matches!(variable("type: object\nrequired: [1]\n"), Err(Error::SchemaViolation(_))));
    assert!(matches!(
        variable("type: object\nproperties:\n  1:\n    type: string\n"),
        Err(Error::SchemaViolation(_))
    ));
    assert_eq!(Numeral::PosInt(0).to_text(), "0");
    assert_eq!(Numeral::PosInt(1905).to_text(), "1905");
    assert_eq!(Numeral::NegInt(-40).to_text(), "-40");
    assert_eq!(Numeral::Float("1.5".to_string()).to_text(), "1.5");
}
