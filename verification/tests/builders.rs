//! Unit tests for the incremental builders of the result model and for the
//! annotation map on a single entity.

use std::collections::HashMap;

use capnp_annotations::model::{Enum, Field, Interface, Results, Struct};
use capnp_annotations::model::{AnnotationApplication, AnnotationValue};

fn empty_field(name: &str) -> Field {
    Field { name: name.to_string(), annotations: Vec::new() }
}

#[test]
fn add_field_appends_in_order() {
    let mut s = Struct { name: "S".to_string(), fields: Vec::new() };
    s.add_field("a");
    s.add_field("b");
    assert_eq!(s.fields.len(), 2);
    assert_eq!(s.fields[0].name, "a");
    assert_eq!(s.fields[1].name, "b");
    assert_eq!(s.fields[0].annotations.len(), 0);
}

#[test]
fn add_enumerant_appends_in_order() {
    let mut e = Enum { name: "E".to_string(), enumerants: Vec::new() };
    e.add_enumerant("red");
    e.add_enumerant("green");
    assert_eq!(e.enumerants.len(), 2);
    assert_eq!(e.enumerants[0].name, "red");
    assert_eq!(e.enumerants[1].name, "green");
}

#[test]
fn add_method_appends_in_order() {
    let mut i = Interface { name: "I".to_string(), methods: Vec::new() };
    i.add_method("start");
    i.add_method("stop");
    assert_eq!(i.methods.len(), 2);
    assert_eq!(i.methods[0].name, "start");
    assert_eq!(i.methods[1].name, "stop");
}

#[test]
fn results_builders_append_to_their_lists() {
    let mut r = Results::new();
    r.add_struct("ns.S");
    r.add_enum("ns.E");
    r.add_interface("ns.I");
    r.add_unk("ns.X");
    r.add_unk("ns.Y");
    assert_eq!(r.structs.len(), 1);
    assert_eq!(r.structs[0].name, "ns.S");
    assert_eq!(r.structs[0].fields.len(), 0);
    assert_eq!(r.enums.len(), 1);
    assert_eq!(r.enums[0].name, "ns.E");
    assert_eq!(r.interfaces.len(), 1);
    assert_eq!(r.interfaces[0].name, "ns.I");
    assert_eq!(r.unk, vec!["ns.X".to_string(), "ns.Y".to_string()]);
}

#[test]
fn set_annotation_overwrites_same_key() {
    let mut f = empty_field("f");
    f.set_annotation("k".to_string(), "v1".to_string());
    f.set_annotation("k".to_string(), "v2".to_string());
    f.set_annotation("other".to_string(), "w".to_string());
    assert_eq!(f.annotations.len(), 2);
    assert_eq!(f.annotation(&"k".to_string()), Some(&"v2".to_string()));
    assert_eq!(f.annotation(&"other".to_string()), Some(&"w".to_string()));
    assert_eq!(f.annotation(&"missing".to_string()), None);
}

#[test]
fn add_annotation_follows_resolution_policy() {
    let mut names: HashMap<u64, String> = HashMap::new();
    names.insert(1, "text".to_string());
    names.insert(2, "flag".to_string());
    names.insert(3, "odd".to_string());

    let mut f = empty_field("f");
    f.add_annotation(
        &AnnotationApplication { id: 1, value: AnnotationValue::Text("payload".to_string()) },
        &names,
    );
    f.add_annotation(&AnnotationApplication { id: 2, value: AnnotationValue::NoPayload }, &names);
    f.add_annotation(&AnnotationApplication { id: 3, value: AnnotationValue::Unsupported }, &names);
    f.add_annotation(
        &AnnotationApplication { id: 99, value: AnnotationValue::Text("lost".to_string()) },
        &names,
    );

    assert_eq!(f.annotations.len(), 3);
    assert_eq!(f.annotation(&"text".to_string()), Some(&"payload".to_string()));
    assert_eq!(f.annotation(&"flag".to_string()), Some(&"true".to_string()));
    assert_eq!(f.annotation(&"odd".to_string()), Some(&"unhandled type".to_string()));
    assert_eq!(f.annotation(&"lost".to_string()), None);
}
