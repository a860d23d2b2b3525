//! End-to-end scenarios for the two-pass extraction: index building,
//! node classification, annotation resolution and output ordering.

use std::collections::HashMap;

use capnp_annotations::index::build_annotation_index;
use capnp_annotations::model::{
    AnnotationApplication, AnnotationValue, NodeKind, SchemaChild, SchemaNode,
};
use capnp_annotations::reduce::{extract, reduce};

fn node(id: u64, name: &str, prefix_len: usize, kind: NodeKind, children: Vec<SchemaChild>) -> SchemaNode {
    SchemaNode { id, display_name: name.to_string(), prefix_len, kind, children }
}

fn child(name: &str, annotations: Vec<AnnotationApplication>) -> SchemaChild {
    SchemaChild { name: name.to_string(), annotations }
}

fn text_app(id: u64, text: &str) -> AnnotationApplication {
    AnnotationApplication { id, value: AnnotationValue::Text(text.to_string()) }
}

#[test]
fn record_with_text_annotation() {
    let nodes = vec![
        node(
            1,
            "Pkg.MyStruct",
            4,
            NodeKind::Record,
            vec![child("id", vec![text_app(42, "v1")])],
        ),
        node(42, "Pkg.MyAnno", 4, NodeKind::AnnotationDeclaration, vec![]),
    ];
    let r = extract(&nodes);
    assert_eq!(r.structs.len(), 1);
    assert_eq!(r.enums.len(), 0);
    assert_eq!(r.interfaces.len(), 0);
    assert_eq!(r.unk.len(), 0);
    assert_eq!(r.structs[0].name, "Pkg.MyStruct");
    assert_eq!(r.structs[0].fields.len(), 1);
    assert_eq!(r.structs[0].fields[0].name, "id");
    assert_eq!(
        r.structs[0].fields[0].annotation(&"MyAnno".to_string()),
        Some(&"v1".to_string())
    );
    assert_eq!(r.structs[0].fields[0].annotations.len(), 1);
}

#[test]
fn declaration_after_use_site_still_resolves() {
    // The declaration appears later in the stream than the record that
    // references it; the first pass must still have indexed it.
    let nodes = vec![
        node(7, "a.S", 2, NodeKind::Record, vec![child("f", vec![text_app(9, "x")])]),
        node(9, "a.tag", 2, NodeKind::AnnotationDeclaration, vec![]),
    ];
    let r = extract(&nodes);
    assert_eq!(
        r.structs[0].fields[0].annotation(&"tag".to_string()),
        Some(&"x".to_string())
    );
}

#[test]
fn no_payload_resolves_to_true() {
    let nodes = vec![
        node(10, "ns.opt", 3, NodeKind::AnnotationDeclaration, vec![]),
        node(
            11,
            "ns.E",
            3,
            NodeKind::Enumeration,
            vec![child(
                "red",
                vec![AnnotationApplication { id: 10, value: AnnotationValue::NoPayload }],
            )],
        ),
    ];
    let r = extract(&nodes);
    assert_eq!(r.enums.len(), 1);
    assert_eq!(
        r.enums[0].enumerants[0].annotation(&"opt".to_string()),
        Some(&"true".to_string())
    );
}

#[test]
fn unknown_identity_contributes_nothing() {
    let nodes = vec![node(
        1,
        "ns.S",
        3,
        NodeKind::Record,
        vec![child("f", vec![text_app(999, "ignored")])],
    )];
    let r = extract(&nodes);
    assert_eq!(r.structs[0].fields[0].annotations.len(), 0);
    assert_eq!(r.structs[0].fields[0].annotation(&"ignored".to_string()), None);
}

#[test]
fn unsupported_payload_is_marked() {
    let nodes = vec![
        node(5, "ns.num", 3, NodeKind::AnnotationDeclaration, vec![]),
        node(
            6,
            "ns.I",
            3,
            NodeKind::Interface,
            vec![child(
                "run",
                vec![AnnotationApplication { id: 5, value: AnnotationValue::Unsupported }],
            )],
        ),
    ];
    let r = extract(&nodes);
    assert_eq!(r.interfaces.len(), 1);
    assert_eq!(r.interfaces[0].methods[0].name, "run");
    assert_eq!(
        r.interfaces[0].methods[0].annotation(&"num".to_string()),
        Some(&"unhandled type".to_string())
    );
}

#[test]
fn unrecognized_kind_lands_in_unk() {
    let nodes = vec![
        node(1, "ns.SomeConst", 3, NodeKind::Other, vec![]),
        node(2, "ns.S", 3, NodeKind::Record, vec![]),
    ];
    let r = extract(&nodes);
    assert_eq!(r.unk, vec!["ns.SomeConst".to_string()]);
    assert_eq!(r.structs.len(), 1);
    assert_eq!(r.enums.len(), 0);
    assert_eq!(r.interfaces.len(), 0);
}

#[test]
fn later_application_wins() {
    let nodes = vec![
        node(3, "ns.tag", 3, NodeKind::AnnotationDeclaration, vec![]),
        node(
            4,
            "ns.S",
            3,
            NodeKind::Record,
            vec![child("f", vec![text_app(3, "first"), text_app(3, "second")])],
        ),
    ];
    let r = extract(&nodes);
    assert_eq!(
        r.structs[0].fields[0].annotation(&"tag".to_string()),
        Some(&"second".to_string())
    );
    assert_eq!(r.structs[0].fields[0].annotations.len(), 1);
}

#[test]
fn extraction_twice_is_identical() {
    let nodes = vec![
        node(3, "ns.tag", 3, NodeKind::AnnotationDeclaration, vec![]),
        node(
            4,
            "ns.S",
            3,
            NodeKind::Record,
            vec![child("f", vec![text_app(3, "v")]), child("g", vec![])],
        ),
        node(5, "ns.E", 3, NodeKind::Enumeration, vec![child("a", vec![])]),
        node(6, "ns.X", 3, NodeKind::Other, vec![]),
    ];
    let r1 = extract(&nodes);
    let r2 = extract(&nodes);
    assert_eq!(r1, r2);
}

#[test]
fn children_keep_declaration_order() {
    let nodes = vec![node(
        1,
        "ns.S",
        3,
        NodeKind::Record,
        vec![child("x", vec![]), child("y", vec![]), child("z", vec![])],
    )];
    let r = extract(&nodes);
    let names: Vec<&str> = r.structs[0].fields.iter().map(|f| f.name.as_str()).collect();
    assert_eq!(names, vec!["x", "y", "z"]);
}

#[test]
fn containers_keep_stream_order() {
    let nodes = vec![
        node(1, "ns.B", 3, NodeKind::Record, vec![]),
        node(2, "ns.A", 3, NodeKind::Record, vec![]),
        node(3, "ns.D", 3, NodeKind::Enumeration, vec![]),
        node(4, "ns.C", 3, NodeKind::Enumeration, vec![]),
    ];
    let r = extract(&nodes);
    assert_eq!(r.structs[0].name, "ns.B");
    assert_eq!(r.structs[1].name, "ns.A");
    assert_eq!(r.enums[0].name, "ns.D");
    assert_eq!(r.enums[1].name, "ns.C");
}

#[test]
fn annotation_declaration_produces_no_container() {
    let nodes = vec![node(8, "ns.tag", 3, NodeKind::AnnotationDeclaration, vec![])];
    let r = extract(&nodes);
    assert_eq!(r.structs.len(), 0);
    assert_eq!(r.enums.len(), 0);
    assert_eq!(r.interfaces.len(), 0);
    assert_eq!(r.unk.len(), 0);
}

#[test]
fn empty_stream_gives_empty_results() {
    let nodes: Vec<SchemaNode> = vec![];
    let r = extract(&nodes);
    assert_eq!(r.structs.len(), 0);
    assert_eq!(r.enums.len(), 0);
    assert_eq!(r.interfaces.len(), 0);
    assert_eq!(r.unk.len(), 0);
}

#[test]
fn index_strips_declared_prefix() {
    let nodes = vec![
        node(21, "pkg.scope.anno", 10, NodeKind::AnnotationDeclaration, vec![]),
        node(22, "whole", 0, NodeKind::AnnotationDeclaration, vec![]),
    ];
    let names = build_annotation_index(&nodes);
    assert_eq!(names.get(&21), Some(&"anno".to_string()));
    assert_eq!(names.get(&22), Some(&"whole".to_string()));
    assert_eq!(names.len(), 2);
}

#[test]
fn index_ignores_other_kinds() {
    let nodes = vec![
        node(1, "ns.S", 3, NodeKind::Record, vec![]),
        node(2, "ns.X", 3, NodeKind::Other, vec![]),
    ];
    let names = build_annotation_index(&nodes);
    assert_eq!(names.len(), 0);
}

#[test]
fn prefix_spanning_whole_name_gives_empty_local_name() {
    let nodes = vec![
        node(31, "ns.anno", 7, NodeKind::AnnotationDeclaration, vec![]),
        node(
            32,
            "ns.S",
            3,
            NodeKind::Record,
            vec![child("f", vec![text_app(31, "v")])],
        ),
    ];
    let r = extract(&nodes);
    assert_eq!(
        r.structs[0].fields[0].annotation(&String::new()),
        Some(&"v".to_string())
    );
}

#[test]
fn reduce_uses_the_index_it_is_handed() {
    // The index is an immutable handoff value: reduction resolves against
    // whatever it is given, independently of the stream it walks.
    let mut names: HashMap<u64, String> = HashMap::new();
    names.insert(77, "external".to_string());
    let nodes = vec![node(
        1,
        "ns.S",
        3,
        NodeKind::Record,
        vec![child("f", vec![text_app(77, "v")])],
    )];
    let r = reduce(&nodes, &names);
    assert_eq!(
        r.structs[0].fields[0].annotation(&"external".to_string()),
        Some(&"v".to_string())
    );
    // The same stream under the index built from it alone resolves nothing.
    let r2 = extract(&nodes);
    assert_eq!(r2.structs[0].fields[0].annotations.len(), 0);
}

#[test]
fn annotations_on_methods_and_enumerants_resolve() {
    let nodes = vec![
        node(50, "ns.m", 3, NodeKind::AnnotationDeclaration, vec![]),
        node(
            51,
            "ns.I",
            3,
            NodeKind::Interface,
            vec![child("call", vec![text_app(50, "rpc")])],
        ),
        node(
            52,
            "ns.E",
            3,
            NodeKind::Enumeration,
            vec![child("on", vec![text_app(50, "lit")])],
        ),
    ];
    let r = extract(&nodes);
    assert_eq!(
        r.interfaces[0].methods[0].annotation(&"m".to_string()),
        Some(&"rpc".to_string())
    );
    assert_eq!(
        r.enums[0].enumerants[0].annotation(&"m".to_string()),
        Some(&"lit".to_string())
    );
}
