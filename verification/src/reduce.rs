//! Second pass: walk the schema node stream, classify each node by kind,
//! and produce one output container per record, enumeration or interface,
//! with every annotation reference on a child resolved through the index.

use std::collections::HashMap;
use vstd::prelude::*;

use crate::index::{build_annotation_index, names_view, spec_annotation_index};
use crate::model::{
    AnnotationApplication, AnnotationValue, ContainerV, EntityV, Field, NodeKind, Results,
    ResultsV, SchemaChild, SchemaNode, Struct, Enum, Interface,
};
use crate::model::{entities_view, fields_wf};

verus! {

broadcast use vstd::std_specs::hash::group_hash_axioms;

/// The value an annotation payload resolves to: presence alone is recorded
/// as the marker `"true"`, text is taken verbatim, and any other payload
/// kind is recorded as the marker `"unhandled type"`.
pub open spec fn resolved_value(v: AnnotationValue) -> Seq<char> {
    match v {
        AnnotationValue::NoPayload => "true"@,
        AnnotationValue::Text(txt) => txt@,
        AnnotationValue::Unsupported => "unhandled type"@,
    }
}

/// Resolve one annotation application into an annotation map: an identity
/// absent from the index contributes nothing; a resolved one contributes
/// its name, mapped to its resolved value.
pub open spec fn spec_resolve_one(
    m: Map<Seq<char>, Seq<char>>,
    index: Map<u64, Seq<char>>,
    app: AnnotationApplication,
) -> Map<Seq<char>, Seq<char>> {
    if index.contains_key(app.id) {
        m.insert(index[app.id], resolved_value(app.value))
    } else {
        m
    }
}

/// The annotation map of a child: its applications resolved in order, a
/// later application overriding an earlier one of the same name.
pub open spec fn spec_annotations(
    apps: Seq<AnnotationApplication>,
    index: Map<u64, Seq<char>>,
) -> Map<Seq<char>, Seq<char>>
    decreases apps.len(),
{
    if apps.len() == 0 {
        Map::empty()
    } else {
        spec_resolve_one(spec_annotations(apps.drop_last(), index), index, apps.last())
    }
}

/// The output entity of one child: its local name and its resolved
/// annotation map.
pub open spec fn spec_entity(child: SchemaChild, index: Map<u64, Seq<char>>) -> EntityV {
    EntityV { name: child.name@, annotations: spec_annotations(child.annotations@, index) }
}

/// The output entities of a child sequence, in declaration order.
pub open spec fn spec_entities(
    children: Seq<SchemaChild>,
    index: Map<u64, Seq<char>>,
) -> Seq<EntityV> {
    children.map_values(|c: SchemaChild| spec_entity(c, index))
}

/// The output container of one recognized node: its full display name and
/// one entity per child, in declaration order.
pub open spec fn spec_container(node: SchemaNode, index: Map<u64, Seq<char>>) -> ContainerV {
    ContainerV { name: node.display_name@, entities: spec_entities(node.children@, index) }
}

/// The result model of a node stream under a given annotation index:
/// records, enumerations and interfaces each append a container to their
/// list, annotation declarations contribute nothing here, and every other
/// node appends its display name to the catch-all list.
pub open spec fn spec_reduce(nodes: Seq<SchemaNode>, index: Map<u64, Seq<char>>) -> ResultsV
    decreases nodes.len(),
{
    if nodes.len() == 0 {
        ResultsV {
            structs: Seq::empty(),
            enums: Seq::empty(),
            interfaces: Seq::empty(),
            unk: Seq::empty(),
        }
    } else {
        let prev = spec_reduce(nodes.drop_last(), index);
        let n = nodes.last();
        match n.kind {
            NodeKind::Record => ResultsV {
                structs: prev.structs.push(spec_container(n, index)),
                ..prev
            },
            NodeKind::Enumeration => ResultsV {
                enums: prev.enums.push(spec_container(n, index)),
                ..prev
            },
            NodeKind::Interface => ResultsV {
                interfaces: prev.interfaces.push(spec_container(n, index)),
                ..prev
            },
            NodeKind::AnnotationDeclaration => prev,
            NodeKind::Other => ResultsV { unk: prev.unk.push(n.display_name@), ..prev },
        }
    }
}

/// The result model of a node stream: the reduction under the annotation
/// index built from that same stream.
pub open spec fn spec_extract(nodes: Seq<SchemaNode>) -> ResultsV {
    spec_reduce(nodes, spec_annotation_index(nodes))
}

impl Field {
    /// Resolve one annotation application into this entity's annotation
    /// map. An identity absent from `names` is skipped; otherwise the
    /// resolved name is mapped to the payload's resolved value, overriding
    /// an earlier value of the same name.
    pub fn add_annotation(&mut self, app: &AnnotationApplication, names: &HashMap<u64, String>)
        requires
            old(self).wf(),
        ensures
            final(self).wf(),
            final(self)@ == (EntityV {
                name: old(self)@.name,
                annotations: spec_resolve_one(old(self)@.annotations, names_view(names@), *app),
            }),
    {
        let id = app.id;
        match names.get(&id) {
            Some(actual_name) => {
                let value: String = match &app.value {
                    AnnotationValue::NoPayload => "true".to_owned(),
                    AnnotationValue::Text(txt) => txt.clone(),
                    AnnotationValue::Unsupported => "unhandled type".to_owned(),
                };
                proof {
                    assert(names_view(names@).contains_key(id));
                    assert(names_view(names@)[id] == actual_name@);
                    assert(value@ == resolved_value(app.value));
                }
                self.set_annotation(actual_name.clone(), value);
            },
            None => {
                proof {
                    assert(!names_view(names@).contains_key(id));
                }
            },
        }
    }
}

/// Produce one output entity per child, in declaration order, resolving
/// every annotation application through `names`.
fn reduce_children(children: &Vec<SchemaChild>, names: &HashMap<u64, String>) -> (fs: Vec<Field>)
    ensures
        fields_wf(fs@),
        entities_view(fs@) == spec_entities(children@, names_view(names@)),
{
    let ghost index = names_view(names@);
    let mut fs: Vec<Field> = Vec::new();
    proof {
        assert(entities_view(fs@) =~~= spec_entities(children@.take(0), index));
    }
    let n: usize = children.len();
    let mut i: usize = 0;
    while i < n
        invariant
            n == children@.len(),
            i <= n,
            index == names_view(names@),
            fields_wf(fs@),
            entities_view(fs@) == spec_entities(children@.take(i as int), index),
        decreases n - i,
    {
        let child = &children[i];
        let mut f = Field { name: child.name.clone(), annotations: Vec::new() };
        proof {
            assert(f@.annotations =~~= spec_annotations(child.annotations@.take(0), index));
        }
        let m: usize = child.annotations.len();
        let mut j: usize = 0;
        while j < m
            invariant
                m == child.annotations@.len(),
                j <= m,
                index == names_view(names@),
                f.wf(),
                f@.name == child.name@,
                f@.annotations == spec_annotations(child.annotations@.take(j as int), index),
            decreases m - j,
        {
            f.add_annotation(&child.annotations[j], names);
            proof {
                assert(child.annotations@.take(j + 1).drop_last() =~= child.annotations@.take(
                    j as int,
                ));
                assert(child.annotations@.take(j + 1).last() == child.annotations@[j as int]);
            }
            j += 1;
        }
        proof {
            assert(child.annotations@.take(m as int) =~= child.annotations@);
            assert(f@ =~~= spec_entity(*child, index));
        }
        let ghost fs_old = fs@;
        fs.push(f);
        proof {
            let tprev = children@.take(i as int);
            let tnew = children@.take(i + 1);
            assert(tnew.drop_last() =~= tprev);
            assert(tnew.last() == children@[i as int]);
            assert(fs_old.len() == i as int) by {
                assert(entities_view(fs_old).len() == fs_old.len());
                assert(spec_entities(tprev, index).len() == tprev.len());
            }
            assert(fs@ == fs_old.push(f));
            assert forall|jj: int|
                0 <= jj < entities_view(fs@).len() implies entities_view(fs@)[jj] =~~= spec_entities(
                tnew,
                index,
            )[jj] by {
                if jj < i {
                    assert(fs@[jj] == fs_old[jj]);
                    assert(entities_view(fs_old)[jj] == spec_entities(tprev, index)[jj]);
                    assert(spec_entities(tprev, index)[jj] == spec_entity(tprev[jj], index));
                    assert(tnew[jj] == tprev[jj]);
                } else {
                    assert(fs@[jj] == f);
                    assert(tnew[jj] == children@[i as int]);
                }
            }
            assert(entities_view(fs@) =~~= spec_entities(tnew, index));
        }
        i += 1;
    }
    proof {
        assert(children@.take(n as int) =~= children@);
    }
    fs
}

/// Walk the node stream under a completed annotation index and accumulate
/// the result model: one container per record, enumeration or interface,
/// the display name of every unrecognized node in the catch-all list.
pub fn reduce(nodes: &Vec<SchemaNode>, names: &HashMap<u64, String>) -> (r: Results)
    ensures
        r.wf(),
        r@ == spec_reduce(nodes@, names_view(names@)),
{
    let ghost index = names_view(names@);
    let mut r = Results::new();
    proof {
        assert(r@ =~~= spec_reduce(nodes@.take(0), index));
    }
    let n: usize = nodes.len();
    let mut i: usize = 0;
    while i < n
        invariant
            n == nodes@.len(),
            i <= n,
            index == names_view(names@),
            r.wf(),
            r@ == spec_reduce(nodes@.take(i as int), index),
        decreases n - i,
    {
        let node = &nodes[i];
        match node.kind {
            NodeKind::Record => {
                let fields = reduce_children(&node.children, names);
                r.structs.push(Struct { name: node.display_name.clone(), fields });
                proof {
                    assert(crate::model::structs_view(r.structs@) =~= spec_reduce(
                        nodes@.take(i as int),
                        index,
                    ).structs.push(spec_container(*node, index)));
                }
            },
            NodeKind::Enumeration => {
                let enumerants = reduce_children(&node.children, names);
                r.enums.push(Enum { name: node.display_name.clone(), enumerants });
                proof {
                    assert(crate::model::enums_view(r.enums@) =~= spec_reduce(
                        nodes@.take(i as int),
                        index,
                    ).enums.push(spec_container(*node, index)));
                }
            },
            NodeKind::Interface => {
                let methods = reduce_children(&node.children, names);
                r.interfaces.push(Interface { name: node.display_name.clone(), methods });
                proof {
                    assert(crate::model::interfaces_view(r.interfaces@) =~= spec_reduce(
                        nodes@.take(i as int),
                        index,
                    ).interfaces.push(spec_container(*node, index)));
                }
            },
            NodeKind::AnnotationDeclaration => {},
            NodeKind::Other => {
                r.add_unk(&node.display_name);
            },
        }
        proof {
            assert(nodes@.take(i + 1).drop_last() =~= nodes@.take(i as int));
            assert(nodes@.take(i + 1).last() == nodes@[i as int]);
            assert(r@ =~~= spec_reduce(nodes@.take(i + 1), index));
        }
        i += 1;
    }
    proof {
        assert(nodes@.take(n as int) =~= nodes@);
    }
    r
}

/// Run both passes over the stream: build the annotation index, then
/// reduce the stream under it.
pub fn extract(nodes: &Vec<SchemaNode>) -> (r: Results)
    requires
        forall|i: int| 0 <= i < nodes@.len() ==> (#[trigger] nodes@[i]).wf(),
    ensures
        r.wf(),
        r@ == spec_extract(nodes@),
{
    let names = build_annotation_index(nodes);
    reduce(nodes, &names)
}

} // verus!
