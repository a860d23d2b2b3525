//! Statements, proved once and for all, of what the reduction guarantees:
//! the shape of the output lists, preservation of child order, the
//! resolution policy for each payload kind, round-tripping through the
//! annotation index, and determinism of the whole reduction.

use vstd::prelude::*;

use crate::index::spec_annotation_index;
use crate::model::{
    local_name_of, AnnotationApplication, AnnotationValue, NodeKind, Results, SchemaNode,
};
use crate::reduce::{
    spec_annotations, spec_container, spec_extract, spec_reduce, spec_resolve_one,
};

verus! {

/// The nodes of one kind, in stream order.
pub open spec fn nodes_of_kind(nodes: Seq<SchemaNode>, kind: NodeKind) -> Seq<SchemaNode>
    decreases nodes.len(),
{
    if nodes.len() == 0 {
        Seq::empty()
    } else {
        let rest = nodes_of_kind(nodes.drop_last(), kind);
        if nodes.last().kind == kind {
            rest.push(nodes.last())
        } else {
            rest
        }
    }
}

/// Identities are unique across the stream (guaranteed upstream by the
/// reflection layer).
pub open spec fn ids_unique(nodes: Seq<SchemaNode>) -> bool {
    forall|i: int, j: int| 0 <= i < j < nodes.len() ==> nodes[i].id != nodes[j].id
}

/// Each output list is exactly the containers of the nodes of its kind, in
/// stream order; the catch-all list is exactly the display names of the
/// unrecognized nodes, in stream order.
pub proof fn lemma_reduce_shape(nodes: Seq<SchemaNode>, index: Map<u64, Seq<char>>)
    ensures
        spec_reduce(nodes, index).structs == nodes_of_kind(nodes, NodeKind::Record).map_values(
            |n: SchemaNode| spec_container(n, index),
        ),
        spec_reduce(nodes, index).enums == nodes_of_kind(nodes, NodeKind::Enumeration).map_values(
            |n: SchemaNode| spec_container(n, index),
        ),
        spec_reduce(nodes, index).interfaces == nodes_of_kind(
            nodes,
            NodeKind::Interface,
        ).map_values(|n: SchemaNode| spec_container(n, index)),
        spec_reduce(nodes, index).unk == nodes_of_kind(nodes, NodeKind::Other).map_values(
            |n: SchemaNode| n.display_name@,
        ),
    decreases nodes.len(),
{
    if nodes.len() == 0 {
        assert(spec_reduce(nodes, index).structs =~= nodes_of_kind(
            nodes,
            NodeKind::Record,
        ).map_values(|n: SchemaNode| spec_container(n, index)));
        assert(spec_reduce(nodes, index).enums =~= nodes_of_kind(
            nodes,
            NodeKind::Enumeration,
        ).map_values(|n: SchemaNode| spec_container(n, index)));
        assert(spec_reduce(nodes, index).interfaces =~= nodes_of_kind(
            nodes,
            NodeKind::Interface,
        ).map_values(|n: SchemaNode| spec_container(n, index)));
        assert(spec_reduce(nodes, index).unk =~= nodes_of_kind(nodes, NodeKind::Other).map_values(
            |n: SchemaNode| n.display_name@,
        ));
    } else {
        lemma_reduce_shape(nodes.drop_last(), index);
        assert(nodes_of_kind(nodes, NodeKind::Record).map_values(
            |n: SchemaNode| spec_container(n, index),
        ) =~= spec_reduce(nodes, index).structs);
        assert(nodes_of_kind(nodes, NodeKind::Enumeration).map_values(
            |n: SchemaNode| spec_container(n, index),
        ) =~= spec_reduce(nodes, index).enums);
        assert(nodes_of_kind(nodes, NodeKind::Interface).map_values(
            |n: SchemaNode| spec_container(n, index),
        ) =~= spec_reduce(nodes, index).interfaces);
        assert(nodes_of_kind(nodes, NodeKind::Other).map_values(
            |n: SchemaNode| n.display_name@,
        ) =~= spec_reduce(nodes, index).unk);
    }
}

/// Child order is preserved: the container produced for the `i`-th node of
/// a recognized kind carries that node's display name and exactly one
/// entity per declared child, in declaration order and under the child's
/// own name.
pub proof fn lemma_child_order_preserved(
    nodes: Seq<SchemaNode>,
    index: Map<u64, Seq<char>>,
    kind: NodeKind,
    i: int,
)
    requires
        kind == NodeKind::Record || kind == NodeKind::Enumeration || kind == NodeKind::Interface,
        0 <= i < nodes_of_kind(nodes, kind).len(),
    ensures
        ({
            let n = nodes_of_kind(nodes, kind)[i];
            let list = if kind == NodeKind::Record {
                spec_reduce(nodes, index).structs
            } else if kind == NodeKind::Enumeration {
                spec_reduce(nodes, index).enums
            } else {
                spec_reduce(nodes, index).interfaces
            };
            &&& list.len() == nodes_of_kind(nodes, kind).len()
            &&& list[i].name == n.display_name@
            &&& list[i].entities.len() == n.children@.len()
            &&& forall|j: int|
                0 <= j < n.children@.len() ==> #[trigger] list[i].entities[j].name
                    == n.children@[j].name@
        }),
{
    lemma_reduce_shape(nodes, index);
}

/// An application whose identity the index resolves to a text payload
/// contributes exactly that text under the resolved name.
pub proof fn lemma_resolve_text(
    m: Map<Seq<char>, Seq<char>>,
    index: Map<u64, Seq<char>>,
    app: AnnotationApplication,
    txt: String,
)
    requires
        index.contains_key(app.id),
        app.value == AnnotationValue::Text(txt),
    ensures
        spec_resolve_one(m, index, app).contains_key(index[app.id]),
        spec_resolve_one(m, index, app)[index[app.id]] == txt@,
{
}

/// A resolved application with no payload contributes the marker `"true"`
/// under the resolved name.
pub proof fn lemma_resolve_no_payload(
    m: Map<Seq<char>, Seq<char>>,
    index: Map<u64, Seq<char>>,
    app: AnnotationApplication,
)
    requires
        index.contains_key(app.id),
        app.value == AnnotationValue::NoPayload,
    ensures
        spec_resolve_one(m, index, app).contains_key(index[app.id]),
        spec_resolve_one(m, index, app)[index[app.id]] == "true"@,
{
}

/// A resolved application with an unsupported payload kind contributes the
/// marker `"unhandled type"` under the resolved name.
pub proof fn lemma_resolve_unsupported(
    m: Map<Seq<char>, Seq<char>>,
    index: Map<u64, Seq<char>>,
    app: AnnotationApplication,
)
    requires
        index.contains_key(app.id),
        app.value == AnnotationValue::Unsupported,
    ensures
        spec_resolve_one(m, index, app).contains_key(index[app.id]),
        spec_resolve_one(m, index, app)[index[app.id]] == "unhandled type"@,
{
}

/// An application whose identity the index does not know leaves the
/// annotation map untouched.
pub proof fn lemma_resolve_unknown(
    m: Map<Seq<char>, Seq<char>>,
    index: Map<u64, Seq<char>>,
    app: AnnotationApplication,
)
    requires
        !index.contains_key(app.id),
    ensures
        spec_resolve_one(m, index, app) == m,
{
}

/// The index built from a stream with unique identities maps the identity
/// of every annotation declaration to that declaration's local name: what
/// a declaration publishes is exactly what a reference to it resolves to.
pub proof fn lemma_index_of_declaration(nodes: Seq<SchemaNode>, i: int)
    requires
        ids_unique(nodes),
        0 <= i < nodes.len(),
        nodes[i].kind is AnnotationDeclaration,
    ensures
        spec_annotation_index(nodes).contains_key(nodes[i].id),
        spec_annotation_index(nodes)[nodes[i].id] == local_name_of(
            nodes[i].display_name@,
            nodes[i].prefix_len as int,
        ),
    decreases nodes.len(),
{
    if i < nodes.len() - 1 {
        assert(ids_unique(nodes.drop_last())) by {
            assert forall|p: int, q: int|
                0 <= p < q < nodes.drop_last().len() implies nodes.drop_last()[p].id
                != nodes.drop_last()[q].id by {
                assert(nodes[p].id != nodes[q].id);
            }
        }
        lemma_index_of_declaration(nodes.drop_last(), i);
        assert(nodes[i].id != nodes.last().id);
    }
}

/// Round trip through the index: on a stream with unique identities, an
/// application that references an annotation declaration and carries a text
/// payload ends up, once it is the last application resolved, as an entry
/// mapping the declaration's local name to exactly that text.
pub proof fn lemma_round_trip(
    nodes: Seq<SchemaNode>,
    d: int,
    apps: Seq<AnnotationApplication>,
    txt: String,
)
    requires
        ids_unique(nodes),
        0 <= d < nodes.len(),
        nodes[d].kind is AnnotationDeclaration,
        apps.len() > 0,
        apps.last().id == nodes[d].id,
        apps.last().value == AnnotationValue::Text(txt),
    ensures
        ({
            let name = local_name_of(nodes[d].display_name@, nodes[d].prefix_len as int);
            let m = spec_annotations(apps, spec_annotation_index(nodes));
            m.contains_key(name) && m[name] == txt@
        }),
{
    lemma_index_of_declaration(nodes, d);
}

/// When two applications on the same child resolve to the same name, the
/// later one wins: resolving the later application after the earlier one
/// leaves exactly the later value in the map.
pub proof fn lemma_later_application_wins(
    m: Map<Seq<char>, Seq<char>>,
    index: Map<u64, Seq<char>>,
    first: AnnotationApplication,
    second: AnnotationApplication,
)
    requires
        index.contains_key(first.id),
        index.contains_key(second.id),
        index[first.id] == index[second.id],
    ensures
        spec_resolve_one(spec_resolve_one(m, index, first), index, second) == spec_resolve_one(
            m,
            index,
            second,
        ),
{
    assert(spec_resolve_one(spec_resolve_one(m, index, first), index, second) =~= spec_resolve_one(
        m,
        index,
        second,
    ));
}

/// The reduction is deterministic: two runs over the same stream yield the
/// same result model. Byte-identical serialized output then follows from
/// the serializer's sorted-key ordering, which lives outside this library.
pub proof fn lemma_extraction_deterministic(nodes: Seq<SchemaNode>, r1: Results, r2: Results)
    requires
        r1@ == spec_extract(nodes),
        r2@ == spec_extract(nodes),
    ensures
        r1@ == r2@,
{
}

} // verus!
