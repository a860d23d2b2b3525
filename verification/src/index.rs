//! First pass: index every annotation declaration of the stream by its
//! numeric identity, so that annotation references can be resolved by name
//! during the second pass.

use std::collections::HashMap;
use vstd::prelude::*;
use vstd::string::StrSliceExecFns;

use crate::model::{local_name_of, NodeKind, SchemaNode};

verus! {

broadcast use vstd::std_specs::hash::group_hash_axioms;

/// The character-sequence view of an identity-to-name table.
pub open spec fn names_view(m: Map<u64, String>) -> Map<u64, Seq<char>> {
    Map::new(|k: u64| m.contains_key(k), |k: u64| m[k]@)
}

/// The annotation index of a node stream: every annotation declaration
/// contributes its identity, mapped to its local name; a later declaration
/// with the same identity overrides an earlier one (identities are unique
/// upstream, so this case does not arise on real input).
pub open spec fn spec_annotation_index(nodes: Seq<SchemaNode>) -> Map<u64, Seq<char>>
    decreases nodes.len(),
{
    if nodes.len() == 0 {
        Map::empty()
    } else {
        let rest = spec_annotation_index(nodes.drop_last());
        let n = nodes.last();
        if n.kind is AnnotationDeclaration {
            rest.insert(n.id, local_name_of(n.display_name@, n.prefix_len as int))
        } else {
            rest
        }
    }
}

/// Walk the stream once and record, for every annotation declaration, its
/// identity mapped to its local name (the display name with the qualifying
/// prefix removed).
pub fn build_annotation_index(nodes: &Vec<SchemaNode>) -> (names: HashMap<u64, String>)
    requires
        forall|i: int| 0 <= i < nodes@.len() ==> (#[trigger] nodes@[i]).wf(),
    ensures
        names_view(names@) == spec_annotation_index(nodes@),
{
    let mut names: HashMap<u64, String> = HashMap::new();
    proof {
        assert(names_view(names@) =~= spec_annotation_index(nodes@.take(0)));
    }
    let n: usize = nodes.len();
    let mut i: usize = 0;
    while i < n
        invariant
            n == nodes@.len(),
            i <= n,
            forall|j: int| 0 <= j < nodes@.len() ==> (#[trigger] nodes@[j]).wf(),
            names_view(names@) == spec_annotation_index(nodes@.take(i as int)),
        decreases n - i,
    {
        let node = &nodes[i];
        let ghost prev = names@;
        match node.kind {
            NodeKind::AnnotationDeclaration => {
                let total: usize = node.display_name.as_str().unicode_len();
                let local: &str = node.display_name.as_str().substring_char(
                    node.prefix_len,
                    total,
                );
                names.insert(node.id, local.to_owned());
                proof {
                    assert(names_view(names@) =~= names_view(prev).insert(
                        node.id,
                        local_name_of(node.display_name@, node.prefix_len as int),
                    ));
                }
            },
            _ => {},
        }
        proof {
            assert(nodes@.take(i + 1).drop_last() =~= nodes@.take(i as int));
            assert(nodes@.take(i + 1).last() == nodes@[i as int]);
        }
        i += 1;
    }
    proof {
        assert(nodes@.take(n as int) =~= nodes@);
    }
    names
}

} // verus!
