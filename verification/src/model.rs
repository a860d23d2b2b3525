//! Data model: the plain-value shape of the incoming schema node stream and
//! the output result model that the reduction accumulates.

use vstd::prelude::*;

verus! {

// --------------------------------------------------------------------------
// Input model: one schema node per declared entity, already decoded into
// plain values by the caller.
// --------------------------------------------------------------------------

/// The kind tag of a schema node. The reduction recognizes records,
/// enumerations and service interfaces; annotation declarations feed the
/// index pass; everything else lands in the catch-all list.
#[derive(Clone, Copy, Debug, PartialEq, Eq, Structural)]
pub enum NodeKind {
    Record,
    Enumeration,
    Interface,
    AnnotationDeclaration,
    Other,
}

/// The payload carried by one annotation application: presence-only,
/// a text value, or a payload kind the reduction does not support.
#[derive(Clone, Debug, PartialEq)]
pub enum AnnotationValue {
    NoPayload,
    Text(String),
    Unsupported,
}

/// One annotation application attached to a child, referencing an
/// annotation declaration by its numeric identity.
#[derive(Clone, Debug, PartialEq)]
pub struct AnnotationApplication {
    pub id: u64,
    pub value: AnnotationValue,
}

/// One kind-specific child of a schema node: a field of a record, an
/// enumerant of an enumeration, or a method of an interface.
#[derive(Clone, Debug, PartialEq)]
pub struct SchemaChild {
    pub name: String,
    pub annotations: Vec<AnnotationApplication>,
}

/// One node of the schema node stream: a numeric identity unique within a
/// run, a path-qualified display name with the length of its qualifying
/// prefix, a kind tag, and the kind-specific children.
#[derive(Clone, Debug, PartialEq)]
pub struct SchemaNode {
    pub id: u64,
    pub display_name: String,
    pub prefix_len: usize,
    pub kind: NodeKind,
    pub children: Vec<SchemaChild>,
}

impl SchemaNode {
    /// The prefix marks where the node's own local name begins, so it can
    /// reach at most the end of the display name.
    pub open spec fn wf(&self) -> bool {
        self.prefix_len <= self.display_name@.len()
    }
}

/// The local (unqualified) name of a node: its display name with the
/// qualifying prefix removed.
pub open spec fn local_name_of(name: Seq<char>, prefix_len: int) -> Seq<char> {
    name.subrange(prefix_len, name.len() as int)
}

// --------------------------------------------------------------------------
// Mathematical views of the output model.
// --------------------------------------------------------------------------

/// The view of one output entity (field, enumerant or method): its local
/// name and its resolved annotation map.
#[verifier::ext_equal]
pub struct EntityV {
    pub name: Seq<char>,
    pub annotations: Map<Seq<char>, Seq<char>>,
}

/// The view of one output container (record, enumeration or interface):
/// its full display name and its child entities in declaration order.
#[verifier::ext_equal]
pub struct ContainerV {
    pub name: Seq<char>,
    pub entities: Seq<EntityV>,
}

/// The view of the whole result model: the three container lists in stream
/// order, plus the display names of unrecognized nodes.
#[verifier::ext_equal]
pub struct ResultsV {
    pub structs: Seq<ContainerV>,
    pub enums: Seq<ContainerV>,
    pub interfaces: Seq<ContainerV>,
    pub unk: Seq<Seq<char>>,
}

// --------------------------------------------------------------------------
// Annotation entries as an association list, viewed as a map.
// --------------------------------------------------------------------------

/// The views of a sequence of annotation entries.
pub open spec fn entry_views(es: Seq<(String, String)>) -> Seq<(Seq<char>, Seq<char>)> {
    es.map_values(|e: (String, String)| (e.0@, e.1@))
}

/// The map held by a sequence of entries; a later entry with the same key
/// overrides an earlier one.
pub open spec fn map_of(es: Seq<(Seq<char>, Seq<char>)>) -> Map<Seq<char>, Seq<char>>
    decreases es.len(),
{
    if es.len() == 0 {
        Map::empty()
    } else {
        map_of(es.drop_last()).insert(es.last().0, es.last().1)
    }
}

/// No two entries share a key.
pub open spec fn keys_unique(es: Seq<(Seq<char>, Seq<char>)>) -> bool {
    forall|i: int, j: int| 0 <= i < j < es.len() ==> es[i].0 != es[j].0
}

pub proof fn lemma_map_of_contains(es: Seq<(Seq<char>, Seq<char>)>, k: Seq<char>)
    ensures
        map_of(es).contains_key(k) <==> exists|i: int| 0 <= i < es.len() && es[i].0 == k,
    decreases es.len(),
{
    if es.len() > 0 {
        lemma_map_of_contains(es.drop_last(), k);
        if es.last().0 == k {
            assert(es[es.len() - 1].0 == k);
        } else if map_of(es).contains_key(k) {
            let i = choose|i: int| 0 <= i < es.drop_last().len() && es.drop_last()[i].0 == k;
            assert(es[i].0 == k);
        } else if exists|i: int| 0 <= i < es.len() && es[i].0 == k {
            let i = choose|i: int| 0 <= i < es.len() && es[i].0 == k;
            assert(es.drop_last()[i].0 == k);
        }
    }
}

pub proof fn lemma_map_of_index(es: Seq<(Seq<char>, Seq<char>)>, i: int)
    requires
        keys_unique(es),
        0 <= i < es.len(),
    ensures
        map_of(es).contains_key(es[i].0),
        map_of(es)[es[i].0] == es[i].1,
    decreases es.len(),
{
    if i < es.len() - 1 {
        assert(keys_unique(es.drop_last())) by {
            assert forall|p: int, q: int|
                0 <= p < q < es.drop_last().len() implies es.drop_last()[p].0
                != es.drop_last()[q].0 by {
                assert(es[p].0 != es[q].0);
            }
        }
        lemma_map_of_index(es.drop_last(), i);
        assert(es[i].0 != es.last().0);
    }
}

pub proof fn lemma_map_of_update(es: Seq<(Seq<char>, Seq<char>)>, i: int, v: Seq<char>)
    requires
        keys_unique(es),
        0 <= i < es.len(),
    ensures
        map_of(es.update(i, (es[i].0, v))) == map_of(es).insert(es[i].0, v),
    decreases es.len(),
{
    let k = es[i].0;
    let es2 = es.update(i, (k, v));
    if i == es.len() - 1 {
        assert(es2.drop_last() =~= es.drop_last());
        assert(map_of(es.drop_last()).insert(k, es.last().1).insert(k, v) =~= map_of(
            es.drop_last(),
        ).insert(k, v));
    } else {
        assert(keys_unique(es.drop_last())) by {
            assert forall|p: int, q: int|
                0 <= p < q < es.drop_last().len() implies es.drop_last()[p].0
                != es.drop_last()[q].0 by {
                assert(es[p].0 != es[q].0);
            }
        }
        lemma_map_of_update(es.drop_last(), i, v);
        assert(es2.drop_last() =~= es.drop_last().update(i, (k, v)));
        assert(es2.last() == es.last());
        assert(k != es.last().0);
        assert(map_of(es.drop_last()).insert(k, v).insert(es.last().0, es.last().1) =~= map_of(
            es.drop_last(),
        ).insert(es.last().0, es.last().1).insert(k, v));
    }
}

// --------------------------------------------------------------------------
// Output model: one entity per child, one container per recognized node.
// --------------------------------------------------------------------------

/// One output entity: the child's local name and its resolved annotations,
/// kept as entries with pairwise distinct keys in first-insertion order.
#[derive(Clone, Debug, PartialEq)]
pub struct Field {
    pub name: String,
    pub annotations: Vec<(String, String)>,
}

impl Field {
    pub open spec fn wf(&self) -> bool {
        keys_unique(entry_views(self.annotations@))
    }

    /// Record `value` under `name`, overriding an earlier value held under
    /// the same name.
    pub fn set_annotation(&mut self, name: String, value: String)
        requires
            old(self).wf(),
        ensures
            final(self).wf(),
            final(self)@ == (EntityV {
                name: old(self)@.name,
                annotations: old(self)@.annotations.insert(name@, value@),
            }),
    {
        let ghost old_es = entry_views(old(self).annotations@);
        let n: usize = self.annotations.len();
        let mut i: usize = 0;
        while i < n
            invariant
                old(self).wf(),
                *self == *old(self),
                old_es == entry_views(old(self).annotations@),
                n == self.annotations@.len(),
                i <= n,
                forall|j: int| 0 <= j < i ==> old_es[j].0 != name@,
            decreases n - i,
        {
            if self.annotations[i].0 == name {
                proof {
                    assert(old_es[i as int].0 == name@);
                    lemma_map_of_update(old_es, i as int, value@);
                }
                let ghost k: Seq<char> = name@;
                let ghost v: Seq<char> = value@;
                self.annotations[i] = (name, value);
                proof {
                    let es2 = entry_views(self.annotations@);
                    assert(es2 =~= old_es.update(i as int, (k, v)));
                    assert(self@.annotations == old(self)@.annotations.insert(k, v));
                    assert forall|p: int, q: int| 0 <= p < q < es2.len() implies es2[p].0
                        != es2[q].0 by {
                        assert(es2[p].0 == old_es[p].0);
                        assert(es2[q].0 == old_es[q].0);
                    }
                }
                return ;
            }
            i += 1;
        }
        let ghost k: Seq<char> = name@;
        let ghost v: Seq<char> = value@;
        self.annotations.push((name, value));
        proof {
            let es2 = entry_views(self.annotations@);
            assert(es2.drop_last() =~= old_es);
            assert(es2.last() == (k, v));
            assert(self@.annotations == old(self)@.annotations.insert(k, v));
            assert forall|p: int, q: int| 0 <= p < q < es2.len() implies es2[p].0 != es2[q].0 by {
                assert(es2[p].0 == old_es[p].0);
                if q < old_es.len() {
                    assert(es2[q].0 == old_es[q].0);
                } else {
                    assert(es2[q].0 == k);
                }
            }
        }
    }

    /// Look up the value resolved under `name`, if any.
    pub fn annotation(&self, name: &String) -> (r: Option<&String>)
        requires
            self.wf(),
        ensures
            match r {
                Some(v) => self@.annotations.contains_key(name@) && v@ == self@.annotations[name@],
                None => !self@.annotations.contains_key(name@),
            },
    {
        let n: usize = self.annotations.len();
        let mut i: usize = 0;
        while i < n
            invariant
                n == self.annotations@.len(),
                i <= n,
                self.wf(),
                forall|j: int| 0 <= j < i ==> entry_views(self.annotations@)[j].0 != name@,
            decreases n - i,
        {
            if self.annotations[i].0 == *name {
                proof {
                    lemma_map_of_index(entry_views(self.annotations@), i as int);
                }
                return Some(&self.annotations[i].1);
            }
            i += 1;
        }
        proof {
            lemma_map_of_contains(entry_views(self.annotations@), name@);
        }
        None
    }
}

impl View for Field {
    type V = EntityV;

    open spec fn view(&self) -> EntityV {
        EntityV { name: self.name@, annotations: map_of(entry_views(self.annotations@)) }
    }
}

/// The views of a sequence of output entities.
pub open spec fn entities_view(fs: Seq<Field>) -> Seq<EntityV> {
    fs.map_values(|f: Field| f@)
}

/// Every entity of the sequence is well formed.
pub open spec fn fields_wf(fs: Seq<Field>) -> bool {
    forall|i: int| 0 <= i < fs.len() ==> (#[trigger] fs[i]).wf()
}

/// One record container: its full display name and its fields.
#[derive(Clone, Debug, PartialEq)]
pub struct Struct {
    pub name: String,
    pub fields: Vec<Field>,
}

impl Struct {
    pub open spec fn wf(&self) -> bool {
        fields_wf(self.fields@)
    }

    /// Append a field named `name` with no annotations yet.
    pub fn add_field(&mut self, name: &str)
        requires
            old(self).wf(),
        ensures
            final(self).wf(),
            final(self)@ == (ContainerV {
                name: old(self)@.name,
                entities: old(self)@.entities.push(
                    EntityV { name: name@, annotations: Map::empty() },
                ),
            }),
    {
        self.fields.push(Field { name: name.to_owned(), annotations: Vec::new() });
        proof {
            assert(entities_view(self.fields@) =~~= old(self)@.entities.push(
                EntityV { name: name@, annotations: Map::empty() },
            ));
        }
    }
}

impl View for Struct {
    type V = ContainerV;

    open spec fn view(&self) -> ContainerV {
        ContainerV { name: self.name@, entities: entities_view(self.fields@) }
    }
}

/// One enumeration container: its full display name and its enumerants.
#[derive(Clone, Debug, PartialEq)]
pub struct Enum {
    pub name: String,
    pub enumerants: Vec<Field>,
}

impl Enum {
    pub open spec fn wf(&self) -> bool {
        fields_wf(self.enumerants@)
    }

    /// Append an enumerant named `name` with no annotations yet.
    pub fn add_enumerant(&mut self, name: &str)
        requires
            old(self).wf(),
        ensures
            final(self).wf(),
            final(self)@ == (ContainerV {
                name: old(self)@.name,
                entities: old(self)@.entities.push(
                    EntityV { name: name@, annotations: Map::empty() },
                ),
            }),
    {
        self.enumerants.push(Field { name: name.to_owned(), annotations: Vec::new() });
        proof {
            assert(entities_view(self.enumerants@) =~~= old(self)@.entities.push(
                EntityV { name: name@, annotations: Map::empty() },
            ));
        }
    }
}

impl View for Enum {
    type V = ContainerV;

    open spec fn view(&self) -> ContainerV {
        ContainerV { name: self.name@, entities: entities_view(self.enumerants@) }
    }
}

/// One interface container: its full display name and its methods.
#[derive(Clone, Debug, PartialEq)]
pub struct Interface {
    pub name: String,
    pub methods: Vec<Field>,
}

impl Interface {
    pub open spec fn wf(&self) -> bool {
        fields_wf(self.methods@)
    }

    /// Append a method named `name` with no annotations yet.
    pub fn add_method(&mut self, name: &str)
        requires
            old(self).wf(),
        ensures
            final(self).wf(),
            final(self)@ == (ContainerV {
                name: old(self)@.name,
                entities: old(self)@.entities.push(
                    EntityV { name: name@, annotations: Map::empty() },
                ),
            }),
    {
        self.methods.push(Field { name: name.to_owned(), annotations: Vec::new() });
        proof {
            assert(entities_view(self.methods@) =~~= old(self)@.entities.push(
                EntityV { name: name@, annotations: Map::empty() },
            ));
        }
    }
}

impl View for Interface {
    type V = ContainerV;

    open spec fn view(&self) -> ContainerV {
        ContainerV { name: self.name@, entities: entities_view(self.methods@) }
    }
}

/// The views of a sequence of record containers.
pub open spec fn structs_view(ss: Seq<Struct>) -> Seq<ContainerV> {
    ss.map_values(|s: Struct| s@)
}

/// The views of a sequence of enumeration containers.
pub open spec fn enums_view(es: Seq<Enum>) -> Seq<ContainerV> {
    es.map_values(|e: Enum| e@)
}

/// The views of a sequence of interface containers.
pub open spec fn interfaces_view(is: Seq<Interface>) -> Seq<ContainerV> {
    is.map_values(|i: Interface| i@)
}

/// The views of a sequence of plain names.
pub open spec fn names_seq_view(ns: Seq<String>) -> Seq<Seq<char>> {
    ns.map_values(|n: String| n@)
}

/// The accumulated result model: records, enumerations and interfaces in
/// stream order, plus the display names of unrecognized nodes.
#[derive(Clone, Debug, PartialEq)]
pub struct Results {
    pub structs: Vec<Struct>,
    pub enums: Vec<Enum>,
    pub interfaces: Vec<Interface>,
    pub unk: Vec<String>,
}

impl Results {
    pub open spec fn wf(&self) -> bool {
        &&& forall|i: int| 0 <= i < self.structs@.len() ==> (#[trigger] self.structs@[i]).wf()
        &&& forall|i: int| 0 <= i < self.enums@.len() ==> (#[trigger] self.enums@[i]).wf()
        &&& forall|i: int|
            0 <= i < self.interfaces@.len() ==> (#[trigger] self.interfaces@[i]).wf()
    }

    /// A result model with nothing accumulated yet.
    pub fn new() -> (r: Results)
        ensures
            r.wf(),
            r@ == (ResultsV {
                structs: Seq::empty(),
                enums: Seq::empty(),
                interfaces: Seq::empty(),
                unk: Seq::empty(),
            }),
    {
        let r = Results { structs: Vec::new(), enums: Vec::new(), interfaces: Vec::new(), unk: Vec::new() };
        proof {
            assert(r@ =~~= (ResultsV {
                structs: Seq::empty(),
                enums: Seq::empty(),
                interfaces: Seq::empty(),
                unk: Seq::empty(),
            }));
        }
        r
    }

    /// Append a record container named `name` with no fields yet.
    pub fn add_struct(&mut self, name: &str)
        requires
            old(self).wf(),
        ensures
            final(self).wf(),
            final(self)@ == (ResultsV {
                structs: old(self)@.structs.push(
                    ContainerV { name: name@, entities: Seq::empty() },
                ),
                ..old(self)@
            }),
    {
        self.structs.push(Struct { name: name.to_owned(), fields: Vec::new() });
        proof {
            assert(structs_view(self.structs@) =~~= old(self)@.structs.push(
                ContainerV { name: name@, entities: Seq::empty() },
            ));
        }
    }

    /// Append an enumeration container named `name` with no enumerants yet.
    pub fn add_enum(&mut self, name: &str)
        requires
            old(self).wf(),
        ensures
            final(self).wf(),
            final(self)@ == (ResultsV {
                enums: old(self)@.enums.push(ContainerV { name: name@, entities: Seq::empty() }),
                ..old(self)@
            }),
    {
        self.enums.push(Enum { name: name.to_owned(), enumerants: Vec::new() });
        proof {
            assert(enums_view(self.enums@) =~~= old(self)@.enums.push(
                ContainerV { name: name@, entities: Seq::empty() },
            ));
        }
    }

    /// Append an interface container named `name` with no methods yet.
    pub fn add_interface(&mut self, name: &str)
        requires
            old(self).wf(),
        ensures
            final(self).wf(),
            final(self)@ == (ResultsV {
                interfaces: old(self)@.interfaces.push(
                    ContainerV { name: name@, entities: Seq::empty() },
                ),
                ..old(self)@
            }),
    {
        self.interfaces.push(Interface { name: name.to_owned(), methods: Vec::new() });
        proof {
            assert(interfaces_view(self.interfaces@) =~~= old(self)@.interfaces.push(
                ContainerV { name: name@, entities: Seq::empty() },
            ));
        }
    }

    /// Record the display name of a node of unrecognized kind.
    pub fn add_unk(&mut self, name: &str)
        requires
            old(self).wf(),
        ensures
            final(self).wf(),
            final(self)@ == (ResultsV { unk: old(self)@.unk.push(name@), ..old(self)@ }),
    {
        self.unk.push(name.to_owned());
        proof {
            assert(names_seq_view(self.unk@) =~= old(self)@.unk.push(name@));
        }
    }
}

impl View for Results {
    type V = ResultsV;

    open spec fn view(&self) -> ResultsV {
        ResultsV {
            structs: structs_view(self.structs@),
            enums: enums_view(self.enums@),
            interfaces: interfaces_view(self.interfaces@),
            unk: names_seq_view(self.unk@),
        }
    }
}

} // verus!
