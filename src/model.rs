//! The heap model: the entity tables built from one dump, and the reference
//! graph derived from them.

use crate::graph::{
    graph_add_edge, graph_add_node, graph_contains_edge, graph_contains_node, graph_edges,
    graph_nodes, graph_with_capacity, RefGraph,
};
use crate::multimap_index::{index_contents, ClassIndex};
use std::collections::HashMap;
use vstd::prelude::*;

verus! {

broadcast use vstd::std_specs::hash::group_hash_axioms;

/// The graph node that stands for every GC root at once. No captured object
/// carries this identifier.
pub const FAKE_ROOT_ID: u64 = 0xffff_ffff_ffff_ffff;

/// The loader identifier of classes loaded by the bootstrap loader.
pub const BOOTSTRAP_LOADER_ID: u64 = 0;

/// A field or array element as captured in the dump. Floating-point values are
/// kept as their IEEE-754 bit patterns.
#[derive(Clone, Copy, Debug, PartialEq, Eq, Structural)]
pub enum Value {
    Byte(i8),
    Char(u16),
    Short(i16),
    Float(u32),
    Double(u64),
    Int(i32),
    Long(i64),
    Boolean(bool),
    Object { object_id: u64 },
    Array { object_id: u64 },
}

/// The object a value refers to, if it is of reference kind.
pub open spec fn value_target(v: Value) -> Option<u64> {
    match v {
        Value::Object { object_id } => Some(object_id),
        Value::Array { object_id } => Some(object_id),
        _ => None,
    }
}

/// One loaded class.
#[derive(Clone, Copy, Debug, PartialEq, Eq, Structural)]
pub struct AnalysisClassInfo {
    pub class_object_id: u64,
    pub class_name_id: u64,
    pub super_class_object_id: u64,
    pub class_loader_object_id: u64,
}

/// A class instance with its field values in declaration order.
#[derive(Debug)]
pub struct InstanceInfo {
    pub class_object_id: u64,
    pub object_id: u64,
    pub fields: Vec<Value>,
}

/// An array of object references.
#[derive(Debug)]
pub struct ObjectArray {
    pub class_object_id: u64,
    pub object_id: u64,
    pub values: Vec<u64>,
}

/// An array of primitive values; it refers to no object.
#[derive(Debug)]
pub struct PrimitiveArray {
    pub object_id: u64,
    pub values: Vec<Value>,
}

impl PartialEq for InstanceInfo {
    fn eq(&self, other: &InstanceInfo) -> (r: bool) {
        self.object_id == other.object_id
    }
}

impl vstd::std_specs::cmp::PartialEqSpecImpl for InstanceInfo {
    open spec fn obeys_eq_spec() -> bool {
        true
    }

    open spec fn eq_spec(&self, other: &InstanceInfo) -> bool {
        self.object_id == other.object_id
    }
}

impl PartialEq for ObjectArray {
    fn eq(&self, other: &ObjectArray) -> (r: bool) {
        self.object_id == other.object_id
    }
}

impl vstd::std_specs::cmp::PartialEqSpecImpl for ObjectArray {
    open spec fn obeys_eq_spec() -> bool {
        true
    }

    open spec fn eq_spec(&self, other: &ObjectArray) -> bool {
        self.object_id == other.object_id
    }
}

impl PartialEq for PrimitiveArray {
    fn eq(&self, other: &PrimitiveArray) -> (r: bool) {
        self.object_id == other.object_id
    }
}

impl vstd::std_specs::cmp::PartialEqSpecImpl for PrimitiveArray {
    open spec fn obeys_eq_spec() -> bool {
        true
    }

    open spec fn eq_spec(&self, other: &PrimitiveArray) -> bool {
        self.object_id == other.object_id
    }
}

/// Identifiers in their natural order.
pub open spec fn id_order(a: u64, b: u64) -> Option<std::cmp::Ordering> {
    if a < b {
        Some(std::cmp::Ordering::Less)
    } else if a == b {
        Some(std::cmp::Ordering::Equal)
    } else {
        Some(std::cmp::Ordering::Greater)
    }
}

/// Compares two identifiers.
fn compare_ids(a: u64, b: u64) -> (r: Option<std::cmp::Ordering>)
    ensures
        r == id_order(a, b),
{
    if a < b {
        Some(std::cmp::Ordering::Less)
    } else if a == b {
        Some(std::cmp::Ordering::Equal)
    } else {
        Some(std::cmp::Ordering::Greater)
    }
}

impl Eq for InstanceInfo {}

impl PartialOrd for InstanceInfo {
    fn partial_cmp(&self, other: &InstanceInfo) -> (r: Option<std::cmp::Ordering>) {
        compare_ids(self.object_id, other.object_id)
    }
}

impl vstd::std_specs::cmp::PartialOrdSpecImpl for InstanceInfo {
    open spec fn obeys_partial_cmp_spec() -> bool {
        true
    }

    open spec fn partial_cmp_spec(&self, other: &InstanceInfo) -> Option<std::cmp::Ordering> {
        id_order(self.object_id, other.object_id)
    }
}

impl Eq for ObjectArray {}

impl PartialOrd for ObjectArray {
    fn partial_cmp(&self, other: &ObjectArray) -> (r: Option<std::cmp::Ordering>) {
        compare_ids(self.object_id, other.object_id)
    }
}

impl vstd::std_specs::cmp::PartialOrdSpecImpl for ObjectArray {
    open spec fn obeys_partial_cmp_spec() -> bool {
        true
    }

    open spec fn partial_cmp_spec(&self, other: &ObjectArray) -> Option<std::cmp::Ordering> {
        id_order(self.object_id, other.object_id)
    }
}

impl Eq for PrimitiveArray {}

impl PartialOrd for PrimitiveArray {
    fn partial_cmp(&self, other: &PrimitiveArray) -> (r: Option<std::cmp::Ordering>) {
        compare_ids(self.object_id, other.object_id)
    }
}

impl vstd::std_specs::cmp::PartialOrdSpecImpl for PrimitiveArray {
    open spec fn obeys_partial_cmp_spec() -> bool {
        true
    }

    open spec fn partial_cmp_spec(&self, other: &PrimitiveArray) -> Option<std::cmp::Ordering> {
        id_order(self.object_id, other.object_id)
    }
}

/// A live object of the dump.
#[derive(Debug)]
pub enum Reference {
    Instance(InstanceInfo),
    ObjectArray(ObjectArray),
    PrimitiveArray(PrimitiveArray),
}

impl Reference {
    pub open spec fn spec_object_id(self) -> u64 {
        match self {
            Reference::Instance(i) => i.object_id,
            Reference::ObjectArray(a) => a.object_id,
            Reference::PrimitiveArray(p) => p.object_id,
        }
    }

    /// The identifier of the object.
    pub fn object_id(&self) -> (r: u64)
        ensures
            r == self.spec_object_id(),
    {
        match self {
            Reference::Instance(i) => i.object_id,
            Reference::ObjectArray(a) => a.object_id,
            Reference::PrimitiveArray(p) => p.object_id,
        }
    }
}

/// Objects of the same kind with the same identifier are equal, whatever
/// their contents.
impl PartialEq for Reference {
    fn eq(&self, other: &Reference) -> (r: bool) {
        match (self, other) {
            (Reference::Instance(a), Reference::Instance(b)) => a.object_id == b.object_id,
            (Reference::ObjectArray(a), Reference::ObjectArray(b)) => a.object_id == b.object_id,
            (Reference::PrimitiveArray(a), Reference::PrimitiveArray(b)) => a.object_id
                == b.object_id,
            _ => false,
        }
    }
}

impl vstd::std_specs::cmp::PartialEqSpecImpl for Reference {
    open spec fn obeys_eq_spec() -> bool {
        true
    }

    open spec fn eq_spec(&self, other: &Reference) -> bool {
        match (*self, *other) {
            (Reference::Instance(a), Reference::Instance(b)) => a.object_id == b.object_id,
            (Reference::ObjectArray(a), Reference::ObjectArray(b)) => a.object_id == b.object_id,
            (Reference::PrimitiveArray(a), Reference::PrimitiveArray(b)) => a.object_id
                == b.object_id,
            _ => false,
        }
    }
}

impl Eq for Reference {}

/// Object `r` holds a reference to `t`: a field of reference kind of an
/// instance, or an element of an object array.
pub open spec fn refers_to(r: Reference, t: u64) -> bool {
    match r {
        Reference::Instance(i) => exists|k: int|
            0 <= k < i.fields@.len() && value_target(#[trigger] i.fields@[k]) == Some(t),
        Reference::ObjectArray(a) => a.values@.contains(t),
        Reference::PrimitiveArray(_) => false,
    }
}

/// The edges of the reference graph of `objects` with GC roots `roots`: one
/// per reference held by an object, and one from the fake root to each root;
/// only towards objects that the table holds.
pub open spec fn expected_edges(objects: Map<u64, Reference>, roots: Seq<u64>) -> Set<(u64, u64)> {
    Set::new(
        |e: (u64, u64)|
            objects.contains_key(e.1) && ((objects.contains_key(e.0) && refers_to(objects[e.0], e.1))
                || (e.0 == FAKE_ROOT_ID && roots.contains(e.1))),
    )
}

/// The model of one heap dump. It is built once and not changed afterwards.
pub struct HeapDump {
    /// Identity of this model, chosen by whoever built it.
    pub id: u64,
    /// Capture time, in milliseconds since the Unix epoch.
    pub created_at_millis: u64,
    /// String constants by identifier.
    pub names: HashMap<u64, String>,
    /// Loaded classes by class object identifier.
    pub classes: HashMap<u64, AnalysisClassInfo>,
    /// The class identifiers, in the order of their first class dump.
    pub class_order: Vec<u64>,
    /// Live objects by identifier.
    pub objects: HashMap<u64, Reference>,
    /// The object identifiers, in the order of their first dump.
    pub object_order: Vec<u64>,
    /// The instances and object arrays of each class, by identifier.
    pub objects_by_class: ClassIndex,
    /// The GC roots, in the order they were reported.
    pub roots: Vec<u64>,
    /// Who refers to whom, plus the fake root's edges to the GC roots.
    pub object_graph: RefGraph,
}

impl PartialEq for HeapDump {
    fn eq(&self, other: &HeapDump) -> (r: bool) {
        self.id == other.id
    }
}

impl vstd::std_specs::cmp::PartialEqSpecImpl for HeapDump {
    open spec fn obeys_eq_spec() -> bool {
        true
    }

    open spec fn eq_spec(&self, other: &HeapDump) -> bool {
        self.id == other.id
    }
}

impl HeapDump {
    /// The class index, as a map from class to object identifiers.
    pub open spec fn by_class(&self) -> Map<u64, Seq<u64>> {
        index_contents(self.objects_by_class)
    }

    /// Tables keyed by their entities' own identifiers, orders that list each
    /// key once, and the graph that the tables and roots determine.
    pub open spec fn wf(&self) -> bool {
        &&& forall|k: u64| #[trigger]
            self.objects@.contains_key(k) ==> self.objects@[k].spec_object_id() == k
        &&& forall|k: u64| #[trigger]
            self.classes@.contains_key(k) ==> self.classes@[k].class_object_id == k
        &&& self.class_order@.no_duplicates()
        &&& forall|k: u64| #[trigger]
            self.classes@.contains_key(k) <==> self.class_order@.contains(k)
        &&& self.object_order@.no_duplicates()
        &&& forall|k: u64| #[trigger]
            self.objects@.contains_key(k) <==> self.object_order@.contains(k)
        &&& graph_nodes(self.object_graph) == self.objects@.dom().insert(FAKE_ROOT_ID)
        &&& graph_edges(self.object_graph) == expected_edges(self.objects@, self.roots@)
    }
}

/// The edges from the objects listed in `sources` (see `expected_edges`).
pub open spec fn edges_from(objects: Map<u64, Reference>, sources: Seq<u64>) -> Set<(u64, u64)> {
    Set::new(
        |e: (u64, u64)|
            sources.contains(e.0) && objects.contains_key(e.0) && objects.contains_key(e.1)
                && refers_to(objects[e.0], e.1),
    )
}

/// The edges from the fake root to the roots listed in `roots` that `objects` holds.
pub open spec fn root_edges(objects: Map<u64, Reference>, roots: Seq<u64>) -> Set<(u64, u64)> {
    Set::new(|e: (u64, u64)| e.0 == FAKE_ROOT_ID && roots.contains(e.1) && objects.contains_key(e.1))
}

/// What `s.push(x)` contains: what `s` does, and `x`.
pub(crate) proof fn lemma_push_contains<A>(s: Seq<A>, x: A)
    ensures
        forall|y: A| #[trigger] s.push(x).contains(y) <==> s.contains(y) || y == x,
{
    assert forall|y: A| #[trigger] s.push(x).contains(y) <==> s.contains(y) || y == x by {
        if s.contains(y) {
            let k = choose|k: int| 0 <= k < s.len() && s[k] == y;
            assert(s.push(x)[k] == y);
        }
        if s.push(x).contains(y) && y != x {
            let k = choose|k: int| 0 <= k < s.push(x).len() && s.push(x)[k] == y;
            assert(s[k] == y);
        }
        if y == x {
            assert(s.push(x)[s.len() as int] == y);
        }
    }
}

/// Graph nodes only grow, and only by objects of `objects`.
pub open spec fn nodes_grow_within(
    before: Set<u64>,
    after: Set<u64>,
    objects: Map<u64, Reference>,
) -> bool {
    &&& before.subset_of(after)
    &&& forall|n: u64| #[trigger] after.contains(n) ==> before.contains(n) || objects.contains_key(n)
}

/// The edges from `from` to the objects of `objects` named by `fields`.
pub open spec fn field_edges(objects: Map<u64, Reference>, from: u64, fields: Seq<Value>) -> Set<
    (u64, u64),
> {
    Set::new(
        |e: (u64, u64)|
            e.0 == from && objects.contains_key(e.1) && exists|k: int|
                0 <= k < fields.len() && value_target(#[trigger] fields[k]) == Some(e.1),
    )
}

/// The edges from `from` to the objects of `objects` listed in `values`.
pub open spec fn element_edges(objects: Map<u64, Reference>, from: u64, values: Seq<u64>) -> Set<
    (u64, u64),
> {
    Set::new(|e: (u64, u64)| e.0 == from && objects.contains_key(e.1) && values.contains(e.1))
}

/// Adds an edge from `from` to each object of `objects` that a value of
/// `fields` of reference kind names; references to other ids are dropped.
fn add_field_edges(g: &mut RefGraph, objects: &HashMap<u64, Reference>, from: u64, fields: &Vec<Value>)
    requires
        graph_nodes(*old(g)).contains(from),
    ensures
        nodes_grow_within(graph_nodes(*old(g)), graph_nodes(*final(g)), objects@),
        graph_edges(*final(g)) == graph_edges(*old(g)).union(field_edges(objects@, from, fields@)),
{
    let ghost g0 = *g;
    let mut j: usize = 0;
    assert(field_edges(objects@, from, fields@.take(0)) =~= Set::empty());
    assert(graph_edges(*g) =~= graph_edges(g0).union(field_edges(objects@, from, fields@.take(0))));
    while j < fields.len()
        invariant
            j <= fields.len(),
            graph_nodes(*g).contains(from),
            nodes_grow_within(graph_nodes(g0), graph_nodes(*g), objects@),
            graph_edges(*g) == graph_edges(g0).union(
                field_edges(objects@, from, fields@.take(j as int)),
            ),
        decreases fields.len() - j,
    {
        let ghost before = graph_edges(*g);
        let ghost prev = fields@.take(j as int);
        let target = match fields[j] {
            Value::Object { object_id } => Some(object_id),
            Value::Array { object_id } => Some(object_id),
            _ => None,
        };
        match target {
            Some(t) => {
                if objects.contains_key(&t) {
                    graph_add_edge(g, from, t);
                }
            },
            None => {},
        }
        proof {
            let next = fields@.take(j + 1);
            assert(next == prev.push(fields@[j as int]));
            assert(target == value_target(fields@[j as int]));
            assert forall|e: (u64, u64)|
                field_edges(objects@, from, next).contains(e) implies graph_edges(*g).contains(e) by {
                let k = choose|k: int| 0 <= k < next.len() && value_target(#[trigger] next[k]) == Some(e.1);
                if k < j {
                    assert(prev[k] == next[k]);
                    assert(field_edges(objects@, from, prev).contains(e));
                }
            }
            assert forall|e: (u64, u64)|
                field_edges(objects@, from, prev).contains(e) implies field_edges(objects@, from, next).contains(e) by {
                let k = choose|k: int| 0 <= k < prev.len() && value_target(#[trigger] prev[k]) == Some(e.1);
                assert(prev[k] == next[k]);
            }
            if let Some(t) = target {
                if objects@.contains_key(t) {
                    assert(value_target(next[j as int]) == Some(t));
                    assert(field_edges(objects@, from, next).contains((from, t)));
                }
            }
            assert(graph_edges(*g) =~= graph_edges(g0).union(field_edges(objects@, from, next)));
        }
        j += 1;
    }
    assert(fields@.take(j as int) =~= fields@);
}

/// Adds an edge from `from` to each element of `values` that `objects` holds.
fn add_element_edges(g: &mut RefGraph, objects: &HashMap<u64, Reference>, from: u64, values: &Vec<u64>)
    requires
        graph_nodes(*old(g)).contains(from),
    ensures
        nodes_grow_within(graph_nodes(*old(g)), graph_nodes(*final(g)), objects@),
        graph_edges(*final(g)) == graph_edges(*old(g)).union(element_edges(objects@, from, values@)),
{
    let ghost g0 = *g;
    let mut j: usize = 0;
    assert(element_edges(objects@, from, values@.take(0)) =~= Set::empty());
    assert(graph_edges(*g) =~= graph_edges(g0).union(element_edges(objects@, from, values@.take(0))));
    while j < values.len()
        invariant
            j <= values.len(),
            graph_nodes(*g).contains(from),
            nodes_grow_within(graph_nodes(g0), graph_nodes(*g), objects@),
            graph_edges(*g) == graph_edges(g0).union(
                element_edges(objects@, from, values@.take(j as int)),
            ),
        decreases values.len() - j,
    {
        let ghost prev = values@.take(j as int);
        let t = values[j];
        if objects.contains_key(&t) {
            graph_add_edge(g, from, t);
        }
        proof {
            let next = values@.take(j + 1);
            assert(next == prev.push(t));
            lemma_push_contains(prev, t);
            assert(graph_edges(*g) =~= graph_edges(g0).union(element_edges(objects@, from, next)));
        }
        j += 1;
    }
    assert(values@.take(j as int) =~= values@);
}

impl HeapDump {
    /// Whether `n` is a node of the reference graph: a live object, or the
    /// fake root.
    pub fn has_node(&self, n: u64) -> (r: bool)
        requires
            self.wf(),
        ensures
            r == (n == FAKE_ROOT_ID || self.objects@.contains_key(n)),
    {
        graph_contains_node(&self.object_graph, n)
    }

    /// Whether the reference graph has an edge from `a` to `b`.
    pub fn has_edge(&self, a: u64, b: u64) -> (r: bool)
        requires
            self.wf(),
        ensures
            r == expected_edges(self.objects@, self.roots@).contains((a, b)),
    {
        graph_contains_edge(&self.object_graph, a, b)
    }

    /// Assembles a model from its tables and derives the reference graph: an
    /// edge for each reference held by an instance or object array, and one
    /// from the fake root to each GC root, each only towards an object that
    /// the table holds.
    pub(crate) fn new(
        id: u64,
        created_at_millis: u64,
        names: HashMap<u64, String>,
        classes: HashMap<u64, AnalysisClassInfo>,
        class_order: Vec<u64>,
        objects: HashMap<u64, Reference>,
        object_order: Vec<u64>,
        objects_by_class: ClassIndex,
        roots: Vec<u64>,
    ) -> (r: HeapDump)
        requires
            forall|k: u64| #[trigger] objects@.contains_key(k) ==> objects@[k].spec_object_id() == k,
            forall|k: u64| #[trigger]
                classes@.contains_key(k) ==> classes@[k].class_object_id == k,
            class_order@.no_duplicates(),
            forall|k: u64| #[trigger] classes@.contains_key(k) <==> class_order@.contains(k),
            object_order@.no_duplicates(),
            forall|k: u64| #[trigger] objects@.contains_key(k) <==> object_order@.contains(k),
        ensures
            r.wf(),
            r.id == id,
            r.created_at_millis == created_at_millis,
            r.names == names,
            r.classes == classes,
            r.class_order == class_order,
            r.objects == objects,
            r.object_order == object_order,
            r.objects_by_class == objects_by_class,
            r.roots == roots,
    {
        let n = objects.len();
        let edge_hint = if n <= usize::MAX / 2 {
            n * 2
        } else {
            n
        };
        let mut g = graph_with_capacity(n, edge_hint);
        graph_add_node(&mut g, FAKE_ROOT_ID);
        let mut i: usize = 0;
        while i < object_order.len()
            invariant
                i <= object_order.len(),
                forall|k: u64| #[trigger] objects@.contains_key(k) <==> object_order@.contains(k),
                graph_nodes(g).contains(FAKE_ROOT_ID),
                forall|k: u64| #[trigger]
                    object_order@.take(i as int).contains(k) ==> graph_nodes(g).contains(k),
                forall|k: u64| #[trigger]
                    graph_nodes(g).contains(k) ==> k == FAKE_ROOT_ID || objects@.contains_key(k),
                graph_edges(g) == edges_from(objects@, object_order@.take(i as int)),
            decreases object_order.len() - i,
        {
            let oid = object_order[i];
            let ghost before = graph_edges(g);
            graph_add_node(&mut g, oid);
            assert(object_order@.contains(oid));
            let ghost obj = objects@[oid];
            match objects.get(&oid) {
                Some(Reference::Instance(inst)) => {
                    add_field_edges(&mut g, &objects, oid, &inst.fields);
                },
                Some(Reference::ObjectArray(arr)) => {
                    add_element_edges(&mut g, &objects, oid, &arr.values);
                },
                _ => {},
            }
            proof {
                let prefix = object_order@.take(i as int);
                let next = object_order@.take(i + 1);
                assert(next == prefix.push(oid));
                lemma_push_contains(prefix, oid);
                assert forall|k: u64| #[trigger] next.contains(k) implies graph_nodes(g).contains(k) by {
                    if k != oid {
                        assert(prefix.contains(k));
                    }
                }
                assert forall|e: (u64, u64)|
                    edges_from(objects@, next).contains(e) <==> #[trigger] graph_edges(g).contains(e) by {
                    if e.0 == oid && objects@.contains_key(e.1) {
                        match obj {
                            Reference::Instance(inst) => {
                                assert(refers_to(obj, e.1) <==> field_edges(objects@, oid, inst.fields@).contains(e));
                            },
                            Reference::ObjectArray(arr) => {
                                assert(refers_to(obj, e.1) <==> element_edges(objects@, oid, arr.values@).contains(e));
                            },
                            Reference::PrimitiveArray(_) => {},
                        }
                    }
                    if e.0 != oid && edges_from(objects@, next).contains(e) {
                        assert(prefix.contains(e.0));
                    }
                }
                assert(graph_edges(g) =~= edges_from(objects@, next));
            }
            i += 1;
        }
        proof {
            assert(object_order@.take(i as int) =~= object_order@);
            assert(root_edges(objects@, roots@.take(0)) =~= Set::empty());
            assert(graph_edges(g) =~= edges_from(objects@, object_order@).union(
                root_edges(objects@, roots@.take(0)),
            ));
        }
        let mut j: usize = 0;
        while j < roots.len()
            invariant
                j <= roots.len(),
                graph_nodes(g).contains(FAKE_ROOT_ID),
                forall|k: u64| #[trigger] objects@.contains_key(k) ==> graph_nodes(g).contains(k),
                forall|k: u64| #[trigger]
                    graph_nodes(g).contains(k) ==> k == FAKE_ROOT_ID || objects@.contains_key(k),
                graph_edges(g) == edges_from(objects@, object_order@).union(
                    root_edges(objects@, roots@.take(j as int)),
                ),
            decreases roots.len() - j,
        {
            let root = roots[j];
            if objects.contains_key(&root) {
                graph_add_edge(&mut g, FAKE_ROOT_ID, root);
            }
            proof {
                assert(roots@.take(j + 1) == roots@.take(j as int).push(root));
                lemma_push_contains(roots@.take(j as int), root);
                assert forall|e: (u64, u64)|
                    root_edges(objects@, roots@.take(j + 1)).contains(e) implies #[trigger] graph_edges(g).contains(e) by {
                    if e.1 != root {
                        assert(roots@.take(j as int).contains(e.1));
                    }
                }
                assert(graph_edges(g) =~= edges_from(objects@, object_order@).union(
                    root_edges(objects@, roots@.take(j + 1)),
                ));
            }
            j += 1;
        }
        proof {
            assert(roots@.take(j as int) == roots@);
            assert(graph_nodes(g) =~= objects@.dom().insert(FAKE_ROOT_ID));
            assert(graph_edges(g) =~= expected_edges(objects@, roots@));
        }
        HeapDump {
            id,
            created_at_millis,
            names,
            classes,
            class_order,
            objects,
            object_order,
            objects_by_class,
            roots,
            object_graph: g,
        }
    }
}

} // verus!
