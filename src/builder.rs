//! The heap model builder: one pass over the decoded records of a dump fills
//! the entity tables, then the reference graph is derived from them.

use crate::model::{AnalysisClassInfo, HeapDump, InstanceInfo, ObjectArray, PrimitiveArray, Reference, Value};
use crate::multimap_index::{index_contents, index_insert, index_new};
use std::collections::HashMap;
use vstd::prelude::*;

verus! {

broadcast use vstd::std_specs::hash::group_hash_axioms;

/// A GC-root record, by kind.
#[derive(Clone, Copy, Debug, PartialEq, Eq, Structural)]
pub enum GcRoot {
    Unknown,
    ThreadObject { thread_object_id: u64 },
    JniGlobal { object_id: u64 },
    JniLocal { object_id: u64 },
    JavaFrame { object_id: u64 },
    NativeStack,
    StickyClass { object_id: u64 },
    ThreadBlock,
    MonitorUsed,
}

impl GcRoot {
    pub open spec fn spec_root_object(self) -> Option<u64> {
        match self {
            GcRoot::ThreadObject { thread_object_id } => Some(thread_object_id),
            GcRoot::JniGlobal { object_id } => Some(object_id),
            GcRoot::JniLocal { object_id } => Some(object_id),
            GcRoot::JavaFrame { object_id } => Some(object_id),
            GcRoot::StickyClass { object_id } => Some(object_id),
            _ => None,
        }
    }

    /// The object this root keeps alive; kinds without an object identity
    /// give `None`.
    pub fn root_object(&self) -> (r: Option<u64>)
        ensures
            r == self.spec_root_object(),
    {
        match self {
            GcRoot::ThreadObject { thread_object_id } => Some(*thread_object_id),
            GcRoot::JniGlobal { object_id } => Some(*object_id),
            GcRoot::JniLocal { object_id } => Some(*object_id),
            GcRoot::JavaFrame { object_id } => Some(*object_id),
            GcRoot::StickyClass { object_id } => Some(*object_id),
            _ => None,
        }
    }
}

/// One decoded record of a heap dump. Sub-records of heap-dump segments
/// appear in the sequence as records of their own, in stream order.
#[derive(Debug)]
pub enum Record {
    /// A string constant.
    Utf8 { id: u64, text: String },
    /// A class-load event, naming a class object.
    LoadClass { class_object_id: u64, class_name_id: u64 },
    /// A GC root.
    Root(GcRoot),
    /// A class dump.
    ClassDump { class_object_id: u64, super_class_object_id: u64, class_loader_object_id: u64 },
    /// An instance with its field values.
    InstanceDump { object_id: u64, class_object_id: u64, fields: Vec<Value> },
    /// An array of object references.
    ObjectArrayDump { array_object_id: u64, array_class_id: u64, elements: Vec<u64> },
    /// An array of primitive values.
    PrimitiveArrayDump { array_object_id: u64, values: Vec<Value> },
    /// A record the model does not use: one of another kind, or one that
    /// failed to decode. It is skipped.
    Other,
}

/// Why a record stream does not make a model.
#[derive(Clone, Copy, Debug, PartialEq, Eq, Structural)]
pub enum BuildError {
    /// A class dump came with no earlier load-class record for its class.
    MissingClassName { class_object_id: u64 },
}

/// The live object a record describes, if any.
pub open spec fn record_object(r: Record) -> Option<Reference> {
    match r {
        Record::InstanceDump { object_id, class_object_id, fields } => Some(
            Reference::Instance(InstanceInfo { class_object_id, object_id, fields }),
        ),
        Record::ObjectArrayDump { array_object_id, array_class_id, elements } => Some(
            Reference::ObjectArray(
                ObjectArray { class_object_id: array_class_id, object_id: array_object_id, values: elements },
            ),
        ),
        Record::PrimitiveArrayDump { array_object_id, values } => Some(
            Reference::PrimitiveArray(PrimitiveArray { object_id: array_object_id, values }),
        ),
        _ => None,
    }
}

/// The class and object identifiers of an instance or object-array record.
pub open spec fn declared_class(r: Record) -> Option<(u64, u64)> {
    match r {
        Record::InstanceDump { object_id, class_object_id, .. } => Some((class_object_id, object_id)),
        Record::ObjectArrayDump { array_object_id, array_class_id, .. } => Some(
            (array_class_id, array_object_id),
        ),
        _ => None,
    }
}

/// String constants defined by `rs`; a later definition of an id wins.
pub open spec fn names_of(rs: Seq<Record>) -> Map<u64, String>
    decreases rs.len(),
{
    if rs.len() == 0 {
        Map::empty()
    } else {
        let prev = names_of(rs.drop_last());
        match rs.last() {
            Record::Utf8 { id, text } => prev.insert(id, text),
            _ => prev,
        }
    }
}

/// Class object to class name, from the load-class records of `rs`.
pub open spec fn loaded_of(rs: Seq<Record>) -> Map<u64, u64>
    decreases rs.len(),
{
    if rs.len() == 0 {
        Map::empty()
    } else {
        let prev = loaded_of(rs.drop_last());
        match rs.last() {
            Record::LoadClass { class_object_id, class_name_id } => prev.insert(
                class_object_id,
                class_name_id,
            ),
            _ => prev,
        }
    }
}

/// The first class dump of `rs` whose class no earlier load-class record
/// names.
pub open spec fn missing_class_of(rs: Seq<Record>) -> Option<u64>
    decreases rs.len(),
{
    if rs.len() == 0 {
        None
    } else {
        match missing_class_of(rs.drop_last()) {
            Some(c) => Some(c),
            None => match rs.last() {
                Record::ClassDump { class_object_id, .. } => if loaded_of(rs.drop_last()).contains_key(
                    class_object_id,
                ) {
                    None
                } else {
                    Some(class_object_id)
                },
                _ => None,
            },
        }
    }
}

/// The classes of `rs`, each named through the load-class records before its
/// dump; a later dump of a class wins.
pub open spec fn classes_of(rs: Seq<Record>) -> Map<u64, AnalysisClassInfo>
    decreases rs.len(),
{
    if rs.len() == 0 {
        Map::empty()
    } else {
        let prev = classes_of(rs.drop_last());
        match rs.last() {
            Record::ClassDump { class_object_id, super_class_object_id, class_loader_object_id } => prev.insert(
                class_object_id,
                AnalysisClassInfo {
                    class_object_id,
                    class_name_id: loaded_of(rs.drop_last())[class_object_id],
                    super_class_object_id,
                    class_loader_object_id,
                },
            ),
            _ => prev,
        }
    }
}

/// The classes of `rs` in the order of their first dump.
pub open spec fn class_order_of(rs: Seq<Record>) -> Seq<u64>
    decreases rs.len(),
{
    if rs.len() == 0 {
        Seq::empty()
    } else {
        let prev = class_order_of(rs.drop_last());
        match rs.last() {
            Record::ClassDump { class_object_id, .. } => if classes_of(rs.drop_last()).contains_key(
                class_object_id,
            ) {
                prev
            } else {
                prev.push(class_object_id)
            },
            _ => prev,
        }
    }
}

/// The live objects of `rs` by identifier; a later dump of an id wins.
pub open spec fn objects_of(rs: Seq<Record>) -> Map<u64, Reference>
    decreases rs.len(),
{
    if rs.len() == 0 {
        Map::empty()
    } else {
        let prev = objects_of(rs.drop_last());
        match record_object(rs.last()) {
            Some(o) => prev.insert(o.spec_object_id(), o),
            None => prev,
        }
    }
}

/// The objects of `rs` in the order of their first dump.
pub open spec fn object_order_of(rs: Seq<Record>) -> Seq<u64>
    decreases rs.len(),
{
    if rs.len() == 0 {
        Seq::empty()
    } else {
        let prev = object_order_of(rs.drop_last());
        match record_object(rs.last()) {
            Some(o) => if objects_of(rs.drop_last()).contains_key(o.spec_object_id()) {
                prev
            } else {
                prev.push(o.spec_object_id())
            },
            None => prev,
        }
    }
}

/// For each class that an instance or object-array record of `rs` declares,
/// the identifiers of those records' objects, in stream order.
pub open spec fn index_of(rs: Seq<Record>) -> Map<u64, Seq<u64>>
    decreases rs.len(),
{
    if rs.len() == 0 {
        Map::empty()
    } else {
        let prev = index_of(rs.drop_last());
        match declared_class(rs.last()) {
            Some((c, o)) => if prev.contains_key(c) {
                prev.insert(c, prev[c].push(o))
            } else {
                prev.insert(c, seq![o])
            },
            None => prev,
        }
    }
}

/// The objects that the GC-root records of `rs` name, in stream order.
pub open spec fn roots_of(rs: Seq<Record>) -> Seq<u64>
    decreases rs.len(),
{
    if rs.len() == 0 {
        Seq::empty()
    } else {
        let prev = roots_of(rs.drop_last());
        match rs.last() {
            Record::Root(g) => match g.spec_root_object() {
                Some(o) => prev.push(o),
                None => prev,
            },
            _ => prev,
        }
    }
}

/// `h` holds exactly the tables that the records `rs` describe.
pub open spec fn built_from(h: HeapDump, rs: Seq<Record>) -> bool {
    &&& h.names@ == names_of(rs)
    &&& h.classes@ == classes_of(rs)
    &&& h.class_order@ == class_order_of(rs)
    &&& h.objects@ == objects_of(rs)
    &&& h.object_order@ == object_order_of(rs)
    &&& h.by_class() == index_of(rs)
    &&& h.roots@ == roots_of(rs)
}

/// Once a prefix of `rs` has a class dump without a name, so has `rs`, and it
/// is the same one.
pub proof fn lemma_missing_class_persists(rs: Seq<Record>, n: int)
    requires
        0 <= n <= rs.len(),
        missing_class_of(rs.take(n)) is Some,
    ensures
        missing_class_of(rs) == missing_class_of(rs.take(n)),
    decreases rs.len(),
{
    if n == rs.len() {
        assert(rs.take(n) =~= rs);
    } else {
        assert(rs.drop_last().take(n) =~= rs.take(n));
        lemma_missing_class_persists(rs.drop_last(), n);
    }
}

/// Builds the model of a dump from its decoded records, in stream order.
///
/// String definitions fill the name table, load-class records name class
/// objects, class dumps become classes, GC roots are collected, and instance
/// and array dumps become objects; instances and object arrays are also
/// indexed by their class. Other records, among them those that failed to
/// decode, are skipped. A class dump whose class no earlier load-class record
/// names fails the whole build with `MissingClassName`.
pub fn from_reader(id: u64, created_at_millis: u64, records: Vec<Record>) -> (r: Result<
    HeapDump,
    BuildError,
>)
    ensures
        match r {
            Ok(h) => {
                &&& missing_class_of(records@) is None
                &&& h.wf()
                &&& h.id == id
                &&& h.created_at_millis == created_at_millis
                &&& built_from(h, records@)
            },
            Err(BuildError::MissingClassName { class_object_id }) => missing_class_of(records@)
                == Some(class_object_id),
        },
{
    let ghost rs = records@;
    let mut loaded: HashMap<u64, u64> = HashMap::new();
    let mut names: HashMap<u64, String> = HashMap::new();
    let mut classes: HashMap<u64, AnalysisClassInfo> = HashMap::new();
    let mut class_order: Vec<u64> = Vec::new();
    let mut objects: HashMap<u64, Reference> = HashMap::new();
    let mut object_order: Vec<u64> = Vec::new();
    let mut by_class = index_new();
    let mut roots: Vec<u64> = Vec::new();
    proof {
        assert(rs.take(0) =~= Seq::<Record>::empty());
        assert(index_contents(by_class) =~= index_of(rs.take(0)));
    }
    for rec in it: records
        invariant
            it.seq() == rs,
            names@ == names_of(rs.take(it.index() as int)),
            loaded@ == loaded_of(rs.take(it.index() as int)),
            missing_class_of(rs.take(it.index() as int)) is None,
            classes@ == classes_of(rs.take(it.index() as int)),
            class_order@ == class_order_of(rs.take(it.index() as int)),
            objects@ == objects_of(rs.take(it.index() as int)),
            object_order@ == object_order_of(rs.take(it.index() as int)),
            index_contents(by_class) == index_of(rs.take(it.index() as int)),
            roots@ == roots_of(rs.take(it.index() as int)),
            forall|k: u64| #[trigger] objects@.contains_key(k) ==> objects@[k].spec_object_id() == k,
            forall|k: u64| #[trigger]
                classes@.contains_key(k) ==> classes@[k].class_object_id == k,
            class_order@.no_duplicates(),
            forall|k: u64| #[trigger] classes@.contains_key(k) <==> class_order@.contains(k),
            object_order@.no_duplicates(),
            forall|k: u64| #[trigger] objects@.contains_key(k) <==> object_order@.contains(k),
    {
        let ghost i = it.index() as int;
        let ghost prev = rs.take(i);
        proof {
            assert(rs.take(i + 1).drop_last() =~= prev);
            assert(rs.take(i + 1).last() == rs[i]);
        }
        match rec {
            Record::Utf8 { id, text } => {
                names.insert(id, text);
            },
            Record::LoadClass { class_object_id, class_name_id } => {
                loaded.insert(class_object_id, class_name_id);
            },
            Record::Root(g) => {
                match g.root_object() {
                    Some(o) => roots.push(o),
                    None => {},
                }
            },
            Record::ClassDump { class_object_id, super_class_object_id, class_loader_object_id } => {
                let class_name_id = match loaded.get(&class_object_id) {
                    Some(n) => *n,
                    None => {
                        proof {
                            lemma_missing_class_persists(rs, i + 1);
                        }
                        return Err(BuildError::MissingClassName { class_object_id });
                    },
                };
                if !classes.contains_key(&class_object_id) {
                    proof {
                        lemma_push_no_dup(class_order@, class_object_id);
                        crate::model::lemma_push_contains(class_order@, class_object_id);
                    }
                    class_order.push(class_object_id);
                }
                classes.insert(
                    class_object_id,
                    AnalysisClassInfo {
                        class_object_id,
                        class_name_id,
                        super_class_object_id,
                        class_loader_object_id,
                    },
                );
            },
            Record::InstanceDump { object_id, class_object_id, fields } => {
                add_object(
                    &mut objects,
                    &mut object_order,
                    Reference::Instance(InstanceInfo { class_object_id, object_id, fields }),
                );
                index_insert(&mut by_class, class_object_id, object_id);
            },
            Record::ObjectArrayDump { array_object_id, array_class_id, elements } => {
                add_object(
                    &mut objects,
                    &mut object_order,
                    Reference::ObjectArray(
                        ObjectArray {
                            class_object_id: array_class_id,
                            object_id: array_object_id,
                            values: elements,
                        },
                    ),
                );
                index_insert(&mut by_class, array_class_id, array_object_id);
            },
            Record::PrimitiveArrayDump { array_object_id, values } => {
                add_object(
                    &mut objects,
                    &mut object_order,
                    Reference::PrimitiveArray(
                        PrimitiveArray { object_id: array_object_id, values },
                    ),
                );
            },
            Record::Other => {},
        }
    }
    proof {
        assert(rs.take(rs.len() as int) =~= rs);
    }
    let h = HeapDump::new(
        id,
        created_at_millis,
        names,
        classes,
        class_order,
        objects,
        object_order,
        by_class,
        roots,
    );
    Ok(h)
}

/// Appending an element that `s` lacks keeps it free of duplicates.
proof fn lemma_push_no_dup(s: Seq<u64>, x: u64)
    requires
        s.no_duplicates(),
        !s.contains(x),
    ensures
        s.push(x).no_duplicates(),
{
    assert forall|a: int, b: int| 0 <= a < b < s.push(x).len() implies s.push(x)[a] != s.push(x)[b] by {
        if b == s.len() {
            assert(s[a] == s.push(x)[a]);
        }
    }
}

/// Stores `o` under its identifier, listing the identifier if it is new.
fn add_object(objects: &mut HashMap<u64, Reference>, order: &mut Vec<u64>, o: Reference)
    requires
        old(order)@.no_duplicates(),
        forall|k: u64| #[trigger] old(objects)@.contains_key(k) <==> old(order)@.contains(k),
        forall|k: u64| #[trigger]
            old(objects)@.contains_key(k) ==> old(objects)@[k].spec_object_id() == k,
    ensures
        final(objects)@ == old(objects)@.insert(o.spec_object_id(), o),
        final(order)@ == if old(objects)@.contains_key(o.spec_object_id()) {
            old(order)@
        } else {
            old(order)@.push(o.spec_object_id())
        },
        final(order)@.no_duplicates(),
        forall|k: u64| #[trigger] final(objects)@.contains_key(k) <==> final(order)@.contains(k),
        forall|k: u64| #[trigger]
            final(objects)@.contains_key(k) ==> final(objects)@[k].spec_object_id() == k,
{
    let oid = o.object_id();
    if !objects.contains_key(&oid) {
        proof {
            lemma_push_no_dup(order@, oid);
            crate::model::lemma_push_contains(order@, oid);
        }
        order.push(oid);
    }
    objects.insert(oid, o);
}

} // verus!
