//! Properties of the model that hold for every dump.

use crate::builder::{declared_class, index_of, Record};
use crate::graph::{graph_edges, graph_nodes};
use crate::leaks::leaks_of;
use crate::model::{expected_edges, value_target, HeapDump, FAKE_ROOT_ID};
use vstd::prelude::*;

verus! {

/// Every object of the model is a node of the reference graph, and every
/// field of reference kind of an instance gives an edge from the instance to
/// the object it names, whenever the model holds that object.
pub proof fn law_graph_covers_objects(h: HeapDump)
    requires
        h.wf(),
    ensures
        forall|o: u64| #[trigger]
            h.objects@.contains_key(o) ==> graph_nodes(h.object_graph).contains(o),
        forall|o: u64, k: int|
            h.objects@.contains_key(o) && h.objects@[o] is Instance && 0 <= k
                < h.objects@[o]->Instance_0.fields@.len() && value_target(
                #[trigger] h.objects@[o]->Instance_0.fields@[k],
            ) is Some && h.objects@.contains_key(
                value_target(h.objects@[o]->Instance_0.fields@[k])->Some_0,
            ) ==> graph_edges(h.object_graph).contains(
                (o, value_target(h.objects@[o]->Instance_0.fields@[k])->Some_0),
            ),
{
    assert forall|o: u64, k: int|
        h.objects@.contains_key(o) && h.objects@[o] is Instance && 0 <= k
            < h.objects@[o]->Instance_0.fields@.len() && value_target(
            #[trigger] h.objects@[o]->Instance_0.fields@[k],
        ) is Some && h.objects@.contains_key(
            value_target(h.objects@[o]->Instance_0.fields@[k])->Some_0,
        ) implies graph_edges(h.object_graph).contains(
        (o, value_target(h.objects@[o]->Instance_0.fields@[k])->Some_0),
    ) by {
        let t = value_target(h.objects@[o]->Instance_0.fields@[k])->Some_0;
        assert(expected_edges(h.objects@, h.roots@).contains((o, t)));
    }
}

/// The fake root has an edge to each GC root that the model holds, and to
/// nothing else. The edges form a set, so a root reported several times, by
/// one kind of root record or by several, has its edge once.
pub proof fn law_root_edges(h: HeapDump)
    requires
        h.wf(),
        !h.objects@.contains_key(FAKE_ROOT_ID),
    ensures
        forall|r: u64| #[trigger]
            graph_edges(h.object_graph).contains((FAKE_ROOT_ID, r)) <==> (h.roots@.contains(r)
                && h.objects@.contains_key(r)),
{
    assert forall|r: u64| #[trigger]
        graph_edges(h.object_graph).contains((FAKE_ROOT_ID, r)) <==> (h.roots@.contains(r)
            && h.objects@.contains_key(r)) by {
        assert(expected_edges(h.objects@, h.roots@).contains((FAKE_ROOT_ID, r)) <==> (
        h.roots@.contains(r) && h.objects@.contains_key(r)));
    }
}

/// The leak analysis depends on the model and the class name alone: two runs
/// on the same model give the same leaking instances, in the same order.
pub proof fn law_leak_analysis_repeatable(
    h: HeapDump,
    target: Seq<char>,
    first: Seq<u64>,
    second: Seq<u64>,
)
    requires
        h.wf(),
        first == leaks_of(h, target),
        second == leaks_of(h, target),
    ensures
        first == second,
        first.to_set() == second.to_set(),
{
}

/// How many instance and object-array records of `rs` declare class `c`.
pub open spec fn declared_count(rs: Seq<Record>, c: u64) -> nat
    decreases rs.len(),
{
    if rs.len() == 0 {
        0
    } else {
        declared_count(rs.drop_last(), c) + match declared_class(rs.last()) {
            Some((k, _)) => if k == c {
                1nat
            } else {
                0nat
            },
            None => 0nat,
        }
    }
}

/// The class index lists under each class exactly as many objects as there
/// are instance and object-array records declaring that class, wherever the
/// class's own dump stands in the stream, or whether there is one.
pub proof fn law_instance_count(rs: Seq<Record>, c: u64)
    ensures
        (if index_of(rs).contains_key(c) {
            index_of(rs)[c].len()
        } else {
            0
        }) == declared_count(rs, c),
    decreases rs.len(),
{
    if rs.len() > 0 {
        law_instance_count(rs.drop_last(), c);
    }
}

} // verus!
