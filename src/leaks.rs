//! The leak analyzer: instances of a watched class that no path from the GC
//! roots reaches through a trusted holder.

use crate::classify::{class_has_name, has_name};
use crate::graph::{graph_edges, graph_simple_paths, holds_path, is_simple_path};
use crate::model::{
    expected_edges, AnalysisClassInfo, HeapDump, InstanceInfo, Reference, BOOTSTRAP_LOADER_ID,
    FAKE_ROOT_ID,
};
use crate::multimap_index::index_get;
use std::collections::HashMap;
use vstd::prelude::*;

verus! {

broadcast use vstd::std_specs::hash::group_hash_axioms;

/// The class whose live instances the analyzer watches by default.
pub const CRAFT_PLAYER_CLASS: &'static str = "org/bukkit/craftbukkit/entity/CraftPlayer";

/// Object `n` is an instance whose class is loaded, and not by the bootstrap
/// loader. Object arrays are never trusted holders.
pub open spec fn is_trusted(objects: Map<u64, Reference>, classes: Map<u64, AnalysisClassInfo>, n: u64) -> bool {
    &&& objects.contains_key(n)
    &&& objects[n] matches Reference::Instance(i)
    &&& classes.contains_key(i.class_object_id)
    &&& classes[i.class_object_id].class_loader_object_id != BOOTSTRAP_LOADER_ID
}

/// Some node of `p` other than its two ends is a trusted holder.
pub open spec fn passes_trusted(h: HeapDump, p: Seq<u64>) -> bool {
    exists|i: int| 0 < i < p.len() - 1 && #[trigger] is_trusted(h.objects@, h.classes@, p[i])
}

/// `x` is a live instance, and no simple path from the fake root to it passes
/// through a trusted holder.
pub open spec fn is_leaking(h: HeapDump, x: u64) -> bool {
    &&& x != FAKE_ROOT_ID
    &&& h.objects@.contains_key(x)
    &&& h.objects@[x] is Instance
    &&& !exists|p: Seq<u64>|
        #[trigger] is_simple_path(expected_edges(h.objects@, h.roots@), p, FAKE_ROOT_ID, x)
            && passes_trusted(h, p)
}

/// The leaking objects among `xs`, in their order.
pub open spec fn leaking_among(h: HeapDump, xs: Seq<u64>) -> Seq<u64>
    decreases xs.len(),
{
    if xs.len() == 0 {
        Seq::empty()
    } else {
        let prev = leaking_among(h, xs.drop_last());
        if is_leaking(h, xs.last()) {
            prev.push(xs.last())
        } else {
            prev
        }
    }
}

/// The first class of `order` named `target`.
pub open spec fn first_named(h: HeapDump, order: Seq<u64>, target: Seq<char>) -> Option<u64>
    decreases order.len(),
{
    if order.len() == 0 {
        None
    } else if has_name(h.classes@, h.names@, order[0], target) {
        Some(order[0])
    } else {
        first_named(h, order.drop_first(), target)
    }
}

/// The watched class: the first class, in order of class dumps, named
/// `target`.
pub open spec fn target_class(h: HeapDump, target: Seq<char>) -> Option<u64> {
    first_named(h, h.class_order@, target)
}

/// The leaking instances of the class named `target`: none if no class has
/// that name.
pub open spec fn leaks_of(h: HeapDump, target: Seq<char>) -> Seq<u64> {
    match target_class(h, target) {
        Some(c) => if h.by_class().contains_key(c) {
            leaking_among(h, h.by_class()[c])
        } else {
            Seq::empty()
        },
        None => Seq::empty(),
    }
}

/// Whether the class of `instance_info` is loaded by a loader other than the
/// bootstrap one.
pub fn is_loaded_by_mc(instance_info: &InstanceInfo, heap_dump: &HeapDump) -> (r: bool)
    ensures
        r == (heap_dump.classes@.contains_key(instance_info.class_object_id)
            && heap_dump.classes@[instance_info.class_object_id].class_loader_object_id
            != BOOTSTRAP_LOADER_ID),
{
    match heap_dump.classes.get(&instance_info.class_object_id) {
        Some(c) => c.class_loader_object_id != BOOTSTRAP_LOADER_ID,
        None => false,
    }
}

/// Whether object `n` is a trusted holder.
pub fn is_trusted_holder(heap_dump: &HeapDump, n: u64) -> (r: bool)
    ensures
        r == is_trusted(heap_dump.objects@, heap_dump.classes@, n),
{
    match heap_dump.objects.get(&n) {
        Some(Reference::Instance(inst)) => is_loaded_by_mc(inst, heap_dump),
        _ => false,
    }
}

/// Whether a node of `path` other than its ends is a trusted holder.
pub fn path_passes_trusted(heap_dump: &HeapDump, path: &Vec<u64>) -> (r: bool)
    ensures
        r == passes_trusted(*heap_dump, path@),
{
    if path.len() < 2 {
        return false;
    }
    let last = path.len() - 1;
    let mut i: usize = 1;
    while i < last
        invariant
            1 <= i <= last,
            last == path.len() - 1,
            forall|j: int| 0 < j < i ==> !is_trusted(heap_dump.objects@, heap_dump.classes@, #[trigger] path@[j]),
        decreases last - i,
    {
        if is_trusted_holder(heap_dump, path[i]) {
            return true;
        }
        i += 1;
    }
    false
}

/// Whether object `x` is a leaking instance: a live instance that no simple
/// path from the GC roots reaches through a trusted holder.
pub fn is_leaking_instance(heap_dump: &HeapDump, x: u64) -> (r: bool)
    requires
        heap_dump.wf(),
    ensures
        r == is_leaking(*heap_dump, x),
{
    if x == FAKE_ROOT_ID {
        return false;
    }
    match heap_dump.objects.get(&x) {
        Some(Reference::Instance(_)) => {},
        _ => {
            return false;
        },
    }
    let paths = graph_simple_paths(&heap_dump.object_graph, FAKE_ROOT_ID, x);
    assert(graph_edges(heap_dump.object_graph) == expected_edges(heap_dump.objects@, heap_dump.roots@));
    let mut i: usize = 0;
    while i < paths.len()
        invariant
            i <= paths.len(),
            forall|j: int| 0 <= j < i ==> !passes_trusted(*heap_dump, #[trigger] paths@[j]@),
            forall|p: Seq<u64>|
                #[trigger] holds_path(paths@, p) <==> (is_simple_path(
                    expected_edges(heap_dump.objects@, heap_dump.roots@),
                    p,
                    FAKE_ROOT_ID,
                    x,
                ) && p.len() >= 3),
        decreases paths.len() - i,
    {
        if path_passes_trusted(heap_dump, &paths[i]) {
            proof {
                assert(holds_path(paths@, paths@[i as int]@));
                assert(is_simple_path(
                    expected_edges(heap_dump.objects@, heap_dump.roots@),
                    paths@[i as int]@,
                    FAKE_ROOT_ID,
                    x,
                ));
            }
            return false;
        }
        i += 1;
    }
    proof {
        assert forall|p: Seq<u64>|
            !(#[trigger] is_simple_path(expected_edges(heap_dump.objects@, heap_dump.roots@), p, FAKE_ROOT_ID, x)
                && passes_trusted(*heap_dump, p)) by {
            if is_simple_path(expected_edges(heap_dump.objects@, heap_dump.roots@), p, FAKE_ROOT_ID, x)
                && passes_trusted(*heap_dump, p) {
                assert(p.len() >= 3);
                assert(holds_path(paths@, p));
                let j = choose|j: int| 0 <= j < paths@.len() && #[trigger] paths@[j]@ == p;
                assert(!passes_trusted(*heap_dump, paths@[j]@));
            }
        }
    }
    true
}

/// The first class, in order of class dumps, named `target`.
pub fn find_class(heap_dump: &HeapDump, target: &String) -> (r: Option<u64>)
    ensures
        r == target_class(*heap_dump, target@),
{
    let order = &heap_dump.class_order;
    let mut i: usize = 0;
    assert(order@.skip(0) =~= order@);
    while i < order.len()
        invariant
            i <= order.len(),
            order@ == heap_dump.class_order@,
            first_named(*heap_dump, order@, target@) == first_named(*heap_dump, order@.skip(i as int), target@),
        decreases order.len() - i,
    {
        let c = order[i];
        proof {
            assert(order@.skip(i as int)[0] == c);
            assert(order@.skip(i as int).drop_first() =~= order@.skip(i + 1));
        }
        match heap_dump.classes.get(&c) {
            Some(info) => {
                if class_has_name(&heap_dump.names, info, target) {
                    assert(has_name(heap_dump.classes@, heap_dump.names@, c, target@));
                    return Some(c);
                }
            },
            None => {},
        }
        i += 1;
    }
    proof {
        assert(order@.skip(i as int).len() == 0);
    }
    None
}

/// The leaking instances of the class named `target`, in the order the class
/// index lists them; empty when no class has that name.
pub fn leaking_instances(heap_dump: &HeapDump, target: &String) -> (r: Vec<u64>)
    requires
        heap_dump.wf(),
    ensures
        r@ == leaks_of(*heap_dump, target@),
{
    let mut leaks: Vec<u64> = Vec::new();
    let c = match find_class(heap_dump, target) {
        Some(c) => c,
        None => {
            return leaks;
        },
    };
    let candidates = match index_get(&heap_dump.objects_by_class, c) {
        Some(v) => v,
        None => {
            return leaks;
        },
    };
    let mut i: usize = 0;
    while i < candidates.len()
        invariant
            i <= candidates.len(),
            heap_dump.wf(),
            leaks@ == leaking_among(*heap_dump, candidates@.take(i as int)),
        decreases candidates.len() - i,
    {
        let x = candidates[i];
        proof {
            assert(candidates@.take(i + 1).drop_last() =~= candidates@.take(i as int));
        }
        if is_leaking_instance(heap_dump, x) {
            leaks.push(x);
        }
        i += 1;
    }
    proof {
        assert(candidates@.take(i as int) =~= candidates@);
    }
    leaks
}

/// The leaking instances of the player class (see `leaking_instances`).
pub fn memory_bugs(heap_dump: &HeapDump) -> (r: Vec<u64>)
    requires
        heap_dump.wf(),
    ensures
        r@ == leaks_of(*heap_dump, CRAFT_PLAYER_CLASS@),
{
    let target = CRAFT_PLAYER_CLASS.to_owned();
    leaking_instances(heap_dump, &target)
}

/// Whether `class_info` is the player class.
pub fn is_craft_player_class(names: &HashMap<u64, String>, class_info: &AnalysisClassInfo) -> (r: bool)
    ensures
        r == (names@.contains_key(class_info.class_name_id) && names@[class_info.class_name_id]@
            == CRAFT_PLAYER_CLASS@),
{
    let target = CRAFT_PLAYER_CLASS.to_owned();
    class_has_name(names, class_info, &target)
}

} // verus!
