//! Aggregates over a heap model: instance counts per class, and the plugin
//! main classes with the number of classes their loader loaded.

use crate::classify::{class_has_name, is_kind, Classifier};
use crate::model::{AnalysisClassInfo, HeapDump, InstanceInfo, Reference};
use crate::multimap_index::index_get;
use itertools::Itertools;
use std::collections::HashMap;
use vstd::prelude::*;

verus! {

broadcast use vstd::std_specs::hash::group_hash_axioms;

/// The name of the class that plugin main classes extend.
pub const JAVA_PLUGIN_CLASS: &'static str = "org/bukkit/plugin/java/JavaPlugin";

/// How many verdicts the plugin classifier keeps.
pub const PLUGIN_CACHE_CAPACITY: u64 = 512;

/// The columns of the class table.
#[derive(Clone, Copy, Debug, PartialEq, Eq, Structural)]
pub enum ClassTableColumns {
    ClassName,
    InstanceCount,
}

/// One class with its number of instances and object arrays.
#[derive(Debug)]
pub struct ClassRow {
    pub class_object_id: u64,
    /// The class name, if the name table has it.
    pub class_name: Option<String>,
    pub instance_count: usize,
}

/// One plugin instance: its class, and how many classes that class's loader
/// loaded.
#[derive(Debug)]
pub struct PluginRow {
    pub class_object_id: u64,
    /// The class name, if the name table has it.
    pub class_name: Option<String>,
    pub loader_class_count: usize,
}

/// The name that `names` gives to `name_id`.
pub open spec fn name_of(names: Map<u64, String>, name_id: u64) -> Option<String> {
    if names.contains_key(name_id) {
        Some(names[name_id])
    } else {
        None
    }
}

/// How many objects the class index lists under class `c`.
pub open spec fn count_of(h: HeapDump, c: u64) -> int {
    if h.by_class().contains_key(c) {
        h.by_class()[c].len() as int
    } else {
        0
    }
}

/// The loaded classes, in order of their first class dump.
pub open spec fn class_infos(h: HeapDump) -> Seq<AnalysisClassInfo> {
    h.class_order@.map_values(|c: u64| h.classes@[c])
}

/// Some class of `infos` is loaded by loader `l`.
pub open spec fn loads_some(infos: Seq<AnalysisClassInfo>, l: u64) -> bool {
    exists|i: int| 0 <= i < infos.len() && #[trigger] infos[i].class_loader_object_id == l
}

/// The classes of `infos` loaded by loader `l`, in their order.
pub open spec fn loader_members(infos: Seq<AnalysisClassInfo>, l: u64) -> Seq<u64> {
    infos.filter(|c: AnalysisClassInfo| c.class_loader_object_id == l).map_values(
        |c: AnalysisClassInfo| c.class_object_id,
    )
}

/// The classes of the plugin instances among the objects `xs`, in their
/// order: instances whose class is of the kind named `target`.
pub open spec fn plugin_classes_among(h: HeapDump, xs: Seq<u64>, target: Seq<char>) -> Seq<u64>
    decreases xs.len(),
{
    if xs.len() == 0 {
        Seq::empty()
    } else {
        let prev = plugin_classes_among(h, xs.drop_last(), target);
        let x = xs.last();
        if h.objects@.contains_key(x) && h.objects@[x] is Instance && is_kind(
            h.classes@,
            h.names@,
            h.objects@[x]->Instance_0.class_object_id,
            target,
        ) {
            prev.push(h.objects@[x]->Instance_0.class_object_id)
        } else {
            prev
        }
    }
}

/// `row` describes class `c` of `h`.
pub open spec fn plugin_row_of(h: HeapDump, row: PluginRow, c: u64) -> bool {
    &&& h.classes@.contains_key(c)
    &&& row.class_object_id == c
    &&& row.class_name == name_of(h.names@, h.classes@[c].class_name_id)
    &&& row.loader_class_count == loader_members(
        class_infos(h),
        h.classes@[c].class_loader_object_id,
    ).len()
}

impl HeapDump {
    /// How many instances and object arrays declare class `class_id`.
    pub fn instance_count(&self, class_id: u64) -> (r: usize)
        ensures
            r == count_of(*self, class_id),
    {
        match index_get(&self.objects_by_class, class_id) {
            Some(v) => v.len(),
            None => 0,
        }
    }

    /// The name that the name table gives to `name_id`.
    pub fn name(&self, name_id: u64) -> (r: Option<String>)
        ensures
            r == name_of(self.names@, name_id),
    {
        match self.names.get(&name_id) {
            Some(n) => Some(n.clone()),
            None => None,
        }
    }
}

/// One row per loaded class, in order of class dumps: its name and its number
/// of instances and object arrays.
pub fn class_table(heap_dump: &HeapDump) -> (r: Vec<ClassRow>)
    requires
        heap_dump.wf(),
    ensures
        r@.len() == heap_dump.class_order@.len(),
        forall|i: int|
            0 <= i < r@.len() ==> {
                let c = #[trigger] heap_dump.class_order@[i];
                &&& r@[i].class_object_id == c
                &&& r@[i].class_name == name_of(heap_dump.names@, heap_dump.classes@[c].class_name_id)
                &&& r@[i].instance_count == count_of(*heap_dump, c)
            },
{
    let mut rows: Vec<ClassRow> = Vec::new();
    let order = &heap_dump.class_order;
    let mut i: usize = 0;
    while i < order.len()
        invariant
            i <= order.len(),
            heap_dump.wf(),
            order@ == heap_dump.class_order@,
            rows@.len() == i,
            forall|j: int|
                0 <= j < i ==> {
                    let c = #[trigger] heap_dump.class_order@[j];
                    &&& rows@[j].class_object_id == c
                    &&& rows@[j].class_name == name_of(
                        heap_dump.names@,
                        heap_dump.classes@[c].class_name_id,
                    )
                    &&& rows@[j].instance_count == count_of(*heap_dump, c)
                },
        decreases order.len() - i,
    {
        let c = order[i];
        assert(heap_dump.class_order@.contains(c));
        let info = match heap_dump.classes.get(&c) {
            Some(info) => *info,
            None => {
                assert(false);
                return rows;
            },
        };
        let row = ClassRow {
            class_object_id: c,
            class_name: heap_dump.name(info.class_name_id),
            instance_count: heap_dump.instance_count(c),
        };
        rows.push(row);
        i += 1;
    }
    rows
}

/// Class identifiers grouped by the loader that loaded them.
pub type LoaderGroups = HashMap<u64, Vec<u64>>;

/// Relies on itertools' `into_grouping_map().collect()`: each loader maps to
/// the classes it loaded, in the order of `infos`, and only loaders that load
/// a class of `infos` appear.
#[verifier::external_body]
fn group_by_loader(infos: &Vec<AnalysisClassInfo>) -> (r: LoaderGroups)
    ensures
        forall|l: u64| #[trigger] r@.contains_key(l) <==> loads_some(infos@, l),
        forall|l: u64| #[trigger] r@.contains_key(l) ==> r@[l]@ == loader_members(infos@, l),
{
    infos.iter().map(|c| (c.class_loader_object_id, c.class_object_id)).into_grouping_map().collect()
}

/// The loaded classes, in order of class dumps.
pub fn loaded_classes(heap_dump: &HeapDump) -> (r: Vec<AnalysisClassInfo>)
    requires
        heap_dump.wf(),
    ensures
        r@ == class_infos(*heap_dump),
{
    let mut infos: Vec<AnalysisClassInfo> = Vec::new();
    let order = &heap_dump.class_order;
    let mut i: usize = 0;
    while i < order.len()
        invariant
            i <= order.len(),
            heap_dump.wf(),
            order@ == heap_dump.class_order@,
            infos@ == order@.take(i as int).map_values(|c: u64| heap_dump.classes@[c]),
        decreases order.len() - i,
    {
        let c = order[i];
        assert(heap_dump.class_order@.contains(c));
        let info = match heap_dump.classes.get(&c) {
            Some(info) => *info,
            None => {
                assert(false);
                return infos;
            },
        };
        infos.push(info);
        proof {
            assert(order@.take(i + 1).map_values(|c: u64| heap_dump.classes@[c]) =~= order@.take(
                i as int,
            ).map_values(|c: u64| heap_dump.classes@[c]).push(info));
        }
        i += 1;
    }
    proof {
        assert(order@.take(i as int) =~= order@);
    }
    infos
}

/// Whether the class of `instance_info` is, or extends, the class the
/// classifier looks for.
pub fn is_plugin_class(instance_info: &InstanceInfo, classifier: &mut Classifier, heap_dump: &HeapDump) -> (r: bool)
    requires
        old(classifier).wf(heap_dump),
    ensures
        final(classifier).wf(heap_dump),
        final(classifier).target == old(classifier).target,
        r == is_kind(
            heap_dump.classes@,
            heap_dump.names@,
            instance_info.class_object_id,
            old(classifier).target@,
        ),
{
    classifier.is_of_kind(heap_dump, instance_info.class_object_id)
}

/// Whether `class_info` is named like the plugin base class.
pub fn is_java_plugin_class_exact(names: &HashMap<u64, String>, class_info: &AnalysisClassInfo) -> (r: bool)
    ensures
        r == (names@.contains_key(class_info.class_name_id) && names@[class_info.class_name_id]@
            == JAVA_PLUGIN_CLASS@),
{
    let target = JAVA_PLUGIN_CLASS.to_owned();
    class_has_name(names, class_info, &target)
}

/// One row per plugin instance, in order of object dumps: an instance whose
/// class extends the plugin base class, with its class's name and the number
/// of classes that class's loader loaded.
pub fn plugin_table(heap_dump: &HeapDump) -> (r: Vec<PluginRow>)
    requires
        heap_dump.wf(),
    ensures
        r@.len() == plugin_classes_among(*heap_dump, heap_dump.object_order@, JAVA_PLUGIN_CLASS@).len(),
        forall|i: int|
            0 <= i < r@.len() ==> plugin_row_of(
                *heap_dump,
                #[trigger] r@[i],
                plugin_classes_among(*heap_dump, heap_dump.object_order@, JAVA_PLUGIN_CLASS@)[i],
            ),
{
    let ghost target = JAVA_PLUGIN_CLASS@;
    let mut classifier = Classifier::new(JAVA_PLUGIN_CLASS.to_owned(), PLUGIN_CACHE_CAPACITY);
    let infos = loaded_classes(heap_dump);
    let by_loader = group_by_loader(&infos);
    let mut rows: Vec<PluginRow> = Vec::new();
    let order = &heap_dump.object_order;
    let mut i: usize = 0;
    while i < order.len()
        invariant
            i <= order.len(),
            heap_dump.wf(),
            order@ == heap_dump.object_order@,
            classifier.wf(heap_dump),
            classifier.target@ == target,
            infos@ == class_infos(*heap_dump),
            forall|l: u64| #[trigger] by_loader@.contains_key(l) <==> loads_some(infos@, l),
            forall|l: u64| #[trigger]
                by_loader@.contains_key(l) ==> by_loader@[l]@ == loader_members(infos@, l),
            rows@.len() == plugin_classes_among(*heap_dump, order@.take(i as int), target).len(),
            forall|j: int|
                0 <= j < rows@.len() ==> plugin_row_of(
                    *heap_dump,
                    #[trigger] rows@[j],
                    plugin_classes_among(*heap_dump, order@.take(i as int), target)[j],
                ),
        decreases order.len() - i,
    {
        let x = order[i];
        let ghost prev = plugin_classes_among(*heap_dump, order@.take(i as int), target);
        proof {
            assert(order@.take(i + 1).drop_last() =~= order@.take(i as int));
        }
        match heap_dump.objects.get(&x) {
            Some(Reference::Instance(inst)) => {
                if is_plugin_class(inst, &mut classifier, heap_dump) {
                    let c = inst.class_object_id;
                    proof {
                        crate::classify::lemma_is_kind_step(heap_dump.classes@, heap_dump.names@, c, target);
                    }
                    let info = match heap_dump.classes.get(&c) {
                        Some(info) => *info,
                        None => {
                            assert(false);
                            return rows;
                        },
                    };
                    let l = info.class_loader_object_id;
                    proof {
                        assert(heap_dump.class_order@.contains(c));
                        let k = choose|k: int| 0 <= k < heap_dump.class_order@.len() && heap_dump.class_order@[k] == c;
                        assert(infos@[k] == info);
                    }
                    let count = match by_loader.get(&l) {
                        Some(v) => v.len(),
                        None => {
                            assert(false);
                            return rows;
                        },
                    };
                    let row = PluginRow {
                        class_object_id: c,
                        class_name: heap_dump.name(info.class_name_id),
                        loader_class_count: count,
                    };
                    rows.push(row);
                }
            },
            _ => {},
        }
        i += 1;
    }
    proof {
        assert(order@.take(i as int) =~= order@);
    }
    rows
}

} // verus!
