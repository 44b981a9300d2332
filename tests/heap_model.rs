use heap_inspect::builder::{from_reader, BuildError, GcRoot, Record};
use heap_inspect::classify::Classifier;
use heap_inspect::leaks::{is_leaking_instance, leaking_instances, memory_bugs, CRAFT_PLAYER_CLASS};
use heap_inspect::model::{
    HeapDump, InstanceInfo, ObjectArray, PrimitiveArray, Reference, Value, FAKE_ROOT_ID,
};
use heap_inspect::tables::{class_table, plugin_table, JAVA_PLUGIN_CLASS};

fn utf8(id: u64, text: &str) -> Record {
    Record::Utf8 { id, text: text.to_string() }
}

fn load(class_object_id: u64, class_name_id: u64) -> Record {
    Record::LoadClass { class_object_id, class_name_id }
}

fn class(class_object_id: u64, super_class_object_id: u64, loader: u64) -> Record {
    Record::ClassDump { class_object_id, super_class_object_id, class_loader_object_id: loader }
}

fn instance(object_id: u64, class_object_id: u64, refs: &[u64]) -> Record {
    let fields = refs.iter().map(|r| Value::Object { object_id: *r }).collect();
    Record::InstanceDump { object_id, class_object_id, fields }
}

fn root(object_id: u64) -> Record {
    Record::Root(GcRoot::JniGlobal { object_id })
}

/// A named class: a string, a load record and a class dump.
fn named_class(records: &mut Vec<Record>, class_id: u64, name: &str, super_id: u64, loader: u64) {
    let name_id = class_id + 1000;
    records.push(utf8(name_id, name));
    records.push(load(class_id, name_id));
    records.push(class(class_id, super_id, loader));
}

fn build(records: Vec<Record>) -> HeapDump {
    match from_reader(1, 0, records) {
        Ok(h) => h,
        Err(e) => panic!("unexpected build error {:?}", e),
    }
}

#[test]
fn trusted_holder_keeps_instance_from_leaking() {
    let mut rs = Vec::new();
    named_class(&mut rs, 10, "java/lang/Thread", 0, 0);
    named_class(&mut rs, 11, "net/minecraft/server/Holder", 0, 7);
    named_class(&mut rs, 12, CRAFT_PLAYER_CLASS, 0, 7);
    rs.push(instance(100, 10, &[101]));
    rs.push(instance(101, 11, &[102]));
    rs.push(instance(102, 12, &[]));
    rs.push(root(100));
    let h = build(rs);
    assert!(!is_leaking_instance(&h, 102));
    assert_eq!(memory_bugs(&h), Vec::<u64>::new());
}

#[test]
fn instance_held_only_by_untrusted_root_leaks() {
    let mut rs = Vec::new();
    named_class(&mut rs, 10, "java/lang/Thread", 0, 0);
    named_class(&mut rs, 12, CRAFT_PLAYER_CLASS, 0, 7);
    rs.push(instance(100, 10, &[103]));
    rs.push(instance(103, 12, &[]));
    rs.push(root(100));
    let h = build(rs);
    assert!(is_leaking_instance(&h, 103));
    assert_eq!(memory_bugs(&h), vec![103]);
}

#[test]
fn directly_rooted_instance_leaks() {
    let mut rs = Vec::new();
    named_class(&mut rs, 12, CRAFT_PLAYER_CLASS, 0, 7);
    rs.push(instance(103, 12, &[]));
    rs.push(root(103));
    let h = build(rs);
    assert_eq!(memory_bugs(&h), vec![103]);
}

#[test]
fn one_trusted_path_among_several_is_enough() {
    let mut rs = Vec::new();
    named_class(&mut rs, 10, "java/lang/Thread", 0, 0);
    named_class(&mut rs, 11, "net/minecraft/server/Holder", 0, 7);
    named_class(&mut rs, 12, CRAFT_PLAYER_CLASS, 0, 7);
    rs.push(instance(100, 10, &[102, 101]));
    rs.push(instance(101, 11, &[102]));
    rs.push(instance(102, 12, &[]));
    rs.push(root(100));
    let h = build(rs);
    assert_eq!(memory_bugs(&h), Vec::<u64>::new());
}

#[test]
fn object_array_is_no_trusted_holder() {
    let mut rs = Vec::new();
    named_class(&mut rs, 10, "java/lang/Thread", 0, 0);
    named_class(&mut rs, 12, CRAFT_PLAYER_CLASS, 0, 7);
    named_class(&mut rs, 13, "[Lnet/minecraft/Player;", 0, 7);
    rs.push(instance(100, 10, &[200]));
    rs.push(Record::ObjectArrayDump { array_object_id: 200, array_class_id: 13, elements: vec![102] });
    rs.push(instance(102, 12, &[]));
    rs.push(root(100));
    let h = build(rs);
    assert_eq!(memory_bugs(&h), vec![102]);
}

#[test]
fn unreached_instance_counts_as_leaking() {
    let mut rs = Vec::new();
    named_class(&mut rs, 12, CRAFT_PLAYER_CLASS, 0, 7);
    rs.push(instance(102, 12, &[]));
    let h = build(rs);
    assert_eq!(memory_bugs(&h), vec![102]);
}

#[test]
fn absent_watched_class_gives_no_leaks() {
    let mut rs = Vec::new();
    named_class(&mut rs, 10, "java/lang/Thread", 0, 0);
    rs.push(instance(100, 10, &[]));
    rs.push(root(100));
    let h = build(rs);
    assert_eq!(memory_bugs(&h), Vec::<u64>::new());
    assert_eq!(leaking_instances(&h, &"no/such/Class".to_string()), Vec::<u64>::new());
}

#[test]
fn leak_analysis_twice_gives_same_result() {
    let mut rs = Vec::new();
    named_class(&mut rs, 10, "java/lang/Thread", 0, 0);
    named_class(&mut rs, 11, "net/minecraft/server/Holder", 0, 7);
    named_class(&mut rs, 12, CRAFT_PLAYER_CLASS, 0, 7);
    rs.push(instance(100, 10, &[101, 103]));
    rs.push(instance(101, 11, &[102]));
    rs.push(instance(102, 12, &[]));
    rs.push(instance(103, 12, &[]));
    rs.push(root(100));
    let h = build(rs);
    let first = memory_bugs(&h);
    let second = memory_bugs(&h);
    assert_eq!(first, vec![103]);
    assert_eq!(first, second);
}

#[test]
fn class_dump_without_load_record_is_refused() {
    let rs = vec![utf8(1, "a/B"), class(50, 0, 0), load(50, 1)];
    match from_reader(1, 0, rs) {
        Err(BuildError::MissingClassName { class_object_id }) => assert_eq!(class_object_id, 50),
        Ok(_) => panic!("a class dump without a name must fail"),
    }
}

#[test]
fn first_missing_class_is_reported() {
    let rs = vec![class(60, 0, 0), class(50, 0, 0)];
    assert_eq!(from_reader(1, 0, rs).err(), Some(BuildError::MissingClassName { class_object_id: 60 }));
}

#[test]
fn instance_count_ignores_record_order() {
    let mut rs = Vec::new();
    rs.push(instance(100, 10, &[]));
    rs.push(instance(101, 10, &[]));
    rs.push(Record::ObjectArrayDump { array_object_id: 300, array_class_id: 20, elements: vec![] });
    named_class(&mut rs, 10, "a/A", 0, 0);
    rs.push(instance(102, 10, &[]));
    named_class(&mut rs, 20, "[La/A;", 0, 0);
    rs.push(Record::PrimitiveArrayDump { array_object_id: 400, values: vec![Value::Int(3)] });
    let h = build(rs);
    assert_eq!(h.instance_count(10), 3);
    assert_eq!(h.instance_count(20), 1);
    assert_eq!(h.instance_count(30), 0);
    let rows = class_table(&h);
    assert_eq!(rows.len(), 2);
    assert_eq!(rows[0].class_object_id, 10);
    assert_eq!(rows[0].class_name, Some("a/A".to_string()));
    assert_eq!(rows[0].instance_count, 3);
    assert_eq!(rows[1].class_object_id, 20);
    assert_eq!(rows[1].instance_count, 1);
}

#[test]
fn graph_holds_objects_and_field_edges() {
    let mut rs = Vec::new();
    named_class(&mut rs, 10, "a/A", 0, 0);
    rs.push(instance(100, 10, &[101, 999]));
    rs.push(Record::InstanceDump {
        object_id: 101,
        class_object_id: 10,
        fields: vec![Value::Int(5), Value::Array { object_id: 200 }, Value::Long(-1)],
    });
    rs.push(Record::ObjectArrayDump { array_object_id: 200, array_class_id: 20, elements: vec![100, 0] });
    rs.push(Record::PrimitiveArrayDump { array_object_id: 201, values: vec![Value::Byte(1)] });
    let h = build(rs);
    let g = &h.object_graph;
    for o in [100u64, 101, 200, 201, FAKE_ROOT_ID] {
        assert!(g.contains_node(o));
    }
    assert!(g.contains_edge(100, 101));
    assert!(g.contains_edge(101, 200));
    assert!(g.contains_edge(200, 100));
    assert!(!g.contains_edge(100, 999));
    assert!(!g.contains_node(999));
    assert!(!g.contains_node(0));
    assert_eq!(g.edge_count(), 3);
    assert_eq!(g.node_count(), 5);
}

#[test]
fn root_reported_twice_has_one_edge() {
    let mut rs = Vec::new();
    named_class(&mut rs, 10, "a/A", 0, 0);
    rs.push(instance(100, 10, &[]));
    rs.push(root(100));
    rs.push(Record::Root(GcRoot::JavaFrame { object_id: 100 }));
    rs.push(Record::Root(GcRoot::StickyClass { object_id: 10 }));
    rs.push(Record::Root(GcRoot::Unknown));
    rs.push(Record::Root(GcRoot::MonitorUsed));
    let h = build(rs);
    assert_eq!(h.roots, vec![100, 100, 10]);
    assert!(h.object_graph.contains_edge(FAKE_ROOT_ID, 100));
    assert!(!h.object_graph.contains_edge(FAKE_ROOT_ID, 10));
    assert_eq!(h.object_graph.edge_count(), 1);
}

#[test]
fn root_kinds_without_identity_contribute_nothing() {
    assert_eq!(GcRoot::ThreadObject { thread_object_id: 4 }.root_object(), Some(4));
    assert_eq!(GcRoot::JniLocal { object_id: 5 }.root_object(), Some(5));
    assert_eq!(GcRoot::NativeStack.root_object(), None);
    assert_eq!(GcRoot::ThreadBlock.root_object(), None);
    assert_eq!(GcRoot::Unknown.root_object(), None);
}

#[test]
fn later_string_definition_wins_and_objects_keep_identity() {
    let rs = vec![
        utf8(1, "first"),
        utf8(1, "second"),
        load(10, 1),
        class(10, 0, 0),
        instance(100, 10, &[]),
    ];
    let h = build(rs);
    assert_eq!(h.name(1), Some("second".to_string()));
    assert_eq!(h.name(2), None);
    assert_eq!(h.object_order, vec![100]);
    match h.objects.get(&100) {
        Some(Reference::Instance(i)) => assert_eq!(i.class_object_id, 10),
        _ => panic!("instance expected"),
    }
    assert_eq!(h.classes.get(&10).map(|c| c.class_name_id), Some(1));
}

fn chain_model() -> HeapDump {
    let mut rs = Vec::new();
    named_class(&mut rs, 3, "c/C", 0, 0);
    named_class(&mut rs, 2, "b/B", 3, 0);
    named_class(&mut rs, 1, "a/A", 2, 0);
    named_class(&mut rs, 4, "d/D", 5, 0);
    build(rs)
}

#[test]
fn subclasses_of_matching_class_are_of_kind() {
    let h = chain_model();
    let mut c = Classifier::new("c/C".to_string(), 16);
    assert!(c.is_of_kind(&h, 1));
    assert!(c.is_of_kind(&h, 2));
    assert!(c.is_of_kind(&h, 3));
    assert!(!c.is_of_kind(&h, 4));
    assert!(!c.is_of_kind(&h, 99));
}

#[test]
fn classifier_verdict_does_not_depend_on_cache() {
    let h = chain_model();
    let ids = [3u64, 2, 1, 4, 5];
    let mut warm = Classifier::new("c/C".to_string(), 16);
    let warm_first: Vec<bool> = ids.iter().map(|i| warm.is_of_kind(&h, *i)).collect();
    let warm_again: Vec<bool> = ids.iter().map(|i| warm.is_of_kind(&h, *i)).collect();
    let cold: Vec<bool> = ids
        .iter()
        .map(|i| Classifier::new("c/C".to_string(), 16).is_of_kind(&h, *i))
        .collect();
    let tiny: Vec<bool> = ids
        .iter()
        .rev()
        .map(|i| {
            let mut t = Classifier::new("c/C".to_string(), 1);
            t.is_of_kind(&h, *i)
        })
        .collect::<Vec<_>>()
        .into_iter()
        .rev()
        .collect();
    assert_eq!(warm_first, vec![true, true, true, false, false]);
    assert_eq!(warm_first, warm_again);
    assert_eq!(warm_first, cold);
    assert_eq!(warm_first, tiny);
}

#[test]
fn cyclic_superclass_chain_terminates() {
    let mut rs = Vec::new();
    named_class(&mut rs, 1, "a/A", 2, 0);
    named_class(&mut rs, 2, "b/B", 1, 0);
    let h = build(rs);
    let mut c = Classifier::new("c/C".to_string(), 16);
    assert!(!c.is_of_kind(&h, 1));
    let mut b = Classifier::new("b/B".to_string(), 16);
    assert!(b.is_of_kind(&h, 1));
    assert!(b.is_of_kind(&h, 2));
}

#[test]
fn plugin_table_counts_classes_per_loader() {
    let mut rs = Vec::new();
    named_class(&mut rs, 1, JAVA_PLUGIN_CLASS, 0, 0);
    named_class(&mut rs, 2, "my/Plugin", 1, 77);
    named_class(&mut rs, 3, "my/Helper", 0, 77);
    named_class(&mut rs, 4, "my/Other", 0, 77);
    named_class(&mut rs, 5, "their/Plugin", 1, 88);
    named_class(&mut rs, 6, "java/lang/String", 0, 0);
    rs.push(instance(100, 2, &[]));
    rs.push(instance(101, 6, &[]));
    rs.push(instance(102, 5, &[]));
    let h = build(rs);
    let rows = plugin_table(&h);
    assert_eq!(rows.len(), 2);
    assert_eq!(rows[0].class_object_id, 2);
    assert_eq!(rows[0].class_name, Some("my/Plugin".to_string()));
    assert_eq!(rows[0].loader_class_count, 3);
    assert_eq!(rows[1].class_object_id, 5);
    assert_eq!(rows[1].class_name, Some("their/Plugin".to_string()));
    assert_eq!(rows[1].loader_class_count, 1);
}

#[test]
fn models_compare_by_identity() {
    let a = from_reader(7, 1, vec![]).ok().unwrap();
    let b = from_reader(7, 2, vec![utf8(1, "x")]).ok().unwrap();
    let c = from_reader(8, 1, vec![]).ok().unwrap();
    assert!(a == b);
    assert!(a != c);
    assert_eq!(a.created_at_millis, 1);
    assert!(a.object_graph.contains_node(FAKE_ROOT_ID));
}

#[test]
fn graph_queries_follow_the_tables() {
    let mut rs = Vec::new();
    named_class(&mut rs, 10, "a/A", 0, 0);
    rs.push(instance(100, 10, &[101, 555]));
    rs.push(instance(101, 10, &[]));
    rs.push(root(101));
    rs.push(root(555));
    let h = build(rs);
    assert!(h.has_node(100));
    assert!(h.has_node(FAKE_ROOT_ID));
    assert!(!h.has_node(555));
    assert!(h.has_edge(100, 101));
    assert!(!h.has_edge(101, 100));
    assert!(!h.has_edge(100, 555));
    assert!(h.has_edge(FAKE_ROOT_ID, 101));
    assert!(!h.has_edge(FAKE_ROOT_ID, 555));
}

#[test]
fn objects_compare_by_identifier_only() {
    let a = InstanceInfo { class_object_id: 1, object_id: 5, fields: vec![Value::Int(1)] };
    let b = InstanceInfo { class_object_id: 2, object_id: 5, fields: vec![] };
    let c = InstanceInfo { class_object_id: 1, object_id: 6, fields: vec![Value::Int(1)] };
    assert!(a == b);
    assert!(a != c);
    assert!(a < c);
    assert_eq!(c.partial_cmp(&a), Some(std::cmp::Ordering::Greater));
    let x = ObjectArray { class_object_id: 1, object_id: 5, values: vec![1] };
    let y = ObjectArray { class_object_id: 1, object_id: 5, values: vec![2, 3] };
    assert!(x == y);
    assert_eq!(x.partial_cmp(&y), Some(std::cmp::Ordering::Equal));
    let p = PrimitiveArray { object_id: 9, values: vec![] };
    let q = PrimitiveArray { object_id: 8, values: vec![Value::Boolean(true)] };
    assert!(p > q);
    assert!(Reference::Instance(a) == Reference::Instance(b));
    assert!(Reference::ObjectArray(x) != Reference::PrimitiveArray(PrimitiveArray { object_id: 5, values: vec![] }));
    assert_eq!(Reference::PrimitiveArray(p).object_id(), 9);
}

#[test]
fn undecodable_records_are_skipped() {
    let mut rs = vec![Record::Other];
    named_class(&mut rs, 10, "a/A", 0, 0);
    rs.push(Record::Other);
    rs.push(instance(100, 10, &[]));
    let h = build(rs);
    assert_eq!(h.instance_count(10), 1);
    assert_eq!(h.class_order, vec![10]);
}
