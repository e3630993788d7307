use bg3_save::lsf::{
    dump_tree, find_nodes_by_name, find_nodes_by_path, format_attribute_value, get_bool_attr, get_bytes_attr,
    get_int_attr, get_string_attr, get_translated_string_attr, get_uint64_attr, get_uint_attr, get_uuid_attr, Node,
    NodeAttribute, NodeAttributeValue, NodeKind, RegionArena,
};

fn attr(name: &str, ty: &str, value: NodeAttributeValue) -> (String, NodeAttribute) {
    (name.to_string(), NodeAttribute { ty: ty.to_string(), value })
}

fn node(name: &str, attributes: Vec<(String, NodeAttribute)>, children: Vec<(String, Vec<usize>)>) -> Node {
    Node { name: name.to_string(), kind: NodeKind::Node, attributes, children }
}

fn region(name: &str, attributes: Vec<(String, NodeAttribute)>, children: Vec<(String, Vec<usize>)>) -> Node {
    Node { name: name.to_string(), kind: NodeKind::Region { name: name.to_string() }, attributes, children }
}

/// Globals -> Party -> Characters (two of them), plus a stray Characters node.
fn sample_arena() -> RegionArena {
    RegionArena {
        node_instances: vec![
            region("Globals", vec![], vec![("Party".to_string(), vec![1])]),
            node("Party", vec![], vec![("Characters".to_string(), vec![2, 3])]),
            node("Characters", vec![attr("Name", "LSString", NodeAttributeValue::String("Tav".into()))], vec![]),
            node("Characters", vec![attr("Name", "LSString", NodeAttributeValue::String("Astarion".into()))], vec![]),
            node("Characters", vec![attr("Name", "LSString", NodeAttributeValue::String("Stray".into()))], vec![]),
        ],
        regions_indices: vec![("Globals".to_string(), 0)],
    }
}

#[test]
fn string_and_translated_string_getters() {
    let n = node(
        "N",
        vec![
            attr("A", "LSString", NodeAttributeValue::String("plain".into())),
            attr("T", "TranslatedString", NodeAttributeValue::TranslatedString("Shadowheart".into())),
            attr("E", "TranslatedString", NodeAttributeValue::TranslatedString("".into())),
            attr("O", "TranslatedString", NodeAttributeValue::TranslatedString("Option::None".into())),
            attr("I", "Int", NodeAttributeValue::Int(3)),
        ],
        vec![],
    );
    assert_eq!(get_string_attr(&n, "A"), Some("plain".to_string()));
    assert_eq!(get_string_attr(&n, "T"), None);
    assert_eq!(get_string_attr(&n, "I"), None);
    assert_eq!(get_string_attr(&n, "missing"), None);
    assert_eq!(get_translated_string_attr(&n, "T"), Some("Shadowheart".to_string()));
    assert_eq!(get_translated_string_attr(&n, "A"), Some("plain".to_string()));
    assert_eq!(get_translated_string_attr(&n, "E"), None);
    assert_eq!(get_translated_string_attr(&n, "O"), None);
    assert_eq!(get_translated_string_attr(&n, "I"), None);
}

#[test]
fn integer_getters_widen_narrow_values() {
    let n = node(
        "N",
        vec![
            attr("i", "Int", NodeAttributeValue::Int(-7)),
            attr("s", "Short", NodeAttributeValue::Short(-300)),
            attr("b", "Byte", NodeAttributeValue::Byte(200)),
            attr("i8", "I8", NodeAttributeValue::I8(-5)),
            attr("u", "UInt", NodeAttributeValue::UInt(4_000_000_000)),
            attr("us", "UShort", NodeAttributeValue::UShort(65535)),
            attr("u64", "UInt64", NodeAttributeValue::UInt64(1 << 40)),
        ],
        vec![],
    );
    assert_eq!(get_int_attr(&n, "i"), Some(-7));
    assert_eq!(get_int_attr(&n, "s"), Some(-300));
    assert_eq!(get_int_attr(&n, "b"), Some(200));
    assert_eq!(get_int_attr(&n, "i8"), Some(-5));
    assert_eq!(get_int_attr(&n, "u"), None);
    assert_eq!(get_uint_attr(&n, "u"), Some(4_000_000_000));
    assert_eq!(get_uint_attr(&n, "us"), Some(65535));
    assert_eq!(get_uint_attr(&n, "b"), Some(200));
    assert_eq!(get_uint_attr(&n, "i"), None);
    assert_eq!(get_uint64_attr(&n, "u64"), Some(1 << 40));
    assert_eq!(get_uint64_attr(&n, "u"), Some(4_000_000_000));
    assert_eq!(get_uint64_attr(&n, "us"), None);
}

#[test]
fn uuid_bytes_and_bool_getters() {
    let n = node(
        "N",
        vec![
            attr("id", "Uuid", NodeAttributeValue::Uuid("123e4567-e89b-12d3-a456-426614174000".into())),
            attr("s", "LSString", NodeAttributeValue::String("x".into())),
            attr("raw", "ScratchBuffer", NodeAttributeValue::Bytes(vec![1, 2, 3])),
            attr("flag", "Bool", NodeAttributeValue::Bool(true)),
        ],
        vec![],
    );
    assert_eq!(get_uuid_attr(&n, "id"), Some("123e4567-e89b-12d3-a456-426614174000".to_string()));
    assert_eq!(get_uuid_attr(&n, "s"), Some("x".to_string()));
    assert_eq!(get_uuid_attr(&n, "flag"), None);
    assert_eq!(get_bytes_attr(&n, "raw"), Some(vec![1, 2, 3]));
    assert_eq!(get_bytes_attr(&n, "s"), None);
    assert_eq!(get_bool_attr(&n, "flag"), Some(true));
    assert_eq!(get_bool_attr(&n, "s"), None);
}

#[test]
fn format_scalars_and_strings() {
    assert_eq!(format_attribute_value(&NodeAttributeValue::String("hi".into())), "\"hi\"");
    assert_eq!(format_attribute_value(&NodeAttributeValue::TranslatedString("hi".into())), "t\"hi\"");
    assert_eq!(format_attribute_value(&NodeAttributeValue::Bool(false)), "false");
    assert_eq!(format_attribute_value(&NodeAttributeValue::Int(-42)), "-42");
    assert_eq!(format_attribute_value(&NodeAttributeValue::Int(i32::MIN)), "-2147483648");
    assert_eq!(format_attribute_value(&NodeAttributeValue::UInt(0)), "0");
    assert_eq!(format_attribute_value(&NodeAttributeValue::Int64(i64::MIN)), "-9223372036854775808");
    assert_eq!(format_attribute_value(&NodeAttributeValue::UInt64(u64::MAX)), "18446744073709551615");
    assert_eq!(format_attribute_value(&NodeAttributeValue::I8(-128)), "-128");
    assert_eq!(format_attribute_value(&NodeAttributeValue::Float("1.5".into())), "1.5");
    assert_eq!(
        format_attribute_value(&NodeAttributeValue::Vec3("1".into(), "2.5".into(), "-3".into())),
        "(1, 2.5, -3)"
    );
    assert_eq!(
        format_attribute_value(&NodeAttributeValue::Vec4("1".into(), "2".into(), "3".into(), "4".into())),
        "(1, 2, 3, 4)"
    );
}

#[test]
fn format_bytes_truncates_past_thirty_two() {
    assert_eq!(format_attribute_value(&NodeAttributeValue::Bytes(vec![])), "[0 bytes: []]");
    assert_eq!(format_attribute_value(&NodeAttributeValue::Bytes(vec![0x0a, 0xff])), "[2 bytes: [0a, ff]]");
    let thirty_two: Vec<u8> = (0..32).collect();
    assert_eq!(
        format_attribute_value(&NodeAttributeValue::Bytes(thirty_two.clone())),
        format!("[32 bytes: {:02x?}]", thirty_two)
    );
    let many: Vec<u8> = (0..40).collect();
    assert_eq!(
        format_attribute_value(&NodeAttributeValue::Bytes(many.clone())),
        format!("[40 bytes: {:02x?}...]", &many[..16])
    );
}

#[test]
fn find_by_name_scans_whole_arena() {
    let arena = sample_arena();
    let found = find_nodes_by_name(&arena, "Characters");
    let names: Vec<String> = found.iter().map(|n| get_string_attr(n, "Name").unwrap()).collect();
    assert_eq!(names, vec!["Tav", "Astarion", "Stray"]);
    assert!(find_nodes_by_name(&arena, "Nobody").is_empty());
}

#[test]
fn find_by_path_walks_from_regions() {
    let arena = sample_arena();
    let found = find_nodes_by_path(&arena, &["Globals", "Party", "Characters"]);
    let names: Vec<String> = found.iter().map(|n| get_string_attr(n, "Name").unwrap()).collect();
    assert_eq!(names, vec!["Tav", "Astarion"]);
    assert_eq!(find_nodes_by_path(&arena, &["Globals"]).len(), 1);
    assert!(find_nodes_by_path(&arena, &[]).is_empty());
    assert_eq!(find_nodes_by_path(&arena, &["Party"]).len(), 1);
    assert_eq!(find_nodes_by_path(&arena, &["Party", "Characters"]).len(), 2);
    assert!(find_nodes_by_path(&arena, &["Globals", "Nope"]).is_empty());
}

#[test]
fn region_nodes_and_counts() {
    let arena = sample_arena();
    assert_eq!(arena.region_count(), 1);
    let roots = arena.get_region_nodes();
    assert_eq!(roots.len(), 1);
    assert_eq!(roots[0].name, "Globals");
    assert!(arena.get_node(4).is_some());
    assert!(arena.get_node(5).is_none());
}

#[test]
fn dump_tree_indents_and_stops_at_depth() {
    let arena = RegionArena {
        node_instances: vec![
            region("Root", vec![attr("Version", "UInt", NodeAttributeValue::UInt(7))], vec![("Kids".to_string(), vec![1, 9])]),
            node("Kid", vec![attr("Name", "LSString", NodeAttributeValue::String("a".into()))], vec![("Deep".to_string(), vec![2])]),
            node("Grandkid", vec![], vec![]),
        ],
        regions_indices: vec![("Root".to_string(), 0)],
    };
    assert_eq!(
        dump_tree(&arena, 1),
        "Root [Region: Root]\n  @Version: UInt = 7\n  Kid \n    @Name: LSString = \"a\"\n"
    );
    assert_eq!(
        dump_tree(&arena, 5),
        "Root [Region: Root]\n  @Version: UInt = 7\n  Kid \n    @Name: LSString = \"a\"\n    Grandkid \n"
    );
    assert_eq!(dump_tree(&arena, 0), "Root [Region: Root]\n  @Version: UInt = 7\n");
}
