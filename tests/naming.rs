use std::collections::HashMap;

use hlsl_convert::error::Error;
use hlsl_convert::flatten::{array_member_names, get_member_names_deep};
use hlsl_convert::mapping::{find_uniform_mappings, ReflectedBuffer, ReflectedImage, ShaderResources};
use hlsl_convert::types::{TypeGraph, TypeInfo, TypeKind};
use regex::Regex;

fn leaf(id: u32, array: Vec<u32>) -> TypeInfo {
    TypeInfo { id, kind: TypeKind::Leaf { array }, member_names: Vec::new(), base_type_id: id }
}

fn opaque(id: u32) -> TypeInfo {
    TypeInfo { id, kind: TypeKind::Opaque, member_names: Vec::new(), base_type_id: id }
}

fn strukt(id: u32, members: Vec<(&str, u32)>, array: Vec<u32>, base_type_id: u32) -> TypeInfo {
    TypeInfo {
        id,
        kind: TypeKind::Struct { member_types: members.iter().map(|m| m.1).collect(), array },
        member_names: members.iter().map(|m| m.0.to_string()).collect(),
        base_type_id,
    }
}

/// A module whose only uniform buffer, id 7, has struct type 100.
fn globals(types: Vec<TypeInfo>) -> (TypeGraph, ShaderResources) {
    (
        TypeGraph { types },
        ShaderResources {
            uniform_buffers: vec![ReflectedBuffer { id: 7, base_type_id: 100 }],
            sampled_images: Vec::new(),
            separate_images: Vec::new(),
        },
    )
}

fn mappings(graph: &TypeGraph, resources: &ShaderResources) -> HashMap<String, String> {
    find_uniform_mappings(graph, resources)
        .expect("mapping failed")
        .into_iter()
        .collect()
}

fn get_ubo_member_mappings(uniforms: &HashMap<String, String>) -> HashMap<String, String> {
    // the compiled name is `_<buffer id>.<member path>`; lookups only care about the path
    let field_pattern = Regex::new(r"^\w+\.(.+)$").unwrap();

    uniforms
        .iter()
        .map(|(compiled_name, mapped_name)| {
            let field_captures = field_pattern.captures(compiled_name).expect("ubo field pattern must match");
            (field_captures[1].to_string(), mapped_name.to_string())
        })
        .collect()
}

fn assert_member_matches(members: &HashMap<String, String>, member: &str) {
    assert_eq!(Some(&member.to_string()), members.get(member));
}

// struct A { float b; } a;
#[test]
fn ubo_struct_field_has_prop_mapping() {
    let (graph, resources) = globals(vec![
        strukt(100, vec![("a", 101)], vec![], 100),
        strukt(101, vec![("b", 102)], vec![], 101),
        leaf(102, vec![]),
    ]);
    let ubo_members = get_ubo_member_mappings(&mappings(&graph, &resources));

    assert_eq!(1, ubo_members.len());
    assert_member_matches(&ubo_members, "a.b");
}

// struct A { struct B { float c; } b; } a;
#[test]
fn ubo_nested_struct_field_has_prop_mapping() {
    let (graph, resources) = globals(vec![
        strukt(100, vec![("a", 101)], vec![], 100),
        strukt(101, vec![("b", 102)], vec![], 101),
        strukt(102, vec![("c", 103)], vec![], 102),
        leaf(103, vec![]),
    ]);
    let ubo_members = get_ubo_member_mappings(&mappings(&graph, &resources));

    assert_eq!(1, ubo_members.len());
    assert_member_matches(&ubo_members, "a.b.c");
}

// float a[3];
#[test]
fn ubo_array_field_has_prop_mapping() {
    let (graph, resources) = globals(vec![strukt(100, vec![("a", 101)], vec![], 100), leaf(101, vec![3])]);
    let ubo_members = get_ubo_member_mappings(&mappings(&graph, &resources));

    assert_eq!(3, ubo_members.len());
    assert_member_matches(&ubo_members, "a[0]");
    assert_member_matches(&ubo_members, "a[1]");
    assert_member_matches(&ubo_members, "a[2]");
}

// float a[2][2][2];
#[test]
fn ubo_multidimensional_array_field_has_prop_mapping() {
    let (graph, resources) = globals(vec![strukt(100, vec![("a", 101)], vec![], 100), leaf(101, vec![2, 2, 2])]);
    let ubo_members = get_ubo_member_mappings(&mappings(&graph, &resources));

    assert_eq!(8, ubo_members.len());
    assert_member_matches(&ubo_members, "a[0][0][0]");
    assert_member_matches(&ubo_members, "a[0][0][1]");
    assert_member_matches(&ubo_members, "a[0][1][1]");
    assert_member_matches(&ubo_members, "a[0][1][0]");
    assert_member_matches(&ubo_members, "a[1][0][0]");
    assert_member_matches(&ubo_members, "a[1][0][1]");
    assert_member_matches(&ubo_members, "a[1][1][1]");
    assert_member_matches(&ubo_members, "a[1][1][0]");
}

// struct A { float b[3]; } a;
#[test]
fn ubo_array_field_in_struct_has_prop_mapping() {
    let (graph, resources) = globals(vec![
        strukt(100, vec![("a", 101)], vec![], 100),
        strukt(101, vec![("b", 102)], vec![], 101),
        leaf(102, vec![3]),
    ]);
    let ubo_members = get_ubo_member_mappings(&mappings(&graph, &resources));

    assert_eq!(3, ubo_members.len());
    assert_member_matches(&ubo_members, "a.b[0]");
    assert_member_matches(&ubo_members, "a.b[1]");
    assert_member_matches(&ubo_members, "a.b[2]");
}

// struct A { float b; }; A a[2];
#[test]
fn ubo_array_of_struct_has_prop_mapping() {
    let (graph, resources) = globals(vec![
        strukt(100, vec![("a", 102)], vec![], 100),
        strukt(101, vec![("b", 103)], vec![], 101),
        // the array type: SPIRV-Cross copies the members but not their names
        strukt(102, vec![("", 103)], vec![2], 101),
        leaf(103, vec![]),
    ]);
    let ubo_members = get_ubo_member_mappings(&mappings(&graph, &resources));

    assert_eq!(2, ubo_members.len());
    assert_member_matches(&ubo_members, "a[0].b");
    assert_member_matches(&ubo_members, "a[1].b");
}

#[test]
fn buffer_keys_carry_the_buffer_id() {
    let (graph, resources) = globals(vec![strukt(100, vec![("x", 101), ("y", 101)], vec![], 100), leaf(101, vec![])]);
    let table = find_uniform_mappings(&graph, &resources).unwrap();
    assert_eq!(
        table,
        vec![("_7.x".to_string(), "x".to_string()), ("_7.y".to_string(), "y".to_string())]
    );
}

#[test]
fn image_keys_take_names_by_position() {
    let graph = TypeGraph { types: Vec::new() };
    let resources = ShaderResources {
        uniform_buffers: Vec::new(),
        sampled_images: vec![
            ReflectedImage { id: 12, name: "combined".to_string() },
            ReflectedImage { id: 40, name: "combined2".to_string() },
        ],
        separate_images: vec![
            ReflectedImage { id: 3, name: "albedo".to_string() },
            ReflectedImage { id: 4, name: "normals".to_string() },
        ],
    };
    let table = find_uniform_mappings(&graph, &resources).unwrap();
    assert_eq!(
        table,
        vec![("_12".to_string(), "albedo".to_string()), ("_40".to_string(), "normals".to_string())]
    );
}

#[test]
fn struct_array_count_is_members_times_dimensions() {
    // struct S { float p; float q[2]; }; S s[2][3];  => (1 + 2) * 6 paths
    let (graph, _) = globals(vec![
        strukt(100, vec![("s", 102)], vec![], 100),
        strukt(101, vec![("p", 103), ("q", 104)], vec![], 101),
        strukt(102, vec![("", 103)], vec![2, 3], 101),
        leaf(103, vec![]),
        leaf(104, vec![2]),
    ]);
    let paths = get_member_names_deep(&graph, 100).unwrap();
    assert_eq!(paths.len(), 18);
    assert_eq!(paths[0], "s[0][0].p");
    assert_eq!(paths[1], "s[0][0].q[0]");
    assert_eq!(paths[2], "s[0][0].q[1]");
    assert_eq!(paths[17], "s[1][2].q[1]");
}

#[test]
fn building_twice_gives_the_same_table() {
    let (graph, resources) = globals(vec![
        strukt(100, vec![("a", 101), ("m", 102)], vec![], 100),
        strukt(101, vec![("b", 102)], vec![3], 101),
        leaf(102, vec![2, 2]),
    ]);
    let first = find_uniform_mappings(&graph, &resources).unwrap();
    let second = find_uniform_mappings(&graph, &resources).unwrap();
    assert_eq!(first.len(), 16);
    assert_eq!(first, second);
}

#[test]
fn texture_member_is_unsupported() {
    let (graph, resources) = globals(vec![
        strukt(100, vec![("a", 101), ("tex", 102), ("c", 101)], vec![], 100),
        leaf(101, vec![]),
        opaque(102),
    ]);
    match find_uniform_mappings(&graph, &resources) {
        Err(Error::UnsupportedMemberType(name)) => assert_eq!(name, "tex"),
        other => panic!("unexpected result {:?}", other),
    }
}

#[test]
fn unequal_image_lists_are_rejected() {
    let graph = TypeGraph { types: Vec::new() };
    let resources = ShaderResources {
        uniform_buffers: Vec::new(),
        sampled_images: vec![
            ReflectedImage { id: 1, name: "s".to_string() },
            ReflectedImage { id: 2, name: "t".to_string() },
        ],
        separate_images: vec![ReflectedImage { id: 3, name: "u".to_string() }],
    };
    match find_uniform_mappings(&graph, &resources) {
        Err(Error::ResourceListMismatch { sampled_images, separate_images }) => {
            assert_eq!((sampled_images, separate_images), (2, 1));
        },
        other => panic!("unexpected result {:?}", other),
    }
}

#[test]
fn unknown_type_fails_the_query() {
    let (graph, resources) = globals(vec![strukt(100, vec![("a", 555)], vec![], 100)]);
    match find_uniform_mappings(&graph, &resources) {
        Err(Error::ReflectionQueryFailed(m)) => assert_eq!(m, "unknown type id"),
        other => panic!("unexpected result {:?}", other),
    }
}

#[test]
fn missing_member_name_fails_the_query() {
    let mut root = strukt(100, vec![("a", 101)], vec![], 100);
    root.member_names.clear();
    let (graph, resources) = globals(vec![root, leaf(101, vec![])]);
    assert!(matches!(find_uniform_mappings(&graph, &resources), Err(Error::ReflectionQueryFailed(_))));
}

#[test]
fn buffer_of_non_struct_type_fails_the_query() {
    let (graph, resources) = globals(vec![leaf(100, vec![])]);
    assert!(matches!(find_uniform_mappings(&graph, &resources), Err(Error::ReflectionQueryFailed(_))));
}

#[test]
fn self_containing_struct_fails_the_query() {
    let (graph, resources) = globals(vec![strukt(100, vec![("again", 100)], vec![], 100)]);
    match find_uniform_mappings(&graph, &resources) {
        Err(Error::ReflectionQueryFailed(m)) => assert_eq!(m, "struct types nest too deep"),
        other => panic!("unexpected result {:?}", other),
    }
}

#[test]
fn first_entry_of_an_id_counts() {
    let (graph, resources) = globals(vec![
        strukt(100, vec![("first", 101)], vec![], 100),
        strukt(100, vec![("second", 101)], vec![], 100),
        leaf(101, vec![]),
    ]);
    assert_eq!(find_uniform_mappings(&graph, &resources).unwrap(), vec![("_7.first".to_string(), "first".to_string())]);
}

#[test]
fn array_names_without_dimensions() {
    assert_eq!(array_member_names("a", &[]), vec!["a".to_string()]);
}

#[test]
fn array_names_with_a_zero_dimension_are_empty() {
    assert!(array_member_names("a", &[3, 0, 2]).is_empty());
}

#[test]
fn array_names_first_dimension_varies_slowest() {
    assert_eq!(array_member_names("m", &[2, 3]), vec!["m[0][0]", "m[0][1]", "m[0][2]", "m[1][0]", "m[1][1]", "m[1][2]"]);
}

#[test]
fn array_names_with_multi_digit_indices() {
    let names = array_member_names("big", &[12]);
    assert_eq!(names.len(), 12);
    assert_eq!(names[10], "big[10]");
    assert_eq!(names[11], "big[11]");
}
