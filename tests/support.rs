use hlsl_convert::error::Error;
use hlsl_convert::binary::{check_framing, declared_type_ids, find_array_element, to_native_order};
use hlsl_convert::reflect::{build_type_graph, classify, BaseKind, ReflectedType};
use hlsl_convert::types::TypeKind as Kind;
use hlsl_convert::search::{find_source_file, lookup_order};
use hlsl_convert::text::{decimal_string, usize_string};
use hlsl_convert::types::{TypeGraph, TypeInfo, TypeKind};
use hlsl_convert::Stage;

#[test]
fn decimal_digits() {
    assert_eq!(decimal_string(0), "0");
    assert_eq!(decimal_string(7), "7");
    assert_eq!(decimal_string(10), "10");
    assert_eq!(decimal_string(4294967295), "4294967295");
    assert_eq!(usize_string(305), "305");
}

#[test]
fn error_messages() {
    assert_eq!(Error::InitFailed.message(), "shader compiler initialization failed");
    assert_eq!(Error::UnsupportedMemberType("tex".to_string()).message(), "member of tex had an unsupported type");
    assert_eq!(
        Error::ResourceListMismatch { sampled_images: 3, separate_images: 12 }.message(),
        "3 combined image samplers but 12 separate images"
    );
    assert_eq!(Error::ReflectionQueryFailed("bad id".to_string()).message(), "reflection query failed: bad id");
    assert_eq!(Error::CompilationFailed("oops".to_string()).message(), "oops");
}

#[test]
fn cross_compiler_errors() {
    match Error::parse_failed(None) {
        Error::ParseFailed(m) => assert_eq!(m, "unhandled"),
        other => panic!("unexpected {:?}", other),
    }
    match Error::parse_failed(Some("bad op".to_string())) {
        Error::ParseFailed(m) => assert_eq!(m, "compilation failed: bad op"),
        other => panic!("unexpected {:?}", other),
    }
}

#[test]
fn source_file_found_in_first_matching_path() {
    let candidates = vec![("a".to_string(), false), ("b".to_string(), true), ("c".to_string(), true)];
    assert_eq!(find_source_file("x.hlsl", &candidates), Ok(1));
}

#[test]
fn source_file_missing_lists_search_paths() {
    let candidates = vec![("inc".to_string(), false), ("lib/shaders".to_string(), false)];
    assert_eq!(
        find_source_file("x.hlsl", &candidates),
        Err("unable to find shader file `x.hlsl` in search paths:\n * `inc`\n * `lib/shaders`".to_string())
    );
    assert_eq!(
        find_source_file("y", &Vec::new()),
        Err("unable to find shader file `y` in search paths:\n".to_string())
    );
}

#[test]
fn relative_lookup_tries_parent_first() {
    let paths = vec!["shaders".to_string(), "common".to_string()];
    assert_eq!(lookup_order(true, Some("dir".to_string()), &paths), vec!["dir", "shaders", "common"]);
    assert_eq!(lookup_order(false, Some("dir".to_string()), &paths), vec!["shaders", "common"]);
    assert_eq!(lookup_order(true, None, &paths), vec!["shaders", "common"]);
}

#[test]
fn short_or_foreign_words_are_not_framed() {
    assert!(!check_framing(&vec![0u32; 8]));
    assert!(!check_framing(&vec![0x0723_0203u32, 0x0001_0000]));
    assert!(!check_framing(&vec![0x0723_0203u32, 0, 0, 8, 0]));
}

#[test]
fn framing_checks() {
    // header, then OpTypeFloat %2 32 and OpTypeArray %4 %2 %3
    let good = vec![0x0723_0203u32, 0x0001_0000, 0, 8, 0, (3 << 16) | 22, 2, 32, (4 << 16) | 28, 4, 2, 3];
    assert!(check_framing(&good));
    assert_eq!(find_array_element(&good, 4), Some(2));
    assert_eq!(find_array_element(&good, 2), None);
    let mut zero_count = good.clone();
    zero_count[5] = 22;
    assert!(!check_framing(&zero_count));
    let mut overrun = good.clone();
    overrun[8] = (9 << 16) | 28;
    assert!(!check_framing(&overrun));
    let mut big_bound = good.clone();
    big_bound[3] = 0x0040_0000;
    assert!(!check_framing(&big_bound));
}

#[test]
fn swapped_words_are_put_in_native_order() {
    let swapped = vec![0x0302_2307u32, 0x0000_0100, 0x1122_3344];
    assert_eq!(to_native_order(&swapped), vec![0x0723_0203, 0x0001_0000, 0x4433_2211]);
    let native = vec![0x0723_0203u32, 0x1122_3344];
    assert_eq!(to_native_order(&native), native);
}

/// header; OpTypeFloat %2 32; OpTypeStruct %5 %2; OpTypeFunction %6 %2;
/// OpTypeArray %4 %5 %3; OpTypeArray %7 %4 %3
fn module_words() -> Vec<u32> {
    vec![
        0x0723_0203, 0x0001_0000, 0, 8, 0,
        (3 << 16) | 22, 2, 32,
        (3 << 16) | 30, 5, 2,
        (3 << 16) | 33, 6, 2,
        (4 << 16) | 28, 4, 5, 3,
        (4 << 16) | 28, 7, 4, 3,
    ]
}

#[test]
fn declared_types_skip_function_types() {
    assert_eq!(declared_type_ids(&module_words()), vec![2, 5, 4, 7]);
    assert!(declared_type_ids(&[1, 2]).is_empty());
}

#[test]
fn reported_types_become_graph_entries() {
    let reported = vec![
        ReflectedType { id: 5, kind: BaseKind::Struct, member_types: vec![2], array: vec![], member_names: vec!["b".to_string()] },
        ReflectedType { id: 7, kind: BaseKind::Struct, member_types: vec![2], array: vec![4, 2], member_names: vec![String::new()] },
        ReflectedType { id: 2, kind: BaseKind::Float, member_types: vec![], array: vec![], member_names: vec![] },
        ReflectedType { id: 9, kind: BaseKind::SampledImage, member_types: vec![], array: vec![], member_names: vec![] },
    ];
    let graph = build_type_graph(&module_words(), &reported);
    assert_eq!(graph.types.len(), 4);
    assert_eq!(graph.types[0].base_type_id, 5);
    assert_eq!(graph.types[0].member_names, vec!["b".to_string()]);
    // an array of arrays of the struct resolves to the struct, outermost dimension first
    assert_eq!(graph.types[1].base_type_id, 5);
    match &graph.types[1].kind {
        Kind::Struct { array, .. } => assert_eq!(array, &vec![2, 4]),
        _ => panic!("expected a struct"),
    }
    assert!(matches!(graph.types[2].kind, Kind::Leaf { .. }));
    assert!(matches!(graph.types[3].kind, Kind::Opaque));
}

#[test]
fn classification_by_kind() {
    let t = |kind| ReflectedType { id: 1, kind, member_types: vec![], array: vec![3, 2], member_names: vec![] };
    match classify(&t(BaseKind::Half)) {
        Kind::Leaf { array } => assert_eq!(array, vec![2, 3]),
        _ => panic!("expected a leaf"),
    }
    assert!(matches!(classify(&t(BaseKind::Image)), Kind::Opaque));
    assert!(matches!(classify(&t(BaseKind::AtomicCounter)), Kind::Opaque));
    assert!(matches!(classify(&t(BaseKind::Void)), Kind::Opaque));
}

#[test]
fn query_errors_carry_the_message() {
    match Error::from_query_error_code(spirv_cross::ErrorCode::CompilationError("bad id".to_string())) {
        Error::ReflectionQueryFailed(m) => assert_eq!(m, "bad id"),
        other => panic!("unexpected {:?}", other),
    }
    match Error::from_error_code(spirv_cross::ErrorCode::Unhandled) {
        Error::ParseFailed(m) => assert_eq!(m, "unhandled"),
        other => panic!("unexpected {:?}", other),
    }
}

#[test]
fn stages_compare_by_variant() {
    assert_eq!(Stage::Vertex, Stage::Vertex);
    assert_ne!(Stage::Vertex, Stage::Fragment);
}

#[test]
fn graph_entries_hold_plain_values() {
    let graph = TypeGraph {
        types: vec![TypeInfo { id: 4, kind: TypeKind::Leaf { array: vec![2] }, member_names: Vec::new(), base_type_id: 4 }],
    };
    assert!(graph.get_type(4).is_ok());
    assert!(matches!(graph.get_base_type_id(4), Ok(4)));
    assert!(matches!(graph.get_type(5), Err(Error::ReflectionQueryFailed(_))));
    assert!(matches!(graph.get_member_name(4, 0), Err(Error::ReflectionQueryFailed(_))));
}
