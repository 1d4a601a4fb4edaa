use threejs_bindgen::emit::Writer;
use threejs_bindgen::imports::{import_path, process_imports, split_slash};
use threejs_bindgen::ast::{ImportSpecifier, Module, ModuleItem};
use threejs_bindgen::strutil::{eq_str_ignore_ascii_case, sort_strings, str_contains, str_eq, str_le, to_snake_case};

#[test]
fn snake_case_renames_declared_identifiers() {
    assert_eq!(to_snake_case("getValue"), "get_value");
    assert_eq!(to_snake_case("already_snake"), "already_snake");
    assert_eq!(to_snake_case("HTTPFooBar"), "http_foo_bar");
}

#[test]
fn case_insensitive_comparison() {
    assert!(eq_str_ignore_ascii_case("ArrayLike", "arraylike"));
    assert!(eq_str_ignore_ascii_case("ARRAYLIKE", "arraylike"));
    assert!(!eq_str_ignore_ascii_case("ArrayLike", "arraylikes"));
    assert!(!eq_str_ignore_ascii_case("ArrayLik3", "arraylike"));
}

#[test]
fn string_equality() {
    assert!(str_eq("abc", "abc"));
    assert!(!str_eq("abc", "abd"));
    assert!(!str_eq("abc", "abcd"));
    assert!(str_eq("", ""));
}

#[test]
fn substring_search() {
    assert!(str_contains("uses @deprecated since r100", "@deprecated"));
    assert!(!str_contains("still supported", "@deprecated"));
    assert!(str_contains("anything", ""));
    assert!(!str_contains("", "x"));
}

#[test]
fn lexicographic_order() {
    assert!(str_le("Matrix4", "Vector3"));
    assert!(!str_le("Vector3", "Matrix4"));
    assert!(str_le("abc", "abc"));
    assert!(str_le("ab", "abc"));
    assert!(!str_le("abd", "abc"));
}

#[test]
fn sorting_is_lexicographic_and_keeps_equal_entries() {
    let v = vec![
        "Vector3".to_string(),
        "Matrix4".to_string(),
        "Euler".to_string(),
        "Matrix4".to_string(),
    ];
    let sorted = sort_strings(&v);
    assert_eq!(sorted, vec!["Euler", "Matrix4", "Matrix4", "Vector3"]);
}

#[test]
fn splitting_on_slash() {
    assert_eq!(split_slash("a/b/c"), vec!["a", "b", "c"]);
    assert_eq!(split_slash("abc"), vec!["abc"]);
    assert_eq!(split_slash("a//b"), vec!["a", "", "b"]);
    assert_eq!(split_slash(""), vec![""]);
}

#[test]
fn import_paths_group_under_their_origin() {
    assert_eq!(
        import_path("./math/Vector3"),
        Some(("self::math".to_string(), "Vector3".to_string()))
    );
    assert_eq!(
        import_path("../core/Object3D"),
        Some(("super::core".to_string(), "Object3D".to_string()))
    );
    assert_eq!(
        import_path("./Vector3"),
        Some(("self".to_string(), "Vector3".to_string()))
    );
    assert_eq!(import_path("three"), None);
}

#[test]
fn self_super_collapses_once_per_occurrence() {
    assert_eq!(
        import_path("./../core/Object3D"),
        Some(("super::core".to_string(), "Object3D".to_string()))
    );
}

#[test]
fn imports_group_by_path_in_first_appearance_order() {
    let module = Module {
        body: vec![
            ModuleItem::Import {
                specifiers: vec![ImportSpecifier::Named("Vector3".to_string())],
                src: "./math/Vector3".to_string(),
            },
            ModuleItem::Import {
                specifiers: vec![ImportSpecifier::Named("Object3D".to_string())],
                src: "../core/Object3D".to_string(),
            },
            ModuleItem::Import {
                specifiers: vec![ImportSpecifier::Named("Matrix4".to_string())],
                src: "./math/Matrix4".to_string(),
            },
        ],
    };
    let groups = process_imports(&module);
    assert_eq!(groups.len(), 2);
    assert_eq!(groups[0].0, "self::math");
    assert_eq!(groups[0].1, vec!["Vector3", "Matrix4"]);
    assert_eq!(groups[1].0, "super::core");
    assert_eq!(groups[1].1, vec!["Object3D"]);
}

#[test]
fn last_named_specifier_wins() {
    let module = Module {
        body: vec![ModuleItem::Import {
            specifiers: vec![
                ImportSpecifier::Named("First".to_string()),
                ImportSpecifier::Other,
                ImportSpecifier::Named("Vector3".to_string()),
            ],
            src: "./math/Vector3".to_string(),
        }],
    };
    let groups = process_imports(&module);
    assert_eq!(groups.len(), 1);
    assert_eq!(groups[0].1, vec!["Vector3"]);
}

#[test]
fn written_imports_are_sorted_lines() {
    let mut w = Writer::new();
    w.write_imports(&vec![
        ("super::core".to_string(), vec!["Object3D".to_string()]),
        (
            "self::math".to_string(),
            vec!["Vector3".to_string(), "Matrix4".to_string()],
        ),
        ("self::empty".to_string(), vec![]),
    ]);
    assert_eq!(
        w.output_str(),
        "use self::math::{Matrix4, Vector3};\nuse super::core::Object3D;\n"
    );
}
