use threejs_bindgen::ast::{
    ClassDecl, ClassMember, ImportSpecifier, MethodKind, Module, ModuleItem, Param, PropName,
    SuperClass, TsKeywordKind, TsType,
};
use threejs_bindgen::error::Error;
use threejs_bindgen::overrides::{
    apply_class_override, ClassOverride, ModuleOverride, OverrideMode, OverridePolicy,
};
use threejs_bindgen::pipeline::generate_module_bindings;
use threejs_bindgen::wb::{ClassDesc, FunctionDesc, ParamDesc, TypeDesc};

fn number() -> TsType {
    TsType::TsKeywordType(TsKeywordKind::TsNumberKeyword)
}

fn null_kw() -> TsType {
    TsType::TsKeywordType(TsKeywordKind::TsNullKeyword)
}

fn empty_policy() -> OverridePolicy {
    OverridePolicy { modules: vec![] }
}

fn foo_module() -> Module {
    Module {
        body: vec![ModuleItem::ExportClass {
            class: ClassDecl {
                ident: "Foo".to_string(),
                super_class: Some(SuperClass::Ident("Bar".to_string())),
                body: vec![
                    ClassMember::Constructor { params: vec![] },
                    ClassMember::Method {
                        key: PropName::Ident("getValue".to_string()),
                        kind: MethodKind::Method,
                        is_static: false,
                        params: vec![],
                        return_type: Some(TsType::TsUnionType(vec![number(), null_kw()])),
                        leading_comment: None,
                    },
                ],
            },
            leading_comment: None,
        }],
    }
}

#[test]
fn end_to_end_class_with_nullable_getter() {
    let r = generate_module_bindings("Foo", &foo_module(), &empty_policy(), "foo.js").unwrap();
    let (text, fails) = r.unwrap();
    assert!(fails.is_empty());
    let expected = "\nuse wasm_bindgen::prelude::*;\n\n#[wasm_bindgen(module = foo.js)]\nextern \"C\" {\n    #[wasm_bindgen(extends = Bar)]\n    pub type Foo;\n    #[wasm_bindgen(constructor)]\n    pub fn new() -> Foo;\n    #[wasm_bindgen(method, js_name = getValue)]\n    pub fn get_value(this: &Foo) -> Option<f64>;\n}\n";
    assert_eq!(text, expected);
}

#[test]
fn module_level_skip_suppresses_all_output() {
    let policy = OverridePolicy {
        modules: vec![(
            "Foo".to_string(),
            ModuleOverride {
                mode: OverrideMode::Skip,
                classes: vec![(
                    "Foo".to_string(),
                    ClassOverride {
                        mode: OverrideMode::Override,
                        methods: vec![(
                            "get_value".to_string(),
                            vec![FunctionDesc::new(vec![], "ghost".to_string(), vec![], None)],
                        )],
                    },
                )],
            },
        )],
    };
    let r = generate_module_bindings("Foo", &foo_module(), &policy, "foo.js").unwrap();
    assert!(r.is_none());
}

#[test]
fn class_level_skip_omits_the_class() {
    let policy = OverridePolicy {
        modules: vec![(
            "Foo".to_string(),
            ModuleOverride {
                mode: OverrideMode::Override,
                classes: vec![(
                    "Foo".to_string(),
                    ClassOverride { mode: OverrideMode::Skip, methods: vec![] },
                )],
            },
        )],
    };
    let r = generate_module_bindings("Foo", &foo_module(), &policy, "foo.js").unwrap();
    let (text, fails) = r.unwrap();
    assert!(fails.is_empty());
    assert_eq!(text, "\nuse wasm_bindgen::prelude::*;\n\n");
}

#[test]
fn method_level_override_replaces_the_descriptor_list() {
    let repl_a = FunctionDesc::new(
        vec![("method".to_string(), None)],
        "get_value_a".to_string(),
        vec![(
            "this".to_string(),
            ParamDesc::new(TypeDesc::TsThis, true, false),
        )],
        Some(ParamDesc::new(TypeDesc::TsNumber, false, false)),
    );
    let repl_b = FunctionDesc::new(
        vec![("method".to_string(), None)],
        "get_value_b".to_string(),
        vec![(
            "this".to_string(),
            ParamDesc::new(TypeDesc::TsThis, true, false),
        )],
        Some(ParamDesc::new(TypeDesc::TsBoolean, false, false)),
    );
    let policy = OverridePolicy {
        modules: vec![(
            "Foo".to_string(),
            ModuleOverride {
                mode: OverrideMode::Override,
                classes: vec![(
                    "Foo".to_string(),
                    ClassOverride {
                        mode: OverrideMode::Override,
                        methods: vec![("get_value".to_string(), vec![repl_a, repl_b])],
                    },
                )],
            },
        )],
    };
    let r = generate_module_bindings("Foo", &foo_module(), &policy, "foo.js").unwrap();
    let (text, _) = r.unwrap();
    assert!(text.contains("pub fn get_value_a(this: &Foo) -> f64;"));
    assert!(text.contains("pub fn get_value_b(this: &Foo) -> bool;"));
    assert!(!text.contains("pub fn get_value(this"));
}

#[test]
fn deprecated_method_stays_out_even_when_an_override_references_it() {
    let mut module = foo_module();
    if let ModuleItem::ExportClass { class, .. } = &mut module.body[0] {
        if let ClassMember::Method { leading_comment, .. } = &mut class.body[1] {
            *leading_comment = Some("/** @deprecated */".to_string());
        }
    }
    let policy = OverridePolicy {
        modules: vec![(
            "Foo".to_string(),
            ModuleOverride {
                mode: OverrideMode::Override,
                classes: vec![(
                    "Foo".to_string(),
                    ClassOverride {
                        mode: OverrideMode::Override,
                        methods: vec![(
                            "get_value".to_string(),
                            vec![FunctionDesc::new(vec![], "revived".to_string(), vec![], None)],
                        )],
                    },
                )],
            },
        )],
    };
    let r = generate_module_bindings("Foo", &module, &policy, "foo.js").unwrap();
    let (text, _) = r.unwrap();
    assert!(!text.contains("get_value"));
    assert!(!text.contains("revived"));
}

#[test]
fn deprecated_export_is_omitted_entirely() {
    let mut module = foo_module();
    if let ModuleItem::ExportClass { leading_comment, .. } = &mut module.body[0] {
        *leading_comment = Some("// @deprecated use NewFoo".to_string());
    }
    let r = generate_module_bindings("Foo", &module, &empty_policy(), "foo.js").unwrap();
    let (text, _) = r.unwrap();
    assert_eq!(text, "\nuse wasm_bindgen::prelude::*;\n\n");
}

#[test]
fn imports_are_grouped_sorted_and_emitted_first() {
    let module = Module {
        body: vec![
            ModuleItem::Import {
                specifiers: vec![ImportSpecifier::Named("Vector3".to_string())],
                src: "./math/Vector3".to_string(),
            },
            ModuleItem::Import {
                specifiers: vec![ImportSpecifier::Named("Matrix4".to_string())],
                src: "./math/Matrix4".to_string(),
            },
            ModuleItem::Import {
                specifiers: vec![ImportSpecifier::Named("Object3D".to_string())],
                src: "../core/Object3D".to_string(),
            },
        ],
    };
    let r = generate_module_bindings("M", &module, &empty_policy(), "m.js").unwrap();
    let (text, _) = r.unwrap();
    let expected = "use self::math::{Matrix4, Vector3};\nuse super::core::Object3D;\n\nuse wasm_bindgen::prelude::*;\n\n";
    assert_eq!(text, expected);
}

#[test]
fn import_whose_file_name_differs_from_its_symbol_is_dropped() {
    let module = Module {
        body: vec![ModuleItem::Import {
            specifiers: vec![ImportSpecifier::Named("Thing".to_string())],
            src: "./utils/Helpers".to_string(),
        }],
    };
    let r = generate_module_bindings("M", &module, &empty_policy(), "m.js").unwrap();
    let (text, _) = r.unwrap();
    assert_eq!(text, "\nuse wasm_bindgen::prelude::*;\n\n");
}

#[test]
fn unsupported_member_aborts_the_module() {
    let module = Module {
        body: vec![ModuleItem::ExportClass {
            class: ClassDecl {
                ident: "Foo".to_string(),
                super_class: None,
                body: vec![ClassMember::Method {
                    key: PropName::Ident("value".to_string()),
                    kind: MethodKind::Setter,
                    is_static: false,
                    params: vec![Param::Other],
                    return_type: None,
                    leading_comment: None,
                }],
            },
            leading_comment: None,
        }],
    };
    assert_eq!(
        generate_module_bindings("Foo", &module, &empty_policy(), "foo.js"),
        Err(Error::UnsupportedMember)
    );
}

#[test]
fn member_failures_surface_with_their_names() {
    let module = Module {
        body: vec![ModuleItem::ExportClass {
            class: ClassDecl {
                ident: "Foo".to_string(),
                super_class: None,
                body: vec![ClassMember::Method {
                    key: PropName::Ident("badOne".to_string()),
                    kind: MethodKind::Method,
                    is_static: false,
                    params: vec![Param::Other],
                    return_type: None,
                    leading_comment: None,
                }],
            },
            leading_comment: None,
        }],
    };
    let r = generate_module_bindings("Foo", &module, &empty_policy(), "foo.js").unwrap();
    let (_, fails) = r.unwrap();
    assert_eq!(fails, vec![("Foo.bad_one".to_string(), Error::MalformedParameter)]);
}

#[test]
fn failures_of_different_classes_stay_distinguishable() {
    let bad_method = |sym: &str| ClassMember::Method {
        key: PropName::Ident(sym.to_string()),
        kind: MethodKind::Method,
        is_static: false,
        params: vec![Param::Other],
        return_type: None,
        leading_comment: None,
    };
    let module = Module {
        body: vec![
            ModuleItem::ExportClass {
                class: ClassDecl {
                    ident: "Alpha".to_string(),
                    super_class: None,
                    body: vec![bad_method("broken")],
                },
                leading_comment: None,
            },
            ModuleItem::ExportClass {
                class: ClassDecl {
                    ident: "Beta".to_string(),
                    super_class: None,
                    body: vec![bad_method("broken")],
                },
                leading_comment: None,
            },
        ],
    };
    let r = generate_module_bindings("M", &module, &empty_policy(), "m.js").unwrap();
    let (_, fails) = r.unwrap();
    assert_eq!(
        fails,
        vec![
            ("Alpha.broken".to_string(), Error::MalformedParameter),
            ("Beta.broken".to_string(), Error::MalformedParameter),
        ]
    );
}

#[test]
fn skip_entry_beats_method_replacement_on_one_class() {
    let cd = ClassDesc::new("Foo".to_string(), vec![], vec![]);
    let co = ClassOverride { mode: OverrideMode::Skip, methods: vec![] };
    assert!(apply_class_override(cd, Some(&co)).is_none());
}

#[test]
fn absent_override_leaves_the_class_untouched() {
    let m = FunctionDesc::new(vec![], "keep".to_string(), vec![], None);
    let cd = ClassDesc::new("Foo".to_string(), vec![], vec![m]);
    let out = apply_class_override(cd, None).unwrap();
    assert_eq!(out.methods.len(), 1);
    assert_eq!(out.methods[0].name, "keep");
}
