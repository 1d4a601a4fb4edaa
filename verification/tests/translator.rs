use threejs_bindgen::ast::{
    ClassDecl, ClassMember, CtorParam, MethodKind, Param, PropName, TsKeywordKind, TsType,
};
use threejs_bindgen::error::Error;
use threejs_bindgen::translate::{
    process_class, process_function, process_parameter, translate_constructor, translate_method,
};
use threejs_bindgen::wb::{ParamDesc, TypeDesc};

fn number() -> TsType {
    TsType::TsKeywordType(TsKeywordKind::TsNumberKeyword)
}

fn null_kw() -> TsType {
    TsType::TsKeywordType(TsKeywordKind::TsNullKeyword)
}

fn undefined_kw() -> TsType {
    TsType::TsKeywordType(TsKeywordKind::TsUndefinedKeyword)
}

fn void_kw() -> TsType {
    TsType::TsKeywordType(TsKeywordKind::TsVoidKeyword)
}

fn ident_param(sym: &str, ty: TsType) -> Param {
    Param::Ident { sym: sym.to_string(), optional: false, type_ann: Some(ty) }
}

#[test]
fn parameter_is_renamed_and_typed_by_value() {
    let p = ident_param("maxDistance", number());
    let (name, pd) = process_parameter(&p).unwrap();
    assert_eq!(name, "max_distance");
    assert_eq!(pd, ParamDesc { type_desc: TypeDesc::TsNumber, reference: false, optional: false });
}

#[test]
fn parameter_keeps_source_optional_marker() {
    let p = Param::Ident { sym: "hint".to_string(), optional: true, type_ann: Some(number()) };
    let (_, pd) = process_parameter(&p).unwrap();
    assert!(pd.optional);
    assert!(!pd.reference);
}

#[test]
fn parameter_without_annotation_is_malformed() {
    let p = Param::Ident { sym: "x".to_string(), optional: false, type_ann: None };
    assert_eq!(process_parameter(&p), Err(Error::MalformedParameter));
}

#[test]
fn parameter_without_identifier_is_malformed() {
    assert_eq!(process_parameter(&Param::Other), Err(Error::MalformedParameter));
}

#[test]
fn nullable_union_return_collapses_to_optional() {
    let rt = TsType::TsUnionType(vec![number(), null_kw()]);
    let fd = process_function("f".to_string(), vec![], &vec![], &Some(rt)).unwrap();
    assert_eq!(
        fd.ret,
        Some(ParamDesc { type_desc: TypeDesc::TsNumber, reference: false, optional: true })
    );
}

#[test]
fn undefined_union_return_collapses_to_optional() {
    let rt = TsType::TsUnionType(vec![number(), undefined_kw()]);
    let fd = process_function("f".to_string(), vec![], &vec![], &Some(rt)).unwrap();
    assert_eq!(
        fd.ret,
        Some(ParamDesc { type_desc: TypeDesc::TsNumber, reference: false, optional: true })
    );
}

#[test]
fn reversed_union_return_does_not_collapse() {
    let rt = TsType::TsUnionType(vec![null_kw(), number()]);
    let fd = process_function("f".to_string(), vec![], &vec![], &Some(rt)).unwrap();
    assert_eq!(
        fd.ret,
        Some(ParamDesc {
            type_desc: TypeDesc::TsUnion(vec![TypeDesc::TsNull, TypeDesc::TsNumber]),
            reference: false,
            optional: false,
        })
    );
}

#[test]
fn wider_union_return_does_not_collapse() {
    let rt = TsType::TsUnionType(vec![number(), null_kw(), undefined_kw()]);
    let fd = process_function("f".to_string(), vec![], &vec![], &Some(rt)).unwrap();
    assert_eq!(
        fd.ret,
        Some(ParamDesc {
            type_desc: TypeDesc::TsUnion(vec![
                TypeDesc::TsNumber,
                TypeDesc::TsNull,
                TypeDesc::TsUndefined,
            ]),
            reference: false,
            optional: false,
        })
    );
}

#[test]
fn void_return_erases_to_none() {
    let fd = process_function("f".to_string(), vec![], &vec![], &Some(void_kw())).unwrap();
    assert_eq!(fd.ret, None);
}

#[test]
fn missing_return_annotation_yields_none() {
    let fd = process_function("f".to_string(), vec![], &vec![], &None).unwrap();
    assert_eq!(fd.ret, None);
}

#[test]
fn method_gets_leading_receiver() {
    let fd = translate_method(&"getValue".to_string(), &vec![], &Some(number())).unwrap();
    assert_eq!(fd.name, "get_value");
    assert_eq!(fd.arguments.len(), 1);
    assert_eq!(fd.arguments[0].0, "this");
    assert_eq!(
        fd.arguments[0].1,
        ParamDesc { type_desc: TypeDesc::TsThis, reference: true, optional: false }
    );
}

#[test]
fn renamed_method_records_original_identifier() {
    let fd = translate_method(&"getValue".to_string(), &vec![], &None).unwrap();
    assert_eq!(
        fd.attributes,
        vec![
            ("method".to_string(), None),
            ("js_name".to_string(), Some("getValue".to_string())),
        ]
    );
}

#[test]
fn unrenamed_method_records_no_original_identifier() {
    let fd = translate_method(&"clone".to_string(), &vec![], &None).unwrap();
    assert_eq!(fd.attributes, vec![("method".to_string(), None)]);
}

#[test]
fn constructor_returns_the_class_by_value() {
    let fd = translate_constructor(&vec![CtorParam::Param(ident_param("x", number()))]).unwrap();
    assert_eq!(fd.name, "new");
    assert_eq!(fd.attributes, vec![("constructor".to_string(), None)]);
    assert_eq!(fd.arguments.len(), 1);
    assert!(!fd.arguments[0].1.reference);
    assert_eq!(
        fd.ret,
        Some(ParamDesc { type_desc: TypeDesc::TsThis, reference: false, optional: false })
    );
}

#[test]
fn constructor_parameter_properties_are_passed_over() {
    let fd = translate_constructor(&vec![
        CtorParam::TsParamProp,
        CtorParam::Param(ident_param("y", number())),
    ])
    .unwrap();
    assert_eq!(fd.arguments.len(), 1);
    assert_eq!(fd.arguments[0].0, "y");
}

fn method_member(sym: &str, comment: Option<&str>) -> ClassMember {
    ClassMember::Method {
        key: PropName::Ident(sym.to_string()),
        kind: MethodKind::Method,
        is_static: false,
        params: vec![],
        return_type: Some(void_kw()),
        leading_comment: comment.map(|c| c.to_string()),
    }
}

#[test]
fn class_records_superclass_as_extends() {
    let c = ClassDecl {
        ident: "Foo".to_string(),
        super_class: Some(threejs_bindgen::ast::SuperClass::Ident("Bar".to_string())),
        body: vec![],
    };
    let (cd, fails) = process_class(&c).unwrap();
    assert_eq!(cd.name, "Foo");
    assert_eq!(cd.attributes, vec![("extends".to_string(), Some("Bar".to_string()))]);
    assert!(fails.is_empty());
}

#[test]
fn only_first_constructor_signature_is_translated() {
    let c = ClassDecl {
        ident: "Foo".to_string(),
        super_class: None,
        body: vec![
            ClassMember::Constructor { params: vec![] },
            ClassMember::Constructor { params: vec![CtorParam::Param(ident_param("x", number()))] },
        ],
    };
    let (cd, _) = process_class(&c).unwrap();
    assert_eq!(cd.methods.len(), 1);
    assert_eq!(cd.methods[0].name, "new");
    assert!(cd.methods[0].arguments.is_empty());
}

#[test]
fn deprecated_method_is_absent_from_assembly() {
    let c = ClassDecl {
        ident: "Foo".to_string(),
        super_class: None,
        body: vec![
            method_member("keepMe", None),
            method_member("dropMe", Some("/** @deprecated use keepMe */")),
        ],
    };
    let (cd, fails) = process_class(&c).unwrap();
    assert_eq!(cd.methods.len(), 1);
    assert_eq!(cd.methods[0].name, "keep_me");
    assert!(fails.is_empty());
}

#[test]
fn getter_is_a_hard_error() {
    let c = ClassDecl {
        ident: "Foo".to_string(),
        super_class: None,
        body: vec![ClassMember::Method {
            key: PropName::Ident("value".to_string()),
            kind: MethodKind::Getter,
            is_static: false,
            params: vec![],
            return_type: Some(number()),
            leading_comment: None,
        }],
    };
    assert_eq!(process_class(&c), Err(Error::UnsupportedMember));
}

#[test]
fn static_member_is_a_hard_error() {
    let c = ClassDecl {
        ident: "Foo".to_string(),
        super_class: None,
        body: vec![ClassMember::Method {
            key: PropName::Ident("make".to_string()),
            kind: MethodKind::Method,
            is_static: true,
            params: vec![],
            return_type: None,
            leading_comment: None,
        }],
    };
    assert_eq!(process_class(&c), Err(Error::UnsupportedMember));
}

#[test]
fn failing_member_is_recorded_without_aborting_siblings() {
    let c = ClassDecl {
        ident: "Foo".to_string(),
        super_class: None,
        body: vec![
            ClassMember::Method {
                key: PropName::Ident("badOne".to_string()),
                kind: MethodKind::Method,
                is_static: false,
                params: vec![Param::Other],
                return_type: None,
                leading_comment: None,
            },
            method_member("goodOne", None),
        ],
    };
    let (cd, fails) = process_class(&c).unwrap();
    assert_eq!(cd.methods.len(), 1);
    assert_eq!(cd.methods[0].name, "good_one");
    assert_eq!(fails, vec![("bad_one".to_string(), Error::MalformedParameter)]);
}

#[test]
fn non_identifier_method_key_is_passed_over() {
    let c = ClassDecl {
        ident: "Foo".to_string(),
        super_class: None,
        body: vec![ClassMember::Method {
            key: PropName::Other,
            kind: MethodKind::Method,
            is_static: false,
            params: vec![],
            return_type: None,
            leading_comment: None,
        }],
    };
    let (cd, fails) = process_class(&c).unwrap();
    assert!(cd.methods.is_empty());
    assert!(fails.is_empty());
}
