use threejs_bindgen::ast::{TsEntityName, TsFnParam, TsKeywordKind, TsType};
use threejs_bindgen::error::Error;
use threejs_bindgen::translate::process_type;
use threejs_bindgen::wb::TypeDesc;

fn number() -> TsType {
    TsType::TsKeywordType(TsKeywordKind::TsNumberKeyword)
}

fn string_kw() -> TsType {
    TsType::TsKeywordType(TsKeywordKind::TsStringKeyword)
}

fn type_ref(name: &str, params: Option<Vec<TsType>>) -> TsType {
    TsType::TsTypeRef(TsEntityName::Ident(name.to_string()), params)
}

#[test]
fn keywords_map_one_to_one() {
    assert_eq!(
        process_type(&TsType::TsKeywordType(TsKeywordKind::TsAnyKeyword)),
        Ok(TypeDesc::TsAny)
    );
    assert_eq!(
        process_type(&TsType::TsKeywordType(TsKeywordKind::TsBooleanKeyword)),
        Ok(TypeDesc::TsBoolean)
    );
    assert_eq!(
        process_type(&TsType::TsKeywordType(TsKeywordKind::TsNullKeyword)),
        Ok(TypeDesc::TsNull)
    );
    assert_eq!(process_type(&number()), Ok(TypeDesc::TsNumber));
    assert_eq!(process_type(&string_kw()), Ok(TypeDesc::TsString));
    assert_eq!(
        process_type(&TsType::TsKeywordType(TsKeywordKind::TsVoidKeyword)),
        Ok(TypeDesc::TsVoid)
    );
    assert_eq!(
        process_type(&TsType::TsKeywordType(TsKeywordKind::TsUndefinedKeyword)),
        Ok(TypeDesc::TsUndefined)
    );
    assert_eq!(
        process_type(&TsType::TsKeywordType(TsKeywordKind::Unsupported)),
        Err(Error::UnresolvedType)
    );
}

#[test]
fn array_and_array_like_normalize_identically() {
    let arr = TsType::TsArrayType(Box::new(number()));
    let al = type_ref("ArrayLike", Some(vec![number()]));
    let a = process_type(&arr).unwrap();
    let b = process_type(&al).unwrap();
    assert_eq!(a, b);
    assert_eq!(a, TypeDesc::TsArray(Box::new(TypeDesc::TsNumber)));
}

#[test]
fn array_like_is_case_insensitive() {
    let al = type_ref("arraylike", Some(vec![string_kw()]));
    assert_eq!(
        process_type(&al),
        Ok(TypeDesc::TsArray(Box::new(TypeDesc::TsString)))
    );
}

#[test]
fn array_like_without_parameters_is_an_error() {
    assert_eq!(
        process_type(&type_ref("ArrayLike", None)),
        Err(Error::UnresolvedType)
    );
    assert_eq!(
        process_type(&type_ref("ArrayLike", Some(vec![]))),
        Err(Error::UnresolvedType)
    );
}

#[test]
fn named_reference_resolves_to_class() {
    assert_eq!(
        process_type(&type_ref("Vector3", None)),
        Ok(TypeDesc::TsClass("Vector3".to_string()))
    );
}

#[test]
fn this_resolves_to_the_placeholder() {
    assert_eq!(process_type(&TsType::TsThisType), Ok(TypeDesc::TsThis));
}

#[test]
fn union_members_keep_source_order() {
    let u = TsType::TsUnionType(vec![number(), string_kw()]);
    assert_eq!(
        process_type(&u),
        Ok(TypeDesc::TsUnion(vec![TypeDesc::TsNumber, TypeDesc::TsString]))
    );
}

#[test]
fn intersection_resolves_to_unimplemented() {
    assert_eq!(
        process_type(&TsType::TsIntersectionType),
        Ok(TypeDesc::Unimplemented)
    );
}

#[test]
fn unknown_shapes_resolve_to_unimplemented() {
    assert_eq!(process_type(&TsType::Other), Ok(TypeDesc::Unimplemented));
}

#[test]
fn function_type_resolves_params_and_return() {
    let f = TsType::TsFnType(
        vec![TsFnParam::Ident(
            "onLoad".to_string(),
            Some(Box::new(number())),
        )],
        Some(Box::new(TsType::TsKeywordType(TsKeywordKind::TsVoidKeyword))),
    );
    assert_eq!(
        process_type(&f),
        Ok(TypeDesc::TsFunction(
            vec![("on_load".to_string(), TypeDesc::TsNumber)],
            Some(Box::new(TypeDesc::TsVoid)),
        ))
    );
}

#[test]
fn function_type_without_param_identifier_is_an_error() {
    let f = TsType::TsFnType(vec![TsFnParam::Other], Some(Box::new(number())));
    assert_eq!(process_type(&f), Err(Error::UnresolvedType));
}

#[test]
fn function_type_without_return_annotation_is_an_error() {
    let f = TsType::TsFnType(vec![], None);
    assert_eq!(process_type(&f), Err(Error::UnresolvedType));
}

#[test]
fn constructor_type_is_an_error() {
    assert_eq!(
        process_type(&TsType::TsConstructorType),
        Err(Error::UnresolvedType)
    );
}

#[test]
fn qualified_type_name_is_an_error() {
    let t = TsType::TsTypeRef(TsEntityName::Other, None);
    assert_eq!(process_type(&t), Err(Error::UnresolvedType));
}
