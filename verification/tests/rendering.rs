use threejs_bindgen::error::Error;
use threejs_bindgen::emit::Writer;
use threejs_bindgen::wasm_bindgen_writer::WasmBindgenWriter;
use threejs_bindgen::wb::{ClassDesc, FunctionDesc, ModuleDesc, ParamDesc, TypeDesc};

fn param(ty: TypeDesc, reference: bool, optional: bool) -> ParamDesc {
    ParamDesc::new(ty, reference, optional)
}

#[test]
fn rust_type_spells_every_convertible_descriptor() {
    assert_eq!(TypeDesc::TsAny.rust_type(), Ok("JsValue"));
    assert_eq!(TypeDesc::TsBoolean.rust_type(), Ok("bool"));
    assert_eq!(TypeDesc::TsNumber.rust_type(), Ok("f64"));
    assert_eq!(TypeDesc::TsString.rust_type(), Ok("String"));
    assert_eq!(
        TypeDesc::TsArray(Box::new(TypeDesc::TsNumber)).rust_type(),
        Ok("&[f64]")
    );
    assert_eq!(
        TypeDesc::TsArray(Box::new(TypeDesc::TsString)).rust_type(),
        Ok("js_sys::Array")
    );
    assert_eq!(TypeDesc::TsFunction(vec![], None).rust_type(), Ok("js_sys::Function"));
    assert_eq!(
        TypeDesc::TsClass("Vector3".to_string()).rust_type(),
        Ok("Vector3")
    );
}

#[test]
fn rust_type_refuses_render_only_states() {
    assert_eq!(TypeDesc::TsNull.rust_type(), Err(Error::RenderableInvariantViolation));
    assert_eq!(TypeDesc::TsVoid.rust_type(), Err(Error::RenderableInvariantViolation));
    assert_eq!(
        TypeDesc::TsUndefined.rust_type(),
        Err(Error::RenderableInvariantViolation)
    );
    assert_eq!(
        TypeDesc::TsUnion(vec![]).rust_type(),
        Err(Error::RenderableInvariantViolation)
    );
    assert_eq!(TypeDesc::TsThis.rust_type(), Err(Error::MissingClassContext));
    assert_eq!(TypeDesc::Unimplemented.rust_type(), Err(Error::UnresolvedType));
}

#[test]
fn write_line_indents_four_spaces_per_level() {
    let mut w = Writer::new();
    w.write_line("a");
    w.set_indentation(2);
    w.write_line("b");
    assert_eq!(w.output_str(), "a\n        b\n");
}

#[test]
fn empty_attribute_bag_renders_bare_marker() {
    let mut w = Writer::new();
    w.write_export(&vec![]);
    assert_eq!(w.output_str(), "#[wasm_bindgen]\n");
}

#[test]
fn attribute_bag_renders_keys_and_values() {
    let mut w = Writer::new();
    w.write_export(&vec![
        ("method".to_string(), None),
        ("js_name".to_string(), Some("getValue".to_string())),
    ]);
    assert_eq!(w.output_str(), "#[wasm_bindgen(method, js_name = getValue)]\n");
}

#[test]
fn function_renders_each_matrix_shape() {
    let f = FunctionDesc::new(
        vec![],
        "probe".to_string(),
        vec![
            ("a".to_string(), param(TypeDesc::TsNumber, false, false)),
            ("b".to_string(), param(TypeDesc::TsNumber, false, true)),
            ("c".to_string(), param(TypeDesc::TsNumber, true, false)),
            ("d".to_string(), param(TypeDesc::TsNumber, true, true)),
        ],
        Some(param(TypeDesc::TsBoolean, false, true)),
    );
    let mut w = Writer::new();
    w.write_function(&f, None).unwrap();
    assert_eq!(
        w.output_str(),
        "#[wasm_bindgen]\npub fn probe(a: f64, b: Option<f64>, c: &f64, d: &Option<f64>) -> Option<bool>;\n"
    );
}

#[test]
fn this_resolves_to_the_enclosing_class_at_render_time() {
    let f = FunctionDesc::new(
        vec![("method".to_string(), None)],
        "clone".to_string(),
        vec![("this".to_string(), param(TypeDesc::TsThis, true, false))],
        Some(param(TypeDesc::TsThis, false, false)),
    );
    let mut w = Writer::new();
    w.write_function(&f, Some("Vector3")).unwrap();
    assert_eq!(
        w.output_str(),
        "#[wasm_bindgen(method)]\npub fn clone(this: &Vector3) -> Vector3;\n"
    );
}

#[test]
fn this_without_class_context_is_fatal() {
    let f = FunctionDesc::new(
        vec![],
        "f".to_string(),
        vec![("this".to_string(), param(TypeDesc::TsThis, true, false))],
        None,
    );
    let mut w = Writer::new();
    assert_eq!(w.write_function(&f, None), Err(Error::MissingClassContext));
    assert_eq!(w.output_str(), "");
}

#[test]
fn union_surviving_to_render_time_is_fatal() {
    let f = FunctionDesc::new(
        vec![],
        "f".to_string(),
        vec![(
            "u".to_string(),
            param(TypeDesc::TsUnion(vec![TypeDesc::TsNumber, TypeDesc::TsString]), false, false),
        )],
        None,
    );
    let mut w = Writer::new();
    assert_eq!(w.write_function(&f, None), Err(Error::RenderableInvariantViolation));
}

#[test]
fn unimplemented_surviving_to_render_time_is_an_unresolved_type() {
    let f = FunctionDesc::new(
        vec![],
        "f".to_string(),
        vec![("u".to_string(), param(TypeDesc::Unimplemented, false, false))],
        None,
    );
    let mut w = Writer::new();
    assert_eq!(w.write_function(&f, None), Err(Error::UnresolvedType));
}

#[test]
fn class_renders_type_and_methods() {
    let m = FunctionDesc::new(
        vec![("method".to_string(), None)],
        "norm".to_string(),
        vec![("this".to_string(), param(TypeDesc::TsThis, true, false))],
        Some(param(TypeDesc::TsNumber, false, false)),
    );
    let c = ClassDesc::new(
        "Vec2".to_string(),
        vec![("extends".to_string(), Some("Base".to_string()))],
        vec![m],
    );
    let mut w = Writer::new();
    w.set_indentation(1);
    w.write_class(c).unwrap();
    assert_eq!(
        w.output_str(),
        "    #[wasm_bindgen(extends = Base)]\n    pub type Vec2;\n    #[wasm_bindgen(method)]\n    pub fn norm(this: &Vec2) -> f64;\n"
    );
}

#[test]
fn module_wraps_class_in_a_foreign_block() {
    let c = ClassDesc::new("Empty".to_string(), vec![], vec![]);
    let md = ModuleDesc::new(
        vec![("module".to_string(), Some("x.js".to_string()))],
        c,
    );
    let mut w = Writer::new();
    w.write_module(md).unwrap();
    assert_eq!(
        w.output_str(),
        "#[wasm_bindgen(module = x.js)]\nextern \"C\" {\n    #[wasm_bindgen]\n    pub type Empty;\n}\n"
    );
}

#[test]
fn legacy_writeln_matches_indentation() {
    let mut w = WasmBindgenWriter::new();
    w.writeln("top");
    assert_eq!(w.output, "top\n");
}

#[test]
fn legacy_use_statements_brace_symbols_in_entry_order() {
    let mut w = WasmBindgenWriter::new();
    w.write_use_statements(&vec![
        ("self::math".to_string(), vec!["Vector3".to_string(), "Matrix4".to_string()]),
        ("super::core".to_string(), vec!["Object3D".to_string()]),
    ]);
    assert_eq!(
        w.output,
        "use self::math::{Vector3, Matrix4};\nuse super::core::{Object3D};\n"
    );
}
