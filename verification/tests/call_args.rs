use ocara::ast::{Expr, Literal, Span, Type};
use ocara::builder::LowerBuilder;
use ocara::helpers::{elem_type_after_index, is_map_target, param_type_for_call_arg, resolve_chained_field_class, CallForm};
use ocara::ir::{IrModule, IrType};

fn span() -> Span {
    Span::new(0, 0)
}

fn ident(name: &str) -> Expr {
    Expr::Ident(name.to_string(), span())
}

fn index(object: Expr, idx: Expr) -> Expr {
    Expr::Index { object: Box::new(object), index: Box::new(idx), span: span() }
}

fn int_lit(n: i64) -> Expr {
    Expr::Literal(Literal::Int(n), span())
}

fn new_expr(class: &str) -> Expr {
    Expr::New { class: class.to_string(), type_args: vec![], args: vec![], span: span() }
}

fn test_builder(module: IrModule) -> LowerBuilder<'static> {
    LowerBuilder::new(module, "test_fn".into(), vec![], IrType::Void)
}

#[test]
fn static_and_sugar_agree_on_array_get_param_types() {
    let builder = test_builder(IrModule::new("test"));
    assert_eq!(param_type_for_call_arg(&builder, "Array_get", 0, CallForm::Static), Some(IrType::Ptr));
    assert_eq!(param_type_for_call_arg(&builder, "Array_get", 1, CallForm::Static), Some(IrType::I64));
    assert_eq!(param_type_for_call_arg(&builder, "Array_get", 0, CallForm::Sugar), Some(IrType::I64));
}

#[test]
fn sugar_offset_is_exactly_one_relative_to_static() {
    let builder = test_builder(IrModule::new("test"));
    for mangled in ["Array_get", "Array_slice", "Map_get"] {
        for i in 0..2 {
            let sugar = param_type_for_call_arg(&builder, mangled, i, CallForm::Sugar);
            let static_shifted = param_type_for_call_arg(&builder, mangled, i + 1, CallForm::Static);
            assert_eq!(
                sugar, static_shifted,
                "{mangled}: sugar[{i}] must equal static[{}] (sugar={sugar:?}, static_shifted={static_shifted:?})",
                i + 1
            );
        }
    }
}

#[test]
fn user_function_param_types_never_shift_between_forms() {
    let mut builder = test_builder(IrModule::new("test"));
    builder.fn_param_types.insert("MaClasse_methode".into(), vec![IrType::I64, IrType::F64]);
    assert_eq!(param_type_for_call_arg(&builder, "MaClasse_methode", 0, CallForm::Static), Some(IrType::I64));
    assert_eq!(param_type_for_call_arg(&builder, "MaClasse_methode", 0, CallForm::Sugar), Some(IrType::I64));
    assert_eq!(param_type_for_call_arg(&builder, "MaClasse_methode", 1, CallForm::Static), Some(IrType::F64));
    assert_eq!(param_type_for_call_arg(&builder, "MaClasse_methode", 1, CallForm::Sugar), Some(IrType::F64));
}

#[test]
fn unknown_mangled_returns_none_for_both_forms() {
    let builder = test_builder(IrModule::new("test"));
    assert_eq!(param_type_for_call_arg(&builder, "Inconnu_methode", 0, CallForm::Static), None);
    assert_eq!(param_type_for_call_arg(&builder, "Inconnu_methode", 0, CallForm::Sugar), None);
}

#[test]
fn is_map_target_single_level_ident_unaffected() {
    let mut builder = test_builder(IrModule::new("test"));
    builder.map_vars.insert("m".to_string());
    assert!(is_map_target(&builder, &ident("m")));
    assert!(!is_map_target(&builder, &ident("arr")));
}

#[test]
fn is_map_target_depth_2_array_of_map() {
    let mut builder = test_builder(IrModule::new("test"));
    builder.elem_ast_types.insert("arr".to_string(), Type::Dict(Box::new(Type::String), Box::new(Type::Mixed)));
    let arr_0 = index(ident("arr"), int_lit(0));
    assert!(is_map_target(&builder, &arr_0), "arr[0] must be recognised as a map");
}

#[test]
fn is_map_target_depth_3_nested_arrays_of_map() {
    let mut builder = test_builder(IrModule::new("test"));
    builder.elem_ast_types.insert(
        "matrix".to_string(),
        Type::Array(Box::new(Type::Dict(Box::new(Type::String), Box::new(Type::Mixed)))),
    );
    let matrix_0 = index(ident("matrix"), int_lit(0));
    let matrix_0_1 = index(matrix_0, int_lit(1));
    assert!(is_map_target(&builder, &matrix_0_1), "matrix[0][1] must be recognised as a map");
}

#[test]
fn elem_type_after_index_depth_5_has_no_hardcoded_limit() {
    let mut builder = test_builder(IrModule::new("test"));
    let mut ty = Type::Dict(Box::new(Type::String), Box::new(Type::Mixed));
    for _ in 0..3 {
        ty = Type::Array(Box::new(ty));
    }
    builder.elem_ast_types.insert("deep".to_string(), ty);
    let mut expr = ident("deep");
    for _ in 0..4 {
        expr = index(expr, int_lit(0));
    }
    assert!(is_map_target(&builder, &expr), "deep[0][0][0][0] must be recognised as a map");
}

#[test]
fn is_map_target_pure_arrays_never_map_shaped() {
    let mut builder = test_builder(IrModule::new("test"));
    builder.elem_ast_types.insert("nums".to_string(), Type::Array(Box::new(Type::Int)));
    let nums_0 = index(ident("nums"), int_lit(0));
    assert!(!is_map_target(&builder, &nums_0), "nums[0] (array<int>) is never a map");
}

#[test]
fn elem_type_after_index_unwraps_union_with_null() {
    let mut builder = test_builder(IrModule::new("test"));
    builder.elem_ast_types.insert(
        "arr".to_string(),
        Type::Union(vec![Type::Dict(Box::new(Type::String), Box::new(Type::Mixed)), Type::Null]),
    );
    let arr_0 = index(ident("arr"), int_lit(0));
    assert!(is_map_target(&builder, &arr_0), "arr[0] (map<...>|null) must be recognised as a map");
}

#[test]
fn elem_type_after_index_unknown_expr_returns_none_without_panic() {
    let builder = test_builder(IrModule::new("test"));
    let lit = int_lit(42);
    assert_eq!(elem_type_after_index(&builder, &lit), None);
    assert!(!is_map_target(&builder, &lit));
}

#[test]
fn resolve_chained_field_class_recognizes_new_expr_as_base() {
    let mut module = IrModule::new("test");
    module.class_field_types.insert("Foo".to_string(), vec![("inner".to_string(), Type::Named("Bar".to_string()))]);
    let builder = test_builder(module);
    let result = resolve_chained_field_class(&builder, &new_expr("Foo"), "inner");
    assert_eq!(result, Some("Bar".to_string()), "Foo().inner must resolve to class Bar");
}
