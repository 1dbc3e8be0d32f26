use ocara::ast::Type;
use ocara::builder::LowerBuilder;
use ocara::ir::{IrModule, IrType};
use ocara::variables::{map_value_type, register_var_class};

fn builder() -> LowerBuilder<'static> {
    LowerBuilder::new(IrModule::new("test"), "test_fn".into(), vec![], IrType::Void)
}

#[test]
fn map_value_type_direct_map() {
    let ty = Type::Dict(Box::new(Type::String), Box::new(Type::Int));
    assert_eq!(map_value_type(&ty), Some(&Type::Int));
}

#[test]
fn map_value_type_unwraps_union_with_null() {
    let ty = Type::Union(vec![Type::Dict(Box::new(Type::String), Box::new(Type::Mixed)), Type::Null]);
    assert_eq!(map_value_type(&ty), Some(&Type::Mixed));
}

#[test]
fn map_value_type_union_order_independent() {
    let ty = Type::Union(vec![Type::Null, Type::Dict(Box::new(Type::Int), Box::new(Type::Bool))]);
    assert_eq!(map_value_type(&ty), Some(&Type::Bool));
}

#[test]
fn map_value_type_none_for_non_map_types() {
    assert_eq!(map_value_type(&Type::Int), None);
    assert_eq!(map_value_type(&Type::String), None);
    assert_eq!(map_value_type(&Type::Array(Box::new(Type::Int))), None);
    assert_eq!(map_value_type(&Type::Union(vec![Type::String, Type::Null])), None);
}

#[test]
fn register_var_class_named_class_direct() {
    let mut b = builder();
    register_var_class(&mut b, "x", &Type::Named("Foo".to_string()));
    assert_eq!(b.var_class.get("x"), Some(&"Foo".to_string()));
}

#[test]
fn register_var_class_union_with_null_registers_named_class() {
    let mut b = builder();
    let ty = Type::Union(vec![Type::Named("Foo".to_string()), Type::Null]);
    register_var_class(&mut b, "f", &ty);
    assert_eq!(b.var_class.get("f"), Some(&"Foo".to_string()), "Foo|null must register class Foo");
}

#[test]
fn register_var_class_union_order_independent() {
    let mut b = builder();
    let ty = Type::Union(vec![Type::Null, Type::Named("Foo".to_string())]);
    register_var_class(&mut b, "f", &ty);
    assert_eq!(b.var_class.get("f"), Some(&"Foo".to_string()));
}

#[test]
fn register_var_class_union_without_named_variant_registers_nothing() {
    let mut b = builder();
    let ty = Type::Union(vec![Type::Int, Type::Null]);
    register_var_class(&mut b, "x", &ty);
    assert_eq!(b.var_class.get("x"), None);
}

#[test]
fn register_var_class_string_array_map_builtins() {
    let mut b = builder();
    register_var_class(&mut b, "s", &Type::String);
    register_var_class(&mut b, "a", &Type::Array(Box::new(Type::Int)));
    register_var_class(&mut b, "m", &Type::Dict(Box::new(Type::String), Box::new(Type::Int)));
    assert_eq!(b.var_class.get("s"), Some(&"String".to_string()));
    assert_eq!(b.var_class.get("a"), Some(&"Array".to_string()));
    assert_eq!(b.var_class.get("m"), Some(&"Map".to_string()));
}

#[test]
fn register_var_class_function_registers_func_vars() {
    let mut b = builder();
    let ty = Type::Function { ret_ty: Box::new(Type::Int), param_tys: vec![] };
    register_var_class(&mut b, "cb", &ty);
    assert!(b.func_vars.contains("cb"));
    assert_eq!(b.func_ret_types.get("cb"), Some(&IrType::I64));
}

#[test]
fn register_var_class_primitive_registers_nothing() {
    let mut b = builder();
    register_var_class(&mut b, "n", &Type::Int);
    assert_eq!(b.var_class.get("n"), None);
    assert!(!b.func_vars.contains("n"));
}
