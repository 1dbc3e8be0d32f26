use ocara::ast::{Block, Expr, Span, Type};
use ocara::builder::LowerBuilder;
use ocara::ir::{IrModule, IrType};
use ocara::loops::{lower_for_in, lower_for_map};

fn span() -> Span {
    Span::new(0, 0)
}

fn ident(name: &str) -> Expr {
    Expr::Ident(name.to_string(), span())
}

fn empty_block() -> Block {
    Block { stmts: vec![], span: span() }
}

fn test_builder() -> LowerBuilder<'static> {
    LowerBuilder::new(IrModule::new("test"), "test_fn".into(), vec![], IrType::Void)
}

#[test]
fn for_in_array_of_class_registers_var_class() {
    let mut builder = test_builder();
    builder.elem_ast_types.insert("items".to_string(), Type::Named("Foo".to_string()));
    lower_for_in(&mut builder, "it", &ident("items"), &empty_block());
    assert_eq!(builder.var_class.get("it"), Some(&"Foo".to_string()));
}

#[test]
fn for_in_array_of_nullable_class_registers_var_class() {
    let mut builder = test_builder();
    builder.elem_ast_types.insert("items".to_string(), Type::Union(vec![Type::Named("Foo".to_string()), Type::Null]));
    lower_for_in(&mut builder, "it", &ident("items"), &empty_block());
    assert_eq!(builder.var_class.get("it"), Some(&"Foo".to_string()));
}

#[test]
fn for_in_array_of_map_still_registers_map_unaffected() {
    let mut builder = test_builder();
    builder.elem_ast_types.insert("rows".to_string(), Type::Dict(Box::new(Type::String), Box::new(Type::Mixed)));
    lower_for_in(&mut builder, "row", &ident("rows"), &empty_block());
    assert_eq!(builder.var_class.get("row"), Some(&"Map".to_string()));
    assert!(builder.map_vars.contains("row"));
}

#[test]
fn for_in_array_of_primitive_registers_nothing() {
    let mut builder = test_builder();
    builder.elem_ast_types.insert("nums".to_string(), Type::Int);
    lower_for_in(&mut builder, "n", &ident("nums"), &empty_block());
    assert_eq!(builder.var_class.get("n"), None);
}

#[test]
fn for_map_value_class_registers_var_class() {
    let mut builder = test_builder();
    builder.elem_ast_types.insert("m".to_string(), Type::Named("Foo".to_string()));
    lower_for_map(&mut builder, "k", "v", &ident("m"), &empty_block());
    assert_eq!(builder.var_class.get("v"), Some(&"Foo".to_string()));
}

#[test]
fn for_map_value_nullable_class_registers_var_class() {
    let mut builder = test_builder();
    builder.elem_ast_types.insert("m".to_string(), Type::Union(vec![Type::Named("Foo".to_string()), Type::Null]));
    lower_for_map(&mut builder, "k", "v", &ident("m"), &empty_block());
    assert_eq!(builder.var_class.get("v"), Some(&"Foo".to_string()));
}
