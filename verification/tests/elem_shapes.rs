use ocara::ast::Type;
use ocara::ownership::{concrete_elem_shape, is_concrete_primitive_elem};

fn arr(inner: Type) -> Type {
    Type::Array(Box::new(inner))
}

fn map(inner: Type) -> Type {
    Type::Dict(Box::new(Type::Int), Box::new(inner))
}

#[test]
fn is_concrete_primitive_elem_true_for_int_float_bool_only() {
    assert!(is_concrete_primitive_elem(&Type::Int));
    assert!(is_concrete_primitive_elem(&Type::Float));
    assert!(is_concrete_primitive_elem(&Type::Bool));
    assert!(!is_concrete_primitive_elem(&Type::String));
    assert!(!is_concrete_primitive_elem(&Type::Mixed));
    assert!(!is_concrete_primitive_elem(&arr(Type::Int)));
    assert!(!is_concrete_primitive_elem(&map(Type::Int)));
    assert!(!is_concrete_primitive_elem(&Type::Named("Foo".into())));
}

#[test]
fn concrete_elem_shape_single_level_primitive() {
    assert_eq!(concrete_elem_shape(&arr(Type::Int)), Some(String::new()));
    assert_eq!(concrete_elem_shape(&map(Type::Float)), Some(String::new()));
}

#[test]
fn concrete_elem_shape_nested_depth_5_all_arrays() {
    let depth5 = arr(arr(arr(arr(arr(Type::Int)))));
    assert_eq!(concrete_elem_shape(&depth5), Some("AAAA".to_string()));
}

#[test]
fn concrete_elem_shape_mixed_array_and_map_nesting() {
    let ty = arr(Type::Dict(Box::new(Type::String), Box::new(arr(Type::Int))));
    assert_eq!(concrete_elem_shape(&ty), Some("MA".to_string()));
}

#[test]
fn concrete_elem_shape_none_as_soon_as_a_non_concrete_type_appears_at_any_depth() {
    assert_eq!(concrete_elem_shape(&arr(Type::String)), None);
    assert_eq!(concrete_elem_shape(&arr(Type::Mixed)), None);
    assert_eq!(concrete_elem_shape(&arr(Type::Named("Foo".into()))), None);
    assert_eq!(concrete_elem_shape(&arr(arr(Type::String))), None);
    assert_eq!(concrete_elem_shape(&arr(arr(arr(Type::Mixed)))), None);
}

#[test]
fn concrete_elem_shape_none_on_a_non_container_type() {
    assert_eq!(concrete_elem_shape(&Type::Int), None);
    assert_eq!(concrete_elem_shape(&Type::String), None);
}
