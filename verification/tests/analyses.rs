use ocara::ast::{Block, Expr, Literal, Param, Span, Stmt, Type, VarKind};
use ocara::builder::LowerBuilder;
use ocara::captures::{collect_captures, names_captured_by_nested_closures, references_after};
use ocara::class_dispatch::emit_class_id_dispatch;
use ocara::ir::{Inst, IrModule, IrType, Value};
use ocara::names::{NameMap, NameSet};
use ocara::ownership::compute_auto_freeable_vars;

fn span() -> Span {
    Span::new(0, 0)
}

fn ident(name: &str) -> Expr {
    Expr::Ident(name.to_string(), span())
}

fn block(stmts: Vec<Stmt>) -> Block {
    Block { stmts, span: span() }
}

fn closure(params: Vec<&str>, body: Vec<Stmt>) -> Expr {
    Expr::Nameless {
        params: params
            .into_iter()
            .map(|p| Param { name: p.to_string(), ty: Type::Int, is_variadic: false, default_value: None, span: span() })
            .collect(),
        ret_ty: None,
        body: block(body),
        span: span(),
    }
}

fn scope(names: &[&str]) -> NameMap<(Value, IrType, bool)> {
    let mut l = NameMap::new();
    for (k, n) in names.iter().enumerate() {
        l.insert(n.to_string(), (Value(k as u32), IrType::I64, true));
    }
    l
}

fn names(caps: &[(String, IrType)]) -> Vec<&str> {
    caps.iter().map(|c| c.0.as_str()).collect()
}

#[test]
fn captures_are_the_enclosing_variables_referenced() {
    let body = block(vec![
        Stmt::Expr(Expr::Binary { op: ocara::ast::BinOp::Add, left: Box::new(ident("a")), right: Box::new(ident("x")), span: span() }),
        Stmt::Return { value: Some(ident("b")), span: span() },
        Stmt::Expr(ident("a")),
        Stmt::Expr(ident("unknown")),
    ]);
    let mut params = NameSet::new();
    params.insert("x".to_string());
    let caps = collect_captures(&body, &params, &scope(&["a", "b", "x", "c"]));
    assert_eq!(names(&caps), vec!["a", "b"]);
}

#[test]
fn captures_include_what_nested_closures_need() {
    let inner = closure(vec!["y"], vec![Stmt::Expr(ident("c")), Stmt::Expr(ident("y"))]);
    let body = block(vec![Stmt::Expr(inner), Stmt::Expr(Expr::SelfExpr(span()))]);
    let caps = collect_captures(&body, &NameSet::new(), &scope(&["c", "y"]));
    assert_eq!(names(&caps), vec!["c", "self"]);
}

#[test]
fn only_nested_closures_count_for_heap_promotion() {
    let body = block(vec![
        Stmt::Expr(ident("direct")),
        Stmt::Expr(closure(vec![], vec![Stmt::Expr(ident("shared"))])),
    ]);
    let caps = names_captured_by_nested_closures(&body, &scope(&["direct", "shared"]));
    assert_eq!(names(&caps), vec!["shared"]);
}

#[test]
fn later_references_are_found_through_closures() {
    let body = block(vec![
        Stmt::Expr(ident("v")),
        Stmt::Expr(Expr::Literal(Literal::Int(1), span())),
        Stmt::Expr(closure(vec![], vec![Stmt::Expr(ident("v"))])),
    ]);
    assert!(references_after(&body, 1, "v"));
    assert!(!references_after(&body, 3, "v"));
    assert!(!references_after(&body, 10, "v"));
    assert!(!references_after(&body, 1, "w"));
}

fn var_decl(name: &str, ty: Type, value: Expr) -> Stmt {
    Stmt::Var { name: name.to_string(), ty, value, mutable: true, kind: VarKind::Var, span: span() }
}

#[test]
fn fresh_values_that_never_escape_are_released_automatically() {
    let fresh = || Expr::Array { elements: vec![], span: span() };
    let body = block(vec![
        var_decl("kept", Type::Array(Box::new(Type::Int)), fresh()),
        var_decl("escapes", Type::Array(Box::new(Type::Int)), fresh()),
        Stmt::Return { value: Some(ident("escapes")), span: span() },
        var_decl("number", Type::Int, Expr::Literal(Literal::Int(3), span())),
        Stmt::While {
            condition: Expr::Literal(Literal::Bool(false), span()),
            body: block(vec![var_decl("inner", Type::String, Expr::Literal(Literal::String("s".to_string()), span()))]),
            span: span(),
        },
    ]);
    let module = IrModule::new("test");
    let auto = compute_auto_freeable_vars(&module, &body, None);
    assert!(auto.contains("kept"));
    assert!(auto.contains("inner"));
    assert!(!auto.contains("escapes"));
    assert!(!auto.contains("number"));
}

#[test]
fn class_dispatch_forwards_to_each_candidate() {
    let mut b = LowerBuilder::new(IrModule::new("test"), "__dispatch_Shape_area".into(), vec![], IrType::I64);
    let self_val = b.new_value();
    let arg = b.new_value();
    let candidates = vec!["Shape".to_string(), "Circle".to_string()];
    let mut ids = NameMap::new();
    ids.insert("Shape".to_string(), 1i64);
    ids.insert("Circle".to_string(), 2i64);
    let first = b.func.blocks.len();
    emit_class_id_dispatch(&mut b, &candidates, "area", &ids, self_val, &vec![arg], IrType::I64);
    for (k, cand) in candidates.iter().enumerate() {
        let blk = &b.func.blocks[first + 2 * k];
        match &blk[0] {
            Inst::Call { func, args, .. } => {
                assert_eq!(func, &format!("{}_area", cand));
                assert_eq!(args, &vec![self_val, arg]);
            },
            other => panic!("unexpected {:?}", other),
        }
        assert!(matches!(blk[1], Inst::Return { .. }));
    }
}
