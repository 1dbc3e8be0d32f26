use ocara::ast::{
    Block, ClassDecl, ClassMember, ConstDecl, EnumDecl, EnumVariant, Expr, FuncDecl, InterfaceDecl, InterfaceMethod,
    Literal, Param, Program, RuntimeBlock, RuntimeBlockKind, Span, Stmt, Type,
};
use ocara::ir::{IrModule, IrType};
use ocara::program::lower_program;

fn span() -> Span {
    Span::new(0, 0)
}

fn block(stmts: Vec<Stmt>) -> Block {
    Block { stmts, span: span() }
}

fn int_lit(n: i64) -> Expr {
    Expr::Literal(Literal::Int(n), span())
}

fn func(name: &str, params: Vec<Param>, ret_ty: Type, body: Vec<Stmt>) -> FuncDecl {
    FuncDecl { name: name.to_string(), params, ret_ty, body: block(body), is_async: false, span: span() }
}

fn method(decl: FuncDecl) -> ClassMember {
    ClassMember::Method { decl, is_static: false, span: span() }
}

fn class(name: &str, extends: Option<&str>, implements: Vec<&str>, members: Vec<ClassMember>) -> ClassDecl {
    ClassDecl {
        name: name.to_string(),
        extends: extends.map(|s| s.to_string()),
        implements: implements.into_iter().map(|s| s.to_string()).collect(),
        modules: vec![],
        members,
        span: span(),
    }
}

fn empty_program() -> Program {
    Program {
        imports: vec![],
        consts: vec![],
        functions: vec![],
        classes: vec![],
        interfaces: vec![],
        modules: vec![],
        enums: vec![],
        runtime_blocks: vec![],
    }
}

fn names(module: &IrModule) -> Vec<String> {
    module.functions.iter().map(|f| f.name.clone()).collect()
}

fn has(module: &IrModule, name: &str) -> bool {
    module.functions.iter().any(|f| f.name == name)
}

#[test]
fn free_function_is_lowered_with_its_wrapper() {
    let mut p = empty_program();
    p.functions.push(func("f", vec![], Type::Int, vec![Stmt::Return { value: Some(int_lit(1)), span: span() }]));
    let m = lower_program(&p, "prog.oc");
    assert_eq!(m.name, "ocara_module");
    assert_eq!(m.source_file, "prog.oc");
    assert!(has(&m, "f"), "functions: {:?}", names(&m));
    assert!(has(&m, "__fn_wrap_f"));
    let f = m.functions.iter().find(|f| f.name == "f").unwrap();
    assert_eq!(f.ret_ty, IrType::I64);
    assert!(m.diagnostics.is_empty());
}

#[test]
fn inherited_method_is_copied_and_dispatched() {
    let mut p = empty_program();
    p.classes.push(class("A", None, vec![], vec![method(func("m", vec![], Type::Int, vec![
        Stmt::Return { value: Some(int_lit(1)), span: span() },
    ]))]));
    p.classes.push(class("B", Some("A"), vec![], vec![]));
    let m = lower_program(&p, "prog.oc");
    assert!(has(&m, "A_m"));
    assert!(has(&m, "B_m"), "B inherits m: {:?}", names(&m));
    assert!(has(&m, "__dispatch_A_m"));
    assert!(!has(&m, "__dispatch_B_m"));
    assert!(m.classes_with_subclasses.contains("A"));
    assert!(!m.classes_with_subclasses.contains("B"));
    for c in ["A", "B"] {
        assert!(has(&m, &format!("__free_{}", c)));
        assert!(has(&m, &format!("__clone_{}", c)));
    }
    assert_eq!(m.class_ids.get("A"), Some(&1));
    assert_eq!(m.class_ids.get("B"), Some(&2));
    assert_eq!(m.is_check_candidates.get("A"), Some(&vec![1, 2]));
    assert_eq!(m.is_check_candidates.get("B"), Some(&vec![2]));
}

#[test]
fn interface_gets_a_dispatcher_over_its_implementers() {
    let mut p = empty_program();
    p.interfaces.push(InterfaceDecl {
        name: "Shape".to_string(),
        methods: vec![InterfaceMethod { name: "area".to_string(), params: vec![], ret_ty: Type::Int, span: span() }],
        span: span(),
    });
    p.classes.push(class("Square", None, vec!["Shape"], vec![method(func("area", vec![], Type::Int, vec![
        Stmt::Return { value: Some(int_lit(4)), span: span() },
    ]))]));
    let m = lower_program(&p, "prog.oc");
    assert!(has(&m, "Shape_area"));
    assert!(has(&m, "Square_area"));
    assert_eq!(m.is_check_candidates.get("Shape"), Some(&vec![1]));
}

#[test]
fn never_implemented_interface_has_no_dispatcher() {
    let mut p = empty_program();
    p.interfaces.push(InterfaceDecl {
        name: "Unused".to_string(),
        methods: vec![InterfaceMethod { name: "go".to_string(), params: vec![], ret_ty: Type::Void, span: span() }],
        span: span(),
    });
    let m = lower_program(&p, "prog.oc");
    assert!(!has(&m, "Unused_go"));
    assert!(m.is_check_candidates.get("Unused").is_none());
}

#[test]
fn class_layout_puts_parent_fields_first() {
    let mut p = empty_program();
    p.classes.push(class("Base", None, vec![], vec![
        ClassMember::Field { name: "a".to_string(), ty: Type::Int, span: span() },
    ]));
    p.classes.push(class("Child", Some("Base"), vec![], vec![
        ClassMember::Field { name: "b".to_string(), ty: Type::String, span: span() },
        ClassMember::Field { name: "a".to_string(), ty: Type::Int, span: span() },
    ]));
    let m = lower_program(&p, "prog.oc");
    let layout = m.class_layouts.get("Child").unwrap();
    let field_names: Vec<&str> = layout.iter().map(|(n, _)| n.as_str()).collect();
    assert_eq!(field_names, vec!["a", "b"]);
    assert_eq!(layout[1].1, IrType::Ptr);
    assert!(m.class_layouts.get("Exception").is_some());
}

#[test]
fn enum_variants_become_inlined_constants() {
    let mut p = empty_program();
    p.enums.push(EnumDecl {
        name: "Color".to_string(),
        variants: vec![
            EnumVariant { name: "Red".to_string(), value: None },
            EnumVariant { name: "Green".to_string(), value: Some(5) },
            EnumVariant { name: "Blue".to_string(), value: None },
        ],
        span: span(),
    });
    let m = lower_program(&p, "prog.oc");
    let value_of = |k: &str| match m.class_consts.get(k) {
        Some((IrType::I64, Literal::Int(v))) => *v,
        other => panic!("unexpected constant {:?}", other),
    };
    assert_eq!(value_of("Color__Red"), 0);
    assert_eq!(value_of("Color__Green"), 5);
    assert_eq!(value_of("Color__Blue"), 6);
}

#[test]
fn global_constants_get_their_bytes() {
    let mut p = empty_program();
    p.consts.push(ConstDecl { name: "N".to_string(), ty: Type::Int, value: int_lit(258), span: span() });
    p.consts.push(ConstDecl {
        name: "S".to_string(),
        ty: Type::String,
        value: Expr::Literal(Literal::String("ab".to_string()), span()),
        span: span(),
    });
    p.consts.push(ConstDecl { name: "Z".to_string(), ty: Type::Mixed, value: Expr::Literal(Literal::Null, span()), span: span() });
    p.consts.push(ConstDecl { name: "T".to_string(), ty: Type::Bool, value: Expr::Literal(Literal::Bool(true), span()), span: span() });
    let m = lower_program(&p, "prog.oc");
    assert_eq!(m.globals.len(), 4);
    assert_eq!(m.globals[0].name, "N");
    assert_eq!(m.globals[0].bytes, vec![2, 1, 0, 0, 0, 0, 0, 0]);
    assert_eq!(m.globals[1].bytes, b"ab".to_vec());
    assert_eq!(m.globals[2].bytes, vec![0u8; 8]);
    assert_eq!(m.globals[3].bytes, vec![1]);
}

#[test]
fn generator_becomes_new_and_resume() {
    let mut p = empty_program();
    p.functions.push(func(
        "count",
        vec![Param { name: "n".to_string(), ty: Type::Int, is_variadic: false, default_value: None, span: span() }],
        Type::Message(Box::new(Type::Int)),
        vec![Stmt::Emit { value: int_lit(1), span: span() }],
    ));
    let m = lower_program(&p, "prog.oc");
    assert!(has(&m, "count__new"));
    assert!(has(&m, "count__resume"));
    assert!(!has(&m, "count"));
    assert_eq!(m.message_funcs.get("count"), Some(&IrType::I64));
    let layout = m.class_layouts.get("__gen_count").unwrap();
    assert_eq!(layout[0].0, "__state");
    assert_eq!(layout[1].0, "__value");
    assert_eq!(layout[2].0, "n");
    let resume = m.functions.iter().find(|f| f.name == "count__resume").unwrap();
    assert_eq!(resume.ret_ty, IrType::Bool);
    assert_eq!(resume.params.len(), 1);
}

#[test]
fn runtime_blocks_assemble_main() {
    let mut p = empty_program();
    p.runtime_blocks.push(RuntimeBlock {
        kind: RuntimeBlockKind::Main,
        statements: vec![Stmt::Result { value: Some(int_lit(3)), span: span() }],
        span: span(),
    });
    p.runtime_blocks.push(RuntimeBlock { kind: RuntimeBlockKind::Error, statements: vec![], span: span() });
    let m = lower_program(&p, "prog.oc");
    let main = m.functions.iter().find(|f| f.name == "main").unwrap();
    assert_eq!(main.ret_ty, IrType::I64);
    assert!(main.params.is_empty());
}

#[test]
fn no_runtime_block_means_no_main() {
    let p = empty_program();
    let m = lower_program(&p, "prog.oc");
    assert!(!has(&m, "main"));
}
