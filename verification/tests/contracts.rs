use ocara::ast::{
    BinOp, Block, ClassDecl, ClassMember, EnumDecl, EnumVariant, Expr, FuncDecl, Literal, OnClause, Program, Span, Stmt,
    SwitchCase, Type,
};
use ocara::builder::LowerBuilder;
use ocara::class_ownership::build_free_function;
use ocara::functions::{lower_func, FunctionTables};
use ocara::names::NameSet;
use ocara::control_flow::lower_switch;
use ocara::exceptions::lower_try;
use ocara::literals::lower_is_check;
use ocara::lower::lower_expr;
use ocara::ir::{BlockId, Inst, IrModule, IrType, Value};
use ocara::message_gen::collect_local_decls;
use ocara::names::NameMap;
use ocara::program::lower_program;
use ocara::wrappers::generate_wrapper;

fn span() -> Span {
    Span::new(0, 0)
}

fn block(stmts: Vec<Stmt>) -> Block {
    Block { stmts, span: span() }
}

fn int_lit(n: i64) -> Expr {
    Expr::Literal(Literal::Int(n), span())
}

fn builder() -> LowerBuilder<'static> {
    LowerBuilder::new(IrModule::new("test"), "test_fn".into(), vec![], IrType::Void)
}

fn empty_program() -> Program {
    Program {
        imports: vec![],
        consts: vec![],
        functions: vec![],
        classes: vec![],
        interfaces: vec![],
        modules: vec![],
        enums: vec![],
        runtime_blocks: vec![],
    }
}

fn try_stmt(body: Vec<Stmt>) -> Stmt {
    Stmt::Try {
        body: block(body),
        handlers: vec![OnClause { binding: "e".to_string(), class_filter: None, body: block(vec![]), span: span() }],
        span: span(),
    }
}

#[test]
fn nested_try_statements_get_distinct_numbers() {
    let mut b = builder();
    let inner = try_stmt(vec![]);
    lower_try(&mut b, &block(vec![inner]), &vec![]);
    let names: Vec<String> = b.module.functions.iter().map(|f| f.name.clone()).collect();
    assert!(names.contains(&"__try_body_0".to_string()), "{:?}", names);
    assert!(names.contains(&"__try_body_1".to_string()), "{:?}", names);
    assert!(names.contains(&"__try_handler_0".to_string()), "{:?}", names);
    assert!(names.contains(&"__try_handler_1".to_string()), "{:?}", names);
    let bodies = names.iter().filter(|n| n.starts_with("__try_body_")).count();
    assert_eq!(bodies, 2);
    assert_eq!(b.module.try_counter, 2);
}

#[test]
fn try_runs_its_functions_through_the_runtime() {
    let mut b = builder();
    lower_try(&mut b, &block(vec![]), &vec![]);
    let body_fn = b.module.functions.iter().find(|f| f.name == "__try_body_0").unwrap();
    assert_eq!(body_fn.ret_ty, IrType::Void);
    assert!(body_fn.params.is_empty());
    let handler_fn = b.module.functions.iter().find(|f| f.name == "__try_handler_0").unwrap();
    let pnames: Vec<&str> = handler_fn.params.iter().map(|p| p.name.as_str()).collect();
    assert_eq!(pnames, vec!["err_val", "err_type"]);
    let entry = &b.func.blocks[0];
    assert!(matches!(&entry[0], Inst::FuncAddr { func, .. } if func == "__try_body_0"));
    assert!(matches!(&entry[1], Inst::FuncAddr { func, .. } if func == "__try_handler_0"));
    assert!(entry.iter().any(|i| matches!(i, Inst::Call { func, args, .. } if func == "__ocara_try_exec" && args.len() == 2)));
    assert!(matches!(entry.last().unwrap(), Inst::Branch { .. }));
    assert!(b.func.blocks[b.func.current].is_empty());
}

#[test]
fn wrapper_passes_its_parameters_in_order_and_returns_the_result() {
    let mut module = IrModule::new("test");
    generate_wrapper(&mut module, "add", "__fn_wrap_add", &vec![IrType::I64, IrType::F64], IrType::I64, &NameMap::new());
    let w = module.functions.last().unwrap();
    let b = &w.blocks[0];
    let loaded: Vec<Value> = b.iter().filter_map(|i| match i {
        Inst::Load { dest, .. } => Some(*dest),
        _ => None,
    }).collect();
    let (dest, args) = match &b[b.len() - 2] {
        Inst::Call { dest, func, args, .. } => {
            assert_eq!(func, "add");
            (*dest, args.clone())
        },
        other => panic!("expected the call, got {:?}", other),
    };
    assert_eq!(args, loaded);
    match &b[b.len() - 1] {
        Inst::Return { value } => assert_eq!(*value, dest),
        other => panic!("expected a return, got {:?}", other),
    }
}

#[test]
fn switch_tests_each_case_in_turn() {
    let mut b = builder();
    let cases = vec![
        SwitchCase { pattern: Literal::Int(1), body: block(vec![]), span: span() },
        SwitchCase { pattern: Literal::Int(2), body: block(vec![]), span: span() },
    ];
    lower_switch(&mut b, &int_lit(7), &cases, &None);
    let tests: Vec<usize> = b.func.blocks.iter().enumerate()
        .filter(|(_, blk)| blk.iter().any(|i| matches!(i, Inst::CmpEq { .. })))
        .map(|(k, _)| k)
        .collect();
    assert_eq!(tests.len(), 2);
    let consts: Vec<i64> = tests.iter().map(|&k| {
        let blk = &b.func.blocks[k];
        let pos = blk.iter().position(|i| matches!(i, Inst::CmpEq { .. })).unwrap();
        match &blk[pos - 1] {
            Inst::ConstInt { value, .. } => *value,
            other => panic!("expected the pattern, got {:?}", other),
        }
    }).collect();
    assert_eq!(consts, vec![1, 2]);
}

#[test]
fn local_declarations_are_collected_from_nested_blocks() {
    let body = block(vec![
        Stmt::Var { name: "a".to_string(), ty: Type::Int, value: int_lit(1), mutable: true, kind: ocara::ast::VarKind::Var, span: span() },
        Stmt::While {
            condition: Expr::Literal(Literal::Bool(true), span()),
            body: block(vec![Stmt::Const { name: "b".to_string(), ty: Type::Float, value: int_lit(2), span: span() }]),
            span: span(),
        },
    ]);
    let decls = collect_local_decls(&body);
    let names: Vec<&str> = decls.iter().map(|(n, _)| n.as_str()).collect();
    assert_eq!(names, vec!["a", "b"]);
    assert_eq!(decls[1].1, IrType::F64);
}

#[test]
fn program_keeps_its_source_and_numbers_enum_variants() {
    let mut p = empty_program();
    p.enums.push(EnumDecl {
        name: "Level".to_string(),
        variants: vec![
            EnumVariant { name: "Low".to_string(), value: None },
            EnumVariant { name: "High".to_string(), value: Some(10) },
            EnumVariant { name: "Top".to_string(), value: None },
        ],
        span: span(),
    });
    let m = lower_program(&p, "levels.oc");
    assert_eq!(m.source_file, "levels.oc");
    let value_of = |k: &str| match m.class_consts.get(k) {
        Some((IrType::I64, Literal::Int(v))) => *v,
        other => panic!("{}: {:?}", k, other.is_some()),
    };
    assert_eq!(value_of("Level__Low"), 0);
    assert_eq!(value_of("Level__High"), 10);
    assert_eq!(value_of("Level__Top"), 11);
}

#[test]
fn subclass_inherits_parent_methods_it_does_not_define() {
    let mut p = empty_program();
    let m = |name: &str| ClassMember::Method {
        decl: FuncDecl { name: name.to_string(), params: vec![], ret_ty: Type::Int, body: block(vec![
            Stmt::Return { value: Some(int_lit(1)), span: span() },
        ]), is_async: false, span: span() },
        is_static: false,
        span: span(),
    };
    p.classes.push(ClassDecl { name: "A".to_string(), extends: None, implements: vec![], modules: vec![],
        members: vec![m("f"), m("g")], span: span() });
    p.classes.push(ClassDecl { name: "B".to_string(), extends: Some("A".to_string()), implements: vec![], modules: vec![],
        members: vec![m("g")], span: span() });
    let module = lower_program(&p, "c.oc");
    let count = |n: &str| module.functions.iter().filter(|f| f.name == n).count();
    assert_eq!(count("B_f"), 1);
    assert_eq!(count("B_g"), 1);
    assert!(module.functions.iter().any(|f| f.name == "__dispatch_A_f"));
}

#[test]
fn new_builder_starts_with_empty_tables() {
    let b = builder();
    assert!(b.fn_variadic_info.get("x").is_none());
    assert!(b.func_ret_types.get("x").is_none());
    assert!(!b.heap_promoted.contains("x"));
    assert!(!b.async_funcs.contains("x"));
    assert!(b.message_resume_blocks.is_empty());
    assert_eq!(b.func.blocks.len(), 1);
}

#[test]
fn class_test_compares_the_identity_with_each_candidate() {
    let mut b = builder();
    b.module.is_check_candidates.insert("A".to_string(), vec![3, 5]);
    let r = lower_is_check(&mut b, &Value(0), &Type::Named("A".to_string()));
    assert_eq!(b.func.blocks.len(), 3);
    assert_eq!(b.func.current, 2);
    let check = &b.func.blocks[1];
    assert!(matches!(&check[0], Inst::GetField { field, offset: -16, .. } if field == "__class_id"));
    let consts: Vec<i64> = check.iter().filter_map(|i| match i {
        Inst::ConstInt { value, .. } => Some(*value),
        _ => None,
    }).collect();
    assert_eq!(consts, vec![3, 5]);
    assert!(check.iter().any(|i| matches!(i, Inst::Or { .. })));
    assert!(matches!(check.last().unwrap(), Inst::Jump { target: BlockId(2) }));
    assert!(matches!(&b.func.blocks[2][..], [Inst::Load { dest, .. }] if *dest == r));
}

#[test]
fn integer_compared_with_float_is_converted_first() {
    let mut b = builder();
    let e = Expr::Binary {
        op: BinOp::Smaller,
        left: Box::new(int_lit(1)),
        right: Box::new(Expr::Literal(Literal::Float(2.5f64.to_bits()), span())),
        span: span(),
    };
    let r = lower_expr(&mut b, &e);
    let blk = &b.func.blocks[b.func.current];
    assert_eq!(blk.len(), 4);
    let a = match &blk[0] {
        Inst::ConstInt { dest, value: 1 } => *dest,
        other => panic!("{:?}", other),
    };
    let c = match &blk[1] {
        Inst::ConstFloat { dest, bits } => {
            assert_eq!(*bits, 2.5f64.to_bits());
            *dest
        },
        other => panic!("{:?}", other),
    };
    let w = match &blk[2] {
        Inst::Call { dest: Some(w), func, args, ret_ty: IrType::F64 } => {
            assert_eq!(func, "__int_to_float");
            assert_eq!(args, &vec![a]);
            *w
        },
        other => panic!("{:?}", other),
    };
    match &blk[3] {
        Inst::CmpLt { dest, lhs, rhs, ty: IrType::F64 } => {
            assert_eq!(*dest, r);
            assert_eq!(*lhs, w);
            assert_eq!(*rhs, c);
        },
        other => panic!("{:?}", other),
    }
}

#[test]
fn free_function_releases_the_object_after_a_null_test() {
    let mut module = IrModule::new("test");
    module.class_layouts.insert("P".to_string(), vec![("x".to_string(), IrType::I64), ("y".to_string(), IrType::I64)]);
    let f = build_free_function(&module, "P");
    assert_eq!(f.name, "__free_P");
    assert_eq!(f.blocks.len(), 3);
    assert!(matches!(f.blocks[0].last().unwrap(), Inst::Branch { then_bb: BlockId(2), else_bb: BlockId(1), .. }));
    let body = &f.blocks[1];
    let n = body.len();
    assert!(matches!(&body[n - 3], Inst::ConstInt { value: 2, .. }));
    assert!(matches!(&body[n - 2], Inst::Call { func, args, .. } if func == "__object_free" && args[0] == f.params[0].slot));
    assert!(matches!(&body[n - 1], Inst::Return { value: None }));
    assert!(matches!(&f.blocks[2][..], [Inst::Return { value: None }]));
}

fn lower_empty_function(ret_ty: Type) -> ocara::ir::IrFunction {
    let mut module = IrModule::new("test");
    let f = FuncDecl { name: "f".to_string(), params: vec![], ret_ty, body: block(vec![]), is_async: false, span: span() };
    let consts = vec![];
    let (rt, pt, pn, vi, af) = (NameMap::new(), NameMap::new(), NameMap::new(), NameMap::new(), NameSet::new());
    let tables = FunctionTables {
        fn_ret_types: &rt,
        fn_param_types: &pt,
        fn_param_names: &pn,
        fn_variadic_info: &vi,
        async_funcs: &af,
        consts: &consts,
    };
    let mut defaults: NameMap<Vec<Option<&Expr>>> = NameMap::new();
    lower_func(&mut module, &f, &tables, &mut defaults, None, None);
    module.functions.pop().unwrap()
}

#[test]
fn falling_through_returns_zero_or_nothing() {
    let int_fn = lower_empty_function(Type::Int);
    let b = &int_fn.blocks[int_fn.current];
    let n = b.len();
    let zero = match &b[n - 2] {
        Inst::ConstInt { dest, value: 0 } => *dest,
        other => panic!("{:?}", other),
    };
    assert!(matches!(&b[n - 1], Inst::Return { value: Some(v) } if *v == zero));
    let void_fn = lower_empty_function(Type::Void);
    let b = &void_fn.blocks[void_fn.current];
    assert!(matches!(b.last().unwrap(), Inst::Return { value: None }));
}
