use ocara::ast::{Block, ClassDecl, Expr, FuncDecl, Literal, Param, Span, Stmt, Type, VarKind};
use ocara::block::lower_block;
use ocara::builder::{slot_offset, LowerBuilder};
use ocara::class_dispatch::{class_dispatcher_name, transitive_descendants};
use ocara::functions::{lower_func, FunctionTables};
use ocara::helpers::complete_args_with_defaults;
use ocara::ir::{Inst, IrModule, IrType};
use ocara::literals::lower_literal;
use ocara::lower::lower_expr;
use ocara::message_gen::{collect_local_decls, emit_generator_exhausted, frame_class_name, is_message_func, new_func_name, register_message_func, resume_func_name};
use ocara::names::{NameMap, NameSet};
use ocara::scope::{monomorphized_name, union_named_class};
use ocara::tauri::serde_json_like_string_array;
use ocara::wrappers::{generate_async_wrapper, generate_wrapper};

fn span() -> Span {
    Span::new(0, 0)
}

fn ident(name: &str) -> Expr {
    Expr::Ident(name.to_string(), span())
}

fn int_lit(n: i64) -> Expr {
    Expr::Literal(Literal::Int(n), span())
}

fn builder() -> LowerBuilder<'static> {
    LowerBuilder::new(IrModule::new("test"), "test_fn".into(), vec![], IrType::Void)
}

fn class(name: &str, extends: Option<&str>) -> ClassDecl {
    ClassDecl {
        name: name.to_string(),
        extends: extends.map(|s| s.to_string()),
        implements: vec![],
        modules: vec![],
        members: vec![],
        span: span(),
    }
}

fn last_inst(b: &LowerBuilder) -> Inst {
    b.func.blocks[b.func.current].last().unwrap().clone()
}

#[test]
fn descendants_are_found_depth_first_each_once() {
    let classes = vec![class("A", None), class("B", Some("A")), class("C", Some("B")), class("D", Some("A"))];
    assert_eq!(transitive_descendants("A", &classes), vec!["B", "D", "C"]);
    assert_eq!(transitive_descendants("B", &classes), vec!["C"]);
    assert!(transitive_descendants("C", &classes).is_empty());
}

#[test]
fn descendants_terminate_on_an_inheritance_cycle() {
    let classes = vec![class("X", Some("Y")), class("Y", Some("X"))];
    assert_eq!(transitive_descendants("X", &classes), vec!["Y", "X"]);
}

#[test]
fn dispatcher_name_only_for_classes_with_subclasses() {
    let mut module = IrModule::new("test");
    assert_eq!(class_dispatcher_name(&module, "Shape", "area"), None);
    module.classes_with_subclasses.insert("Shape".to_string());
    assert_eq!(class_dispatcher_name(&module, "Shape", "area"), Some("__dispatch_Shape_area".to_string()));
}

#[test]
fn literal_lowers_to_one_constant() {
    let mut b = builder();
    let v = lower_literal(&mut b, &Literal::Int(42));
    match last_inst(&b) {
        Inst::ConstInt { dest, value } => {
            assert_eq!(dest, v);
            assert_eq!(value, 42);
        },
        other => panic!("unexpected {:?}", other),
    }
    let s = lower_literal(&mut b, &Literal::String("hi".to_string()));
    match last_inst(&b) {
        Inst::ConstStr { dest, idx } => {
            assert_eq!(dest, s);
            assert_eq!(b.module.strings[idx], "hi");
        },
        other => panic!("unexpected {:?}", other),
    }
    lower_literal(&mut b, &Literal::Float(4607182418800017408));
    assert!(matches!(last_inst(&b), Inst::ConstFloat { bits: 4607182418800017408, .. }));
}

#[test]
fn block_locals_disappear_after_the_block() {
    let mut b = builder();
    let body = Block {
        stmts: vec![Stmt::Var {
            name: "x".to_string(),
            ty: Type::Int,
            value: int_lit(1),
            mutable: true,
            kind: VarKind::Var,
            span: span(),
        }],
        span: span(),
    };
    lower_block(&mut b, &body);
    assert!(b.locals.get("x").is_none());
    assert!(b.block_scope_stack.is_empty());
}

#[test]
fn defaults_complete_missing_trailing_arguments() {
    let seven = int_lit(7);
    let mut defaults: NameMap<Vec<Option<&Expr>>> = NameMap::new();
    defaults.insert("f".to_string(), vec![None, Some(&seven)]);
    let args = vec![int_lit(1)];
    let completed = complete_args_with_defaults(&defaults, "f", &args);
    assert_eq!(completed.len(), 2);
    assert_eq!(completed[0], &args[0]);
    assert_eq!(completed[1], &seven);
    let full = vec![int_lit(1), int_lit(2)];
    assert_eq!(complete_args_with_defaults(&defaults, "f", &full).len(), 2);
    assert_eq!(complete_args_with_defaults(&defaults, "g", &args).len(), 1);
}

#[test]
fn fat_pointer_wrapper_of_a_void_function_returns_a_word() {
    let mut module = IrModule::new("test");
    generate_wrapper(&mut module, "log", "__fn_wrap_log", &vec![IrType::Ptr, IrType::F64], IrType::Void, &NameMap::new());
    let w = module.functions.last().unwrap();
    assert_eq!(w.name, "__fn_wrap_log");
    assert_eq!(w.ret_ty, IrType::I64);
    let pnames: Vec<&str> = w.params.iter().map(|p| p.name.as_str()).collect();
    assert_eq!(pnames, vec!["__env", "__p0", "__p1"]);
    assert_eq!(w.params[2].ty, IrType::F64);
}

#[test]
fn async_wrapper_reads_arguments_from_the_environment() {
    let mut module = IrModule::new("test");
    generate_async_wrapper(&mut module, "work", "__async_wrap_work", &vec![IrType::I64, IrType::I64], IrType::Bool, &NameMap::new());
    let w = module.functions.last().unwrap();
    assert_eq!(w.ret_ty, IrType::I64);
    assert_eq!(w.params.len(), 1);
    let offsets: Vec<i32> = w.blocks[0].iter().filter_map(|i| match i {
        Inst::GetField { offset, .. } => Some(*offset),
        _ => None,
    }).collect();
    assert_eq!(offsets, vec![0, 8]);
    assert!(w.blocks[0].iter().any(|i| matches!(i, Inst::Call { func, .. } if func == "__box_bool")));
}

#[test]
fn variadic_parameter_arrives_as_an_array() {
    let mut module = IrModule::new("test");
    let f = FuncDecl {
        name: "sum".to_string(),
        params: vec![Param {
            name: "xs".to_string(),
            ty: Type::Array(Box::new(Type::Int)),
            is_variadic: true,
            default_value: None,
            span: span(),
        }],
        ret_ty: Type::Int,
        body: Block { stmts: vec![], span: span() },
        is_async: false,
        span: span(),
    };
    let consts = vec![];
    let (rt, pt, pn, vi, af) = (NameMap::new(), NameMap::new(), NameMap::new(), NameMap::new(), NameSet::new());
    let tables = FunctionTables {
        fn_ret_types: &rt,
        fn_param_types: &pt,
        fn_param_names: &pn,
        fn_variadic_info: &vi,
        async_funcs: &af,
        consts: &consts,
    };
    let mut defaults: NameMap<Vec<Option<&Expr>>> = NameMap::new();
    lower_func(&mut module, &f, &tables, &mut defaults, None, None);
    let lowered = module.functions.last().unwrap();
    assert_eq!(lowered.name, "sum");
    assert_eq!(lowered.params[0].ty, IrType::Ptr);
    assert_eq!(lowered.ret_ty, IrType::I64);
    let entry_last = lowered.blocks.last().unwrap().last().unwrap();
    assert!(matches!(entry_last, Inst::Return { value: Some(_) }));
}

#[test]
fn generator_names_and_exhaustion() {
    assert!(is_message_func(&Type::Message(Box::new(Type::Int))));
    assert!(!is_message_func(&Type::Int));
    assert_eq!(frame_class_name("g"), "__gen_g");
    assert_eq!(new_func_name("g"), "g__new");
    assert_eq!(resume_func_name("g"), "g__resume");
    let mut b = builder();
    emit_generator_exhausted(&mut b);
    assert!(b.is_terminated());
}

#[test]
fn generator_frame_lists_each_variable_once() {
    let var = |n: &str| Stmt::Var {
        name: n.to_string(),
        ty: Type::Int,
        value: int_lit(0),
        mutable: true,
        kind: VarKind::Var,
        span: span(),
    };
    let body = Block {
        stmts: vec![var("a"), Stmt::While { condition: ident("c"), body: Block { stmts: vec![var("a"), var("b")], span: span() }, span: span() }],
        span: span(),
    };
    let decls = collect_local_decls(&body);
    let names: Vec<&str> = decls.iter().map(|(n, _)| n.as_str()).collect();
    assert_eq!(names, vec!["a", "b"]);
    let mut module = IrModule::new("test");
    let f = FuncDecl {
        name: "gen".to_string(),
        params: vec![],
        ret_ty: Type::Message(Box::new(Type::String)),
        body,
        is_async: false,
        span: span(),
    };
    register_message_func(&mut module, &f);
    let layout = module.class_layouts.get("__gen_gen").unwrap();
    let fields: Vec<&str> = layout.iter().map(|(n, _)| n.as_str()).collect();
    assert_eq!(fields, vec!["__state", "__value", "a", "b"]);
    assert_eq!(layout[1].1, IrType::Ptr);
}

#[test]
fn slots_are_eight_bytes_apart() {
    assert_eq!(slot_offset(0), 0);
    assert_eq!(slot_offset(3), 24);
    assert_eq!(slot_offset(usize::MAX), i32::MAX);
}

#[test]
fn generic_and_union_names() {
    assert_eq!(monomorphized_name("Box", &vec![Type::Int]), "Box__int");
    assert_eq!(union_named_class(&Type::Union(vec![Type::Null, Type::Named("Foo".to_string())])), Some("Foo".to_string()));
    assert_eq!(union_named_class(&Type::Int), None);
}

#[test]
fn handler_names_json() {
    assert_eq!(serde_json_like_string_array(&vec![]), "[]");
    assert_eq!(serde_json_like_string_array(&vec!["a".to_string(), "b".to_string()]), "[\"a\",\"b\"]");
}

fn tauri_call(field: &str, args: Vec<Expr>) -> Expr {
    Expr::Call {
        callee: Box::new(Expr::Field { object: Box::new(ident("ui")), field: field.to_string(), span: span() }),
        args,
        span: span(),
    }
}

#[test]
fn tauri_handler_creates_and_registers_a_trampoline() {
    let mut b = builder();
    b.var_class.insert("ui".to_string(), "Tauri".to_string());
    b.fn_param_types.insert("App_greet".to_string(), vec![IrType::Ptr]);
    b.fn_param_names.insert("App_greet".to_string(), vec!["name".to_string()]);
    b.fn_ret_types.insert("App_greet".to_string(), IrType::Ptr);
    let call = tauri_call("handler", vec![
        Expr::Literal(Literal::String("greet".to_string()), span()),
        Expr::StaticConst { class: "App".to_string(), name: "greet".to_string(), span: span() },
    ]);
    lower_expr(&mut b, &call);
    assert!(b.module.diagnostics.is_empty());
    assert_eq!(b.module.functions.last().unwrap().name, "__tauri_handler_0");
    let code = &b.func.blocks[b.func.current];
    assert!(code.iter().any(|i| matches!(i, Inst::Call { func, .. } if func == "Tauri_handler_register")));
    assert!(b.module.strings.iter().any(|s| s == "[\"name\"]"));
}

#[test]
fn tauri_handler_errors_are_recorded() {
    let mut b = builder();
    b.var_class.insert("ui".to_string(), "Tauri".to_string());
    lower_expr(&mut b, &tauri_call("handler", vec![int_lit(1)]));
    assert_eq!(b.module.diagnostics.len(), 1);
    lower_expr(&mut b, &tauri_call("handler", vec![int_lit(1), int_lit(2)]));
    assert_eq!(b.module.diagnostics.len(), 2);
    lower_expr(&mut b, &tauri_call("handlers", vec![int_lit(1)]));
    assert_eq!(b.module.diagnostics.len(), 3);
    b.fn_param_types.insert("App_pick".to_string(), vec![IrType::Void]);
    b.fn_param_names.insert("App_pick".to_string(), vec!["x".to_string()]);
    lower_expr(&mut b, &tauri_call("handler", vec![
        Expr::Literal(Literal::String("pick".to_string()), span()),
        Expr::StaticConst { class: "App".to_string(), name: "pick".to_string(), span: span() },
    ]));
    assert_eq!(b.module.diagnostics.len(), 4);
    assert!(b.module.functions.is_empty());
}
