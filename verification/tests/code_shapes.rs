use ocara::ast::{
    BinOp, Block, Expr, FuncDecl, IncDecOp, Literal, MatchArm, MatchPattern, OnClause, Param, Span, Stmt,
    TemplatePartExpr, Type, UnaryOp, VarKind,
};
use ocara::builder::LowerBuilder;
use ocara::functions::{lower_func, FunctionTables};
use ocara::ir::{BlockId, Inst, IrModule, IrType, Value};
use ocara::lower::lower_expr;
use ocara::names::{NameMap, NameSet};
use ocara::statements::lower_stmt;

fn span() -> Span {
    Span::new(0, 0)
}

fn ident(name: &str) -> Expr {
    Expr::Ident(name.to_string(), span())
}

fn int_lit(n: i64) -> Expr {
    Expr::Literal(Literal::Int(n), span())
}

fn float_lit(bits: u64) -> Expr {
    Expr::Literal(Literal::Float(bits), span())
}

fn block(stmts: Vec<Stmt>) -> Block {
    Block { stmts, span: span() }
}

fn builder<'a>() -> LowerBuilder<'a> {
    LowerBuilder::new(IrModule::new("test"), "test_fn".into(), vec![], IrType::Void)
}

fn var(name: &str, ty: Type, value: Expr) -> Stmt {
    Stmt::Var { name: name.to_string(), ty, value, mutable: true, kind: VarKind::Var, span: span() }
}

fn binary(op: BinOp, left: Expr, right: Expr) -> Expr {
    Expr::Binary { op, left: Box::new(left), right: Box::new(right), span: span() }
}

fn current_block(b: &LowerBuilder) -> Vec<Inst> {
    b.func.blocks[b.func.current].clone()
}

fn last_inst(b: &LowerBuilder) -> Inst {
    current_block(b).last().unwrap().clone()
}

fn incdec(op: IncDecOp, name: &str) -> Expr {
    Expr::IncDec { op, target: Box::new(ident(name)), span: span() }
}

#[test]
fn postfix_increment_yields_the_old_value() {
    let mut b = builder();
    lower_stmt(&mut b, &var("i", Type::Int, int_lit(5)));
    let slot = b.locals.get("i").unwrap().0;
    let start = current_block(&b).len();
    let r = lower_expr(&mut b, &incdec(IncDecOp::PostInc, "i"));
    let code = current_block(&b)[start..].to_vec();
    assert_eq!(code.len(), 4);
    let old_val = match &code[0] {
        Inst::Load { dest, ptr, ty } => {
            assert_eq!(*ptr, slot);
            assert_eq!(*ty, IrType::I64);
            *dest
        },
        other => panic!("unexpected {:?}", other),
    };
    let one = match &code[1] {
        Inst::ConstInt { dest, value: 1 } => *dest,
        other => panic!("unexpected {:?}", other),
    };
    let new_val = match &code[2] {
        Inst::Add { dest, lhs, rhs, ty: IrType::I64 } => {
            assert_eq!((*lhs, *rhs), (old_val, one));
            *dest
        },
        other => panic!("unexpected {:?}", other),
    };
    assert!(matches!(code[3], Inst::Store { ptr, src } if ptr == slot && src == new_val));
    assert_eq!(r, old_val);
}

#[test]
fn prefix_decrement_yields_the_new_value() {
    let mut b = builder();
    lower_stmt(&mut b, &var("n", Type::Int, int_lit(3)));
    let r = lower_expr(&mut b, &incdec(IncDecOp::PreDec, "n"));
    let code = current_block(&b);
    let k = code.len();
    match &code[k - 2] {
        Inst::Sub { dest, ty: IrType::I64, .. } => assert_eq!(*dest, r),
        other => panic!("unexpected {:?}", other),
    }
    assert!(matches!(code[k - 1], Inst::Store { src, .. } if src == r));
}

#[test]
fn declaration_starts_with_its_slot() {
    let mut b = builder();
    let first_value = b.func.next_value;
    lower_stmt(&mut b, &var("x", Type::Float, float_lit(0)));
    assert!(matches!(b.func.blocks[0][0], Inst::Alloca { dest, ty: IrType::F64 } if dest == Value(first_value)));
}

#[test]
fn integer_addition_is_native_and_float_addition_widens() {
    let mut b = builder();
    let r = lower_expr(&mut b, &binary(BinOp::Add, int_lit(1), int_lit(2)));
    assert!(matches!(last_inst(&b), Inst::Add { dest, ty: IrType::I64, .. } if dest == r));
    let r = lower_expr(&mut b, &binary(BinOp::Mul, int_lit(1), float_lit(0)));
    assert!(matches!(last_inst(&b), Inst::Mul { dest, ty: IrType::F64, .. } if dest == r));
}

#[test]
fn mixed_comparison_is_done_in_floats() {
    let mut b = builder();
    let r = lower_expr(&mut b, &binary(BinOp::Smaller, int_lit(1), float_lit(0)));
    assert!(matches!(last_inst(&b), Inst::CmpLt { dest, ty: IrType::F64, .. } if dest == r));
    assert!(current_block(&b).iter().any(|i| matches!(i, Inst::Call { func, .. } if func == "__int_to_float")));
}

#[test]
fn arithmetic_on_a_mixed_value_is_dynamic() {
    let mut b = builder();
    lower_stmt(&mut b, &var("m", Type::Mixed, int_lit(0)));
    let r = lower_expr(&mut b, &binary(BinOp::Sub, ident("m"), int_lit(1)));
    assert!(matches!(last_inst(&b), Inst::Call { dest: Some(d), func, .. } if d == r && func == "__dyn_sub"));
    let r = lower_expr(&mut b, &binary(BinOp::Equal, ident("m"), int_lit(1)));
    assert!(matches!(last_inst(&b), Inst::Call { dest: Some(d), func, ret_ty: IrType::Bool, .. }
        if d == r && func == "__cmp_eq_strict"));
}

#[test]
fn negation_ends_with_neg() {
    let mut b = builder();
    let r = lower_expr(&mut b, &Expr::Unary { op: UnaryOp::Neg, operand: Box::new(int_lit(4)), span: span() });
    assert!(matches!(last_inst(&b), Inst::Neg { dest, ty: IrType::I64, .. } if dest == r));
}

#[test]
fn indexing_a_map_variable_reads_the_map() {
    let mut b = builder();
    let dict_ty = Type::Dict(Box::new(Type::String), Box::new(Type::Int));
    lower_stmt(&mut b, &var("ages", dict_ty, Expr::Dict { entries: vec![], span: span() }));
    lower_stmt(&mut b, &var("list", Type::Array(Box::new(Type::Int)), Expr::Array { elements: vec![], span: span() }));
    let key = Expr::Literal(Literal::String("bob".to_string()), span());
    let r = lower_expr(&mut b, &Expr::Index { object: Box::new(ident("ages")), index: Box::new(key), span: span() });
    assert!(matches!(last_inst(&b), Inst::Call { dest: Some(d), func, .. } if d == r && func == "__map_get"));
    let r = lower_expr(&mut b, &Expr::Index { object: Box::new(ident("list")), index: Box::new(int_lit(0)), span: span() });
    assert!(matches!(last_inst(&b), Inst::Call { dest: Some(d), func, .. } if d == r && func == "__array_get"));
}

#[test]
fn array_literal_is_made_then_filled() {
    let mut b = builder();
    let start = current_block(&b).len();
    let r = lower_expr(&mut b, &Expr::Array { elements: vec![int_lit(1), int_lit(2)], span: span() });
    let code = current_block(&b);
    assert!(matches!(&code[start], Inst::Call { dest: Some(d), func, args, .. } if *d == r && func == "__array_new" && args.is_empty()));
    assert!(matches!(code.last().unwrap(), Inst::Call { dest: None, func, args, .. } if func == "__array_push" && args[0] == r));
}

#[test]
fn template_strings_concatenate() {
    let mut b = builder();
    let r = lower_expr(&mut b, &Expr::Template { parts: vec![], span: span() });
    assert!(matches!(last_inst(&b), Inst::ConstStr { dest, .. } if dest == r));
    let parts = vec![TemplatePartExpr::Literal("n = ".to_string()), TemplatePartExpr::Expr(int_lit(3))];
    let r = lower_expr(&mut b, &Expr::Template { parts, span: span() });
    assert!(matches!(last_inst(&b), Inst::Call { dest: Some(d), func, .. } if d == r && func == "__str_concat"));
}

#[test]
fn match_joins_in_a_new_block() {
    let mut b = builder();
    let blocks_before = b.func.blocks.len();
    let arms = vec![
        MatchArm { pattern: Some(MatchPattern::Literal(Literal::Int(1))), body: int_lit(10) },
        MatchArm { pattern: None, body: int_lit(20) },
    ];
    let r = lower_expr(&mut b, &Expr::Match { subject: Box::new(int_lit(1)), arms, span: span() });
    assert!(b.func.current >= blocks_before);
    assert!(matches!(last_inst(&b), Inst::Load { dest, ty: IrType::Ptr, .. } if dest == r));
}

#[test]
fn object_creation_allocates_then_calls_the_constructor() {
    let mut b = builder();
    let start = current_block(&b).len();
    let r = lower_expr(&mut b, &Expr::New { class: "Point".to_string(), type_args: vec![], args: vec![int_lit(1)], span: span() });
    let code = current_block(&b);
    assert!(matches!(&code[start], Inst::Alloc { dest, class } if *dest == r && class == "Point"));
    assert!(matches!(code.last().unwrap(), Inst::Call { dest: None, func, args, ret_ty: IrType::Void }
        if func == "Point_init" && args[0] == r && args.len() == 2));
}

#[test]
fn direct_call_passes_the_defaults() {
    let default = int_lit(7);
    let mut b = builder();
    b.func_default_args.insert("area".to_string(), vec![None, Some(&default)]);
    let call = Expr::Call { callee: Box::new(ident("area")), args: vec![int_lit(2)], span: span() };
    let r = lower_expr(&mut b, &call);
    assert!(matches!(last_inst(&b), Inst::Call { dest: Some(d), func, args, ret_ty: IrType::Ptr }
        if d == r && func == "area" && args.len() == 2));
}

#[test]
fn function_used_as_a_value_is_a_fat_pointer_to_its_wrapper() {
    let mut b = builder();
    b.fn_param_types.insert("twice".to_string(), vec![IrType::I64]);
    let r = lower_expr(&mut b, &ident("twice"));
    let code = current_block(&b);
    let k = code.len();
    assert!(matches!(&code[k - 3], Inst::Alloc { dest, class } if *dest == r && class == "__fat_ptr"));
    assert!(matches!(&code[k - 1], Inst::SetField { obj, field, offset: 8, .. } if *obj == r && field == "env"));
    assert!(code.iter().any(|i| matches!(i, Inst::FuncAddr { func, .. } if func == "__fn_wrap_twice")));
}

#[test]
fn closure_adds_its_function_and_returns_a_fat_pointer() {
    let mut b = builder();
    let closure = Expr::Nameless {
        params: vec![Param { name: "x".to_string(), ty: Type::Int, is_variadic: false, default_value: None, span: span() }],
        ret_ty: Some(Type::Int),
        body: block(vec![Stmt::Return { value: Some(ident("x")), span: span() }]),
        span: span(),
    };
    let r = lower_expr(&mut b, &closure);
    let f = b.module.functions.iter().find(|f| f.name == "__anon_0").expect("closure function");
    assert_eq!(f.params[0].name, "__env");
    assert_eq!(f.params.len(), 2);
    assert_eq!(f.ret_ty, IrType::I64);
    assert!(f.is_current_terminated());
    let code = current_block(&b);
    assert!(matches!(&code[code.len() - 3], Inst::Alloc { dest, class } if *dest == r && class == "__fat_ptr"));
}

#[test]
fn try_adds_body_and_handler_functions() {
    let mut b = builder();
    let stmt = Stmt::Try {
        body: block(vec![Stmt::Expr(int_lit(1))]),
        handlers: vec![OnClause { binding: "e".to_string(), class_filter: None, body: block(vec![]), span: span() }],
        span: span(),
    };
    let blocks_before = b.func.blocks.len();
    lower_stmt(&mut b, &stmt);
    let names: Vec<&str> = b.module.functions.iter().map(|f| f.name.as_str()).collect();
    assert!(names.contains(&"__try_body_0"));
    assert!(names.contains(&"__try_handler_0"));
    assert!(b.func.current >= blocks_before);
}

#[test]
fn while_jumps_to_its_condition_block_first() {
    let mut b = builder();
    let blocks_before = b.func.blocks.len();
    let start = current_block(&b).len();
    let entry = b.func.current;
    let stmt = Stmt::While { condition: Expr::Literal(Literal::Bool(false), span()), body: block(vec![]), span: span() };
    lower_stmt(&mut b, &stmt);
    assert!(matches!(b.func.blocks[entry][start], Inst::Jump { target } if target == BlockId(blocks_before)));
    assert_eq!(b.func.current, blocks_before + 2);
}

#[test]
fn for_in_is_an_index_loop() {
    let mut b = builder();
    lower_stmt(&mut b, &var("xs", Type::Array(Box::new(Type::Int)), Expr::Array { elements: vec![], span: span() }));
    let stmt = Stmt::ForIn { var: "x".to_string(), iter: ident("xs"), body: block(vec![]), span: span() };
    lower_stmt(&mut b, &stmt);
    let exit = b.func.current;
    let cond = &b.func.blocks[exit - 3];
    assert!(matches!(cond[1], Inst::CmpLt { .. }));
    assert!(matches!(cond[2], Inst::Branch { then_bb, else_bb, .. }
        if then_bb == BlockId(exit - 2) && else_bb == BlockId(exit)));
    let incr = &b.func.blocks[exit - 1];
    assert!(matches!(incr.last().unwrap(), Inst::Jump { target } if *target == BlockId(exit - 3)));
    assert!(matches!(incr[incr.len() - 2], Inst::Store { .. }));
}

#[test]
fn assignment_to_an_index_updates_the_map() {
    let mut b = builder();
    let dict_ty = Type::Dict(Box::new(Type::String), Box::new(Type::Int));
    lower_stmt(&mut b, &var("ages", dict_ty, Expr::Dict { entries: vec![], span: span() }));
    let target = Expr::Index {
        object: Box::new(ident("ages")),
        index: Box::new(Expr::Literal(Literal::String("bob".to_string()), span())),
        span: span(),
    };
    lower_stmt(&mut b, &Stmt::Assign { target, value: int_lit(3), span: span() });
    assert!(matches!(last_inst(&b), Inst::Call { dest: None, func, args, .. } if func == "__map_set" && args.len() == 3));
}

#[test]
fn every_lowered_function_ends_with_a_terminator() {
    let mut module = IrModule::new("test");
    let f = FuncDecl {
        name: "noop".to_string(),
        params: vec![],
        ret_ty: Type::Int,
        body: block(vec![Stmt::Expr(int_lit(1))]),
        is_async: false,
        span: span(),
    };
    let consts = vec![];
    let (rt, pt, pn, vi, af) = (NameMap::new(), NameMap::new(), NameMap::new(), NameMap::new(), NameSet::new());
    let tables = FunctionTables {
        fn_ret_types: &rt,
        fn_param_types: &pt,
        fn_param_names: &pn,
        fn_variadic_info: &vi,
        async_funcs: &af,
        consts: &consts,
    };
    let mut defaults: NameMap<Vec<Option<&Expr>>> = NameMap::new();
    lower_func(&mut module, &f, &tables, &mut defaults, None, None);
    let lowered = module.functions.last().unwrap();
    assert!(lowered.is_current_terminated());
    assert!(matches!(lowered.blocks[lowered.current].last().unwrap(), Inst::Return { value: Some(_) }));
}

#[test]
fn for_over_a_generator_resumes_then_frees_its_frame() {
    let mut b = builder();
    b.module.message_funcs.insert("count".to_string(), IrType::I64);
    let iter = Expr::Call { callee: Box::new(ident("count")), args: vec![], span: span() };
    let stmt = Stmt::ForIn { var: "n".to_string(), iter, body: block(vec![]), span: span() };
    lower_stmt(&mut b, &stmt);
    let exit = b.func.current;
    let cond = &b.func.blocks[exit - 2];
    let frame = match &cond[0] {
        Inst::Call { func, args, .. } => {
            assert_eq!(func, "count__resume");
            args[0]
        },
        other => panic!("unexpected {:?}", other),
    };
    assert!(matches!(cond[1], Inst::Branch { then_bb, else_bb, .. }
        if then_bb == BlockId(exit - 1) && else_bb == BlockId(exit)));
    assert!(matches!(b.func.blocks[exit].last().unwrap(), Inst::Call { func, args, .. }
        if func == "__free_obj" && args[0] == frame));
}

#[test]
fn a_generator_value_used_directly_is_read_once() {
    let mut b = builder();
    b.module.message_funcs.insert("first".to_string(), IrType::I64);
    let call = Expr::Call { callee: Box::new(ident("first")), args: vec![], span: span() };
    let r = ocara::message_gen::lower_arg_or_message(&mut b, &call);
    let code = current_block(&b);
    let k = code.len();
    let frame = match &code[k - 5] {
        Inst::Call { dest: Some(d), func, .. } => {
            assert_eq!(func, "first__new");
            *d
        },
        other => panic!("unexpected {:?}", other),
    };
    assert!(matches!(&code[k - 4], Inst::Call { func, args, .. } if func == "first__resume" && args == &vec![frame]));
    assert!(matches!(&code[k - 3], Inst::GetField { dest, obj, field, offset: 8, .. }
        if *dest == r && *obj == frame && field == "__value"));
    assert!(matches!(&code[k - 1], Inst::Call { func, args, .. } if func == "__free_obj" && args[0] == frame));
}

#[test]
fn scope_end_releases_the_owned_locals_declared_in_it() {
    let mut b = builder();
    b.block_scope_stack.push(vec![]);
    let decl = Stmt::Var {
        name: "s".to_string(),
        ty: Type::String,
        value: Expr::Literal(Literal::String("x".to_string()), span()),
        mutable: true,
        kind: VarKind::Scoped,
        span: span(),
    };
    lower_stmt(&mut b, &decl);
    assert!(!b.owned_locals.get("s").unwrap().dropped);
    ocara::ownership::emit_scope_drops(&mut b, &block(vec![decl]));
    assert!(b.owned_locals.get("s").unwrap().dropped);
    assert!(matches!(last_inst(&b), Inst::Call { func, .. } if func == "__value_free"));
}

#[test]
fn return_ends_with_a_return_of_the_value() {
    let mut b = builder();
    lower_stmt(&mut b, &Stmt::Return { value: Some(int_lit(3)), span: span() });
    assert!(matches!(last_inst(&b), Inst::Return { value: Some(_) }));
    let mut b = builder();
    lower_stmt(&mut b, &Stmt::Return { value: None, span: span() });
    assert!(matches!(last_inst(&b), Inst::Return { value: None }));
}

#[test]
fn raise_calls_the_failure_routine_then_returns() {
    let mut b = LowerBuilder::new(IrModule::new("test"), "f".into(), vec![], IrType::I64);
    lower_stmt(&mut b, &Stmt::Raise { value: int_lit(1), span: span() });
    let code = current_block(&b);
    let k = code.len();
    assert!(matches!(&code[k - 3], Inst::Call { func, args, .. } if func == "__ocara_fail" && args.len() == 2));
    assert!(matches!(code[k - 2], Inst::ConstInt { value: 0, .. }));
    assert!(matches!(code[k - 1], Inst::Return { value: Some(_) }));
}

#[test]
fn break_releases_the_loop_blocks_and_leaves() {
    let mut b = builder();
    let body = block(vec![
        Stmt::Var {
            name: "s".to_string(),
            ty: Type::String,
            value: Expr::Literal(Literal::String("x".to_string()), span()),
            mutable: true,
            kind: VarKind::Scoped,
            span: span(),
        },
        Stmt::Break { span: span() },
    ]);
    let blocks_before = b.func.blocks.len();
    let stmt = Stmt::While { condition: Expr::Literal(Literal::Bool(true), span()), body, span: span() };
    lower_stmt(&mut b, &stmt);
    let body_block = &b.func.blocks[blocks_before + 1];
    assert!(matches!(body_block.last().unwrap(), Inst::Jump { target } if *target == BlockId(blocks_before + 2)));
    assert!(body_block.iter().any(|i| matches!(i, Inst::Call { func, .. } if func == "__value_free")));
}

#[test]
fn json_method_calls_the_json_routine_on_the_object() {
    let mut b = builder();
    lower_stmt(&mut b, &var("xs", Type::Array(Box::new(Type::Int)), Expr::Array { elements: vec![], span: span() }));
    let callee = Expr::Field { object: Box::new(ident("xs")), field: "encode".to_string(), span: span() };
    let r = lower_expr(&mut b, &Expr::Call { callee: Box::new(callee), args: vec![], span: span() });
    assert!(matches!(last_inst(&b), Inst::Call { dest: Some(d), func, args, .. }
        if d == r && func == "JSON_encode" && args.len() == 1));
}

#[test]
fn static_call_on_a_class_calls_the_mangled_method() {
    let mut b = builder();
    let call = Expr::StaticCall {
        class: "Geo".to_string(),
        method: "area".to_string(),
        args: vec![int_lit(2), int_lit(3)],
        span: span(),
    };
    let r = lower_expr(&mut b, &call);
    assert!(matches!(last_inst(&b), Inst::Call { dest: Some(d), func, args, ret_ty: IrType::Ptr }
        if d == r && func == "Geo_area" && args.len() == 2));
}
