//! The `main` function assembled from a program's runtime blocks (`init`,
//! `main`, `error`, `success`, `exit`).
use vstd::prelude::*;
use crate::ast::{BinOp, Expr, Literal, Program, RuntimeBlockKind, Span, Stmt, Type, VarKind};
use crate::builder::{functions_grow, LowerBuilder};
use crate::functions::FunctionTables;
use crate::ir::{Inst, IrModule, IrType};
use crate::lower::lower_expr;
use crate::names::{Duplicate, NameMap};
use crate::ownership::{drop_consumed_used_in, emit_drops_of_declared};
use crate::statements::lower_stmt;

verus! {

/// A statement of a runtime block as it is lowered: a `result` stays as
/// written (lowering turns it into a store to `ERROR` and a jump to the exit
/// label), and so do the statements nested in blocks; the handlers of a
/// `try` keep their own `return`s. Every statement thus stands for itself.
pub fn transform_runtime_stmt_return(stmt: Stmt) -> (r: Vec<Stmt>)
    ensures
        r@ == seq![stmt],
{
    let mut out: Vec<Stmt> = Vec::new();
    out.push(stmt);
    out
}

/// The statements of the first runtime block of kind `kind`, if any.
fn block_of_kind<'p>(program: &'p Program, kind: RuntimeBlockKind) -> (r: Option<&'p Vec<Stmt>>)
    ensures
        match r {
            Some(s) => exists|i: int| 0 <= i < program.runtime_blocks@.len()
                && (#[trigger] program.runtime_blocks@[i]).kind == kind && program.runtime_blocks@[i].statements == *s,
            None => forall|i: int| 0 <= i < program.runtime_blocks@.len() ==> (#[trigger] program.runtime_blocks@[i]).kind != kind,
        },
{
    let mut i: usize = 0;
    while i < program.runtime_blocks.len()
        invariant
            i <= program.runtime_blocks@.len(),
            forall|k: int| 0 <= k < i ==> (#[trigger] program.runtime_blocks@[k]).kind != kind,
        decreases program.runtime_blocks@.len() - i,
    {
        if program.runtime_blocks[i].kind == kind {
            return Some(&program.runtime_blocks[i].statements);
        }
        i = i + 1;
    }
    None
}

/// Lowers `stmts` in order in the current block scope, stopping once the
/// current basic block is terminated; each `consumed` local is released
/// right after its single use.
fn lower_stmts_in_scope(builder: &mut LowerBuilder, stmts: &Vec<&Stmt>)
    requires
        old(builder).wf(),
    ensures
        LowerBuilder::kept(old(builder), final(builder)),
{
    let mut i: usize = 0;
    while i < stmts.len()
        invariant
            LowerBuilder::kept(old(builder), builder),
        decreases stmts@.len() - i,
    {
        if builder.is_terminated() {
            break;
        }
        lower_stmt(builder, stmts[i]);
        if !builder.is_terminated() {
            drop_consumed_used_in(builder, stmts[i]);
        }
        i = i + 1;
    }
}

/// The names declared by the `var` statements of `stmts`, in order.
fn declared_names(stmts: &Vec<&Stmt>) -> (r: Vec<String>)
{
    let mut names: Vec<String> = Vec::new();
    let mut i: usize = 0;
    while i < stmts.len()
        decreases stmts@.len() - i,
    {
        match stmts[i] {
            Stmt::Var { name, .. } => names.push(name.clone()),
            _ => {},
        }
        i = i + 1;
    }
    names
}

/// Lowers `stmts` as a block of their own: a new scope whose owned locals
/// are released at its normal end, and whose bindings disappear after it.
fn lower_stmts_as_block(builder: &mut LowerBuilder, stmts: &Vec<&Stmt>)
    requires
        old(builder).wf(),
    ensures
        LowerBuilder::kept(old(builder), final(builder)),
        final(builder).block_scope_stack@ == old(builder).block_scope_stack@,
        final(builder).locals.deep_view() == old(builder).locals.deep_view(),
{
    let ghost stack0 = builder.block_scope_stack@;
    builder.block_scope_stack.push(Vec::new());
    let ghost b1 = *builder;
    assert(b1.block_scope_stack@.drop_last() =~= stack0);
    let locals_snapshot = builder.locals.duplicate();
    lower_stmts_in_scope(builder, stmts);
    if !builder.is_terminated() {
        let names = declared_names(stmts);
        emit_drops_of_declared(builder, &names);
    }
    builder.locals = locals_snapshot;
    let _ = builder.block_scope_stack.pop();
    proof {
        assert(builder.block_scope_stack@ =~= stack0);
    }
}

/// Appends the statements of the first runtime block of kind `kind` (if
/// any) to `out`.
fn push_block_stmts<'p>(program: &'p Program, kind: RuntimeBlockKind, out: &mut Vec<&'p Stmt>)
{
    match block_of_kind(program, kind) {
        Some(stmts) => {
            let mut i: usize = 0;
            while i < stmts.len()
                decreases stmts@.len() - i,
            {
                out.push(&stmts[i]);
                i = i + 1;
            }
        },
        None => {},
    }
}

fn span0() -> (r: Span) {
    Span::new(0, 0)
}

fn ident(name: &str) -> (r: Expr) {
    Expr::Ident(name.to_owned(), span0())
}

/// `main() -> int` assembled from the runtime blocks, as one body:
/// `var ERROR: int = 0` when there is an `error` or `exit` block, `var
/// SUCCESS: bool = false` when there is an `exit` block; the statements of
/// `init` then `main`, where `result v` sets `ERROR` and leaves to the exit
/// label placed right after them; then, when there is an `error` or
/// `success` block, `if ERROR != 0 { error } else { SUCCESS = true;
/// success }` (no `else` without a `success` block); then the `exit`
/// statements; then `return ERROR`.
fn generate_runtime_main<'a>(
    module: &mut IrModule,
    program: &'a Program,
    tables: &FunctionTables,
    func_default_args: &mut NameMap<Vec<Option<&'a Expr>>>,
)
    ensures
        functions_grow(*old(module), *final(module)),
        final(module).functions@.len() > old(module).functions@.len(),
        final(module).functions@.last().name@ == "main"@,
        final(module).functions@.last().ret_ty == IrType::I64,
        final(module).functions@.last().params@.len() == 0,
        final(module).functions@.last().spec_terminated(),
        *final(func_default_args) == *old(func_default_args),
{
    let has_error = block_of_kind(program, RuntimeBlockKind::Error).is_some();
    let has_exit = block_of_kind(program, RuntimeBlockKind::Exit).is_some();
    let has_success = block_of_kind(program, RuntimeBlockKind::Success).is_some();
    let mut placeholder = IrModule::new("");
    std::mem::swap(module, &mut placeholder);
    let ghost m0 = placeholder;
    let mut builder = LowerBuilder::new(placeholder, "main".to_owned(), Vec::new(), IrType::from_ast(&Type::Int));
    builder.fn_ret_types = tables.fn_ret_types.duplicate();
    builder.fn_param_types = tables.fn_param_types.duplicate();
    builder.fn_param_names = tables.fn_param_names.duplicate();
    builder.fn_variadic_info = tables.fn_variadic_info.duplicate();
    builder.async_funcs = tables.async_funcs.duplicate();
    std::mem::swap(&mut builder.func_default_args, func_default_args);
    let ghost b0 = builder;
    proof {
        reveal_strlit("main");
    }
    assert(builder.func.name@ == "main"@);
    let consts = tables.consts;
    let mut c: usize = 0;
    while c < consts.len()
        invariant
            LowerBuilder::kept(&b0, &builder),
            functions_grow(m0, builder.module),
        decreases consts@.len() - c,
    {
        let decl = &consts[c];
        let ir_ty = IrType::from_ast(&decl.ty);
        let _slot = builder.declare_local(decl.name.as_str(), ir_ty, false);
        let val = lower_expr(&mut builder, &decl.value);
        builder.store_local(decl.name.as_str(), val);
        c = c + 1;
    }
    builder.block_scope_stack.push(Vec::new());
    let ghost b1 = builder;
    let locals_snapshot = builder.locals.duplicate();
    if has_error || has_exit {
        let error_decl = Stmt::Var {
            name: "ERROR".to_owned(),
            ty: Type::Int,
            value: Expr::Literal(Literal::Int(0), span0()),
            mutable: true,
            kind: VarKind::Var,
            span: span0(),
        };
        lower_stmt(&mut builder, &error_decl);
    }
    if has_exit {
        let success_decl = Stmt::Var {
            name: "SUCCESS".to_owned(),
            ty: Type::Bool,
            value: Expr::Literal(Literal::Bool(false), span0()),
            mutable: true,
            kind: VarKind::Var,
            span: span0(),
        };
        lower_stmt(&mut builder, &success_decl);
    }
    let mut body: Vec<&Stmt> = Vec::new();
    push_block_stmts(program, RuntimeBlockKind::Init, &mut body);
    push_block_stmts(program, RuntimeBlockKind::Main, &mut body);
    if has_error || has_exit {
        let exit_bb = builder.new_block();
        builder.runtime_exit_bb = Some(exit_bb);
        lower_stmts_in_scope(&mut builder, &body);
        if !builder.is_terminated() {
            builder.emit(Inst::Jump { target: exit_bb });
        }
        builder.runtime_exit_bb = None;
        builder.switch_to(&exit_bb);
    } else {
        lower_stmts_in_scope(&mut builder, &body);
    }
    if (has_error || has_success) && !builder.is_terminated() {
        let condition = Expr::Binary {
            op: BinOp::NotEq,
            left: Box::new(ident("ERROR")),
            right: Box::new(Expr::Literal(Literal::Int(0), span0())),
            span: span0(),
        };
        let cond_val = lower_expr(&mut builder, &condition);
        let then_bb = builder.new_block();
        let else_bb = builder.new_block();
        let merge_bb = builder.new_block();
        builder.emit(Inst::Branch { cond: cond_val, then_bb, else_bb });
        let outer = builder.owned_locals.duplicate();
        builder.switch_to(&then_bb);
        let mut error_stmts: Vec<&Stmt> = Vec::new();
        push_block_stmts(program, RuntimeBlockKind::Error, &mut error_stmts);
        lower_stmts_as_block(&mut builder, &error_stmts);
        if !builder.is_terminated() {
            builder.emit(Inst::Jump { target: merge_bb });
        }
        builder.owned_locals = outer.duplicate();
        builder.switch_to(&else_bb);
        if has_success {
            let set_success = Stmt::Assign {
                target: ident("SUCCESS"),
                value: Expr::Literal(Literal::Bool(true), span0()),
                span: span0(),
            };
            let mut success_stmts: Vec<&Stmt> = Vec::new();
            success_stmts.push(&set_success);
            push_block_stmts(program, RuntimeBlockKind::Success, &mut success_stmts);
            lower_stmts_as_block(&mut builder, &success_stmts);
            if !builder.is_terminated() {
                builder.emit(Inst::Jump { target: merge_bb });
            }
        } else {
            builder.emit(Inst::Jump { target: merge_bb });
        }
        builder.owned_locals = outer;
        builder.switch_to(&merge_bb);
    }
    let mut exit_stmts: Vec<&Stmt> = Vec::new();
    push_block_stmts(program, RuntimeBlockKind::Exit, &mut exit_stmts);
    lower_stmts_in_scope(&mut builder, &exit_stmts);
    if !builder.is_terminated() {
        let ret = Stmt::Return { value: Some(ident("ERROR")), span: span0() };
        lower_stmt(&mut builder, &ret);
    }
    let mut declared: Vec<String> = Vec::new();
    if has_error || has_exit {
        declared.push("ERROR".to_owned());
    }
    if has_exit {
        declared.push("SUCCESS".to_owned());
    }
    let mut body_names = declared_names(&body);
    declared.append(&mut body_names);
    let mut exit_names = declared_names(&exit_stmts);
    declared.append(&mut exit_names);
    if !builder.is_terminated() {
        emit_drops_of_declared(&mut builder, &declared);
    }
    builder.locals = locals_snapshot;
    let _ = builder.block_scope_stack.pop();
    if !builder.is_terminated() {
        let zero = builder.new_value();
        builder.emit(Inst::ConstInt { dest: zero, value: 0 });
        builder.emit(Inst::Return { value: Some(zero) });
    }
    std::mem::swap(&mut builder.func_default_args, func_default_args);
    std::mem::swap(module, &mut builder.module);
    module.add_function(builder.func);
}

/// Assembles `main` from the program's runtime blocks (see
/// `generate_runtime_main`); nothing when there is none.
pub fn lower_runtime_blocks<'a>(
    module: &mut IrModule,
    program: &'a Program,
    tables: &FunctionTables,
    func_default_args: &mut NameMap<Vec<Option<&'a Expr>>>,
)
    ensures
        functions_grow(*old(module), *final(module)),
        program.runtime_blocks@.len() == 0 ==> *final(module) == *old(module),
        program.runtime_blocks@.len() > 0 ==> final(module).functions@.len() > old(module).functions@.len()
            && final(module).functions@.last().name@ == "main"@
            && final(module).functions@.last().spec_terminated(),
        *final(func_default_args) == *old(func_default_args),
{
    if program.runtime_blocks.len() == 0 {
        return;
    }
    generate_runtime_main(module, program, tables, func_default_args);
}

} // verus!
