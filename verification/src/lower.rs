//! Lowering of expressions.
use vstd::prelude::*;
use crate::ast::{BinOp, Expr, Literal, MatchPattern, Param, TemplatePartExpr, Type, UnaryOp};
use crate::builder::{LowerBuilder, cap_field_spec, extends, lemma_extends_refl, lemma_extends_trans, slot_offset,
    slot_offset_spec, succ};
use crate::builtins::{runtime_builtin, runtime_builtin_spec};
use crate::class_dispatch::class_dispatcher_name;
use crate::helpers::{box_arg_for_mixed_param, completed_args_spec, box_scalar, complete_args_with_defaults, field_ir_type, field_offset,
    is_array_expr, is_map_target, is_map_target_spec, is_void_builtin, param_type_for_call_arg, resolve_chained_field_class, write_variant,
    CallForm};
use crate::ir::{BlockId, Inst, InstV, IrFunction, IrType, Value};
use crate::literals::{lower_is_check, lower_literal};
use crate::names::{NameMap, NameSet};
use crate::text::{concat, concat3, decimal, mangle, mangle_spec, starts_with, starts_with_spec, str_eq, with_number};
use crate::typeinfer::{expr_ir_type, expr_ir_type_spec};

verus! {

/// Emits a call.
pub fn emit_call(builder: &mut LowerBuilder, dest: Option<Value>, func: String, args: Vec<Value>, ret_ty: IrType)
    requires
        old(builder).wf(),
    ensures
        LowerBuilder::kept(old(builder), final(builder)),
        LowerBuilder::same_tables(old(builder), final(builder)),
        crate::ir::IrFunction::appended(&old(builder).func, &final(builder).func,
            seq![crate::ir::InstV::Call { dest, func: func@, args: args@, ret_ty }]),
        final(builder).func.next_value == old(builder).func.next_value,
{
    builder.emit(Inst::Call { dest, func, args, ret_ty });
}

/// Emits a call returning a value, into a fresh value.
pub fn call_value(builder: &mut LowerBuilder, func: &str, args: Vec<Value>, ret_ty: IrType) -> (r: Value)
    requires
        old(builder).wf(),
    ensures
        LowerBuilder::kept(old(builder), final(builder)),
        LowerBuilder::same_tables(old(builder), final(builder)),
        r == Value(old(builder).func.next_value),
        crate::ir::IrFunction::appended(&old(builder).func, &final(builder).func,
            seq![crate::ir::InstV::Call { dest: Some(r), func: func@, args: args@, ret_ty }]),
        final(builder).func.next_value == succ(old(builder).func.next_value),
{
    let d = builder.new_value();
    emit_call(builder, Some(d), func.to_owned(), args, ret_ty);
    d
}

fn vec1(a: Value) -> (r: Vec<Value>)
    ensures
        r@ == seq![a],
{
    let mut v: Vec<Value> = Vec::new();
    v.push(a);
    v
}

fn vec2(a: Value, b: Value) -> (r: Vec<Value>)
    ensures
        r@ == seq![a, b],
{
    let mut v: Vec<Value> = Vec::new();
    v.push(a);
    v.push(b);
    v
}

/// Brings a scalar operand into the `mixed` representation expected by the
/// dynamic arithmetic and comparison functions (pointers are already there).
fn box_for_dyn_arith(builder: &mut LowerBuilder, ty: &IrType, val: Value) -> (r: Value)
    requires
        old(builder).wf(),
    ensures
        LowerBuilder::kept(old(builder), final(builder)),
        LowerBuilder::same_tables(old(builder), final(builder)),
{
    box_scalar(builder, ty, val)
}

/// Unboxes a `mixed` operand with runtime function `func`.
fn unbox_mixed_operand(builder: &mut LowerBuilder, func: &str, target_ty: &IrType, val: Value) -> (r: Value)
    requires
        old(builder).wf(),
    ensures
        LowerBuilder::kept(old(builder), final(builder)),
        LowerBuilder::same_tables(old(builder), final(builder)),
        r == Value(old(builder).func.next_value),
{
    call_value(builder, func, vec1(val), *target_ty)
}

/// How the elements of an array or map literal are stored: boxed when the
/// destination holds `mixed` values (or is unknown), raw when it holds a
/// concrete type.
#[derive(Clone, Copy, Debug, PartialEq, Eq, Structural)]
pub enum LiteralElemKind {
    Mixed,
    Concrete,
}

/// The first instruction emitted in the current block of `before`, read in
/// `after`.
pub open spec fn first_emitted(before: LowerBuilder, after: LowerBuilder) -> InstV {
    after.func.code()[before.func.current as int][before.func.code()[before.func.current as int].len() as int]
}

/// A collection literal with `n` items: the collection is made into `r` by
/// the runtime function `new_fn` first, and (when there are items) the code
/// ends with the runtime function `add_fn` adding the last item to `r`.
pub open spec fn collection_literal_shape(before: LowerBuilder, after: LowerBuilder, r: Value,
    new_fn: Seq<char>, add_fn: Seq<char>, n: nat) -> bool {
    &&& r == Value(before.func.next_value)
    &&& first_emitted(before, after) == (InstV::Call { dest: Some(r), func: new_fn, args: seq![], ret_ty: IrType::Ptr })
    &&& n > 0 ==> (last_inst(after.func) matches InstV::Call { dest, func, args, ret_ty }
        && dest is None && func == add_fn && args.len() >= 1 && args[0] == r && ret_ty == IrType::Void)
}

/// Builds an array literal: a new array, then each element pushed (boxed
/// for `Mixed`).
pub fn lower_array_literal(builder: &mut LowerBuilder, elements: &Vec<Expr>, kind: LiteralElemKind, Ghost(node): Ghost<Expr>) -> (r: Value)
    requires
        old(builder).wf(),
        decreases_to!(node => *elements),
    ensures
        LowerBuilder::kept(old(builder), final(builder)),
        collection_literal_shape(*old(builder), *final(builder), r, "__array_new"@, "__array_push"@, elements@.len()),
    decreases old(builder).fda_len(), node, 0nat,
{
    let arr = call_value(builder, "__array_new", Vec::new(), IrType::Ptr);
    let ghost b1 = *builder;
    proof {
        lemma_extends_refl(b1.func);
        assert(first_emitted(*old(builder), b1) == (InstV::Call { dest: Some(arr), func: "__array_new"@, args: seq![], ret_ty: IrType::Ptr }));
    }
    let mut i: usize = 0;
    while i < elements.len()
        invariant
            LowerBuilder::kept(old(builder), builder),
            extends(b1.func, builder.func),
            old(builder).func.current < b1.func.code().len(),
            old(builder).func.code()[old(builder).func.current as int].len()
                < b1.func.code()[old(builder).func.current as int].len(),
            first_emitted(*old(builder), b1) == (InstV::Call { dest: Some(arr), func: "__array_new"@, args: seq![], ret_ty: IrType::Ptr }),
            arr == Value(old(builder).func.next_value),
            i > 0 ==> (last_inst(builder.func) matches InstV::Call { dest, func, args, ret_ty }
                && dest is None && func == "__array_push"@ && args.len() >= 1 && args[0] == arr && ret_ty == IrType::Void),
            decreases_to!(node => *elements),
        decreases elements@.len() - i,
    {
        let ghost bi = *builder;
        proof {
            assert(decreases_to!(*elements => elements@));
            assert(decreases_to!(elements@ => elements@[i as int]));
        }
        let elem_ty = expr_ir_type(builder, &elements[i]);
        let v = lower_expr(builder, &elements[i]);
        let stored = match kind {
            LiteralElemKind::Mixed => box_for_dyn_arith(builder, &elem_ty, v),
            LiteralElemKind::Concrete => v,
        };
        let ghost bl = *builder;
        emit_call(builder, None, "__array_push".to_owned(), vec2(arr, stored), IrType::Void);
        proof {
            lemma_extends_trans(bi.func, bl.func, builder.func);
            lemma_extends_trans(b1.func, bi.func, builder.func);
        }
        i = i + 1;
    }
    arr
}

/// Builds a map literal: a new map, then each entry set (the value boxed for
/// `Mixed`; keys are never boxed).
pub fn lower_map_literal(builder: &mut LowerBuilder, entries: &Vec<(Expr, Expr)>, kind: LiteralElemKind, Ghost(node): Ghost<Expr>) -> (r: Value)
    requires
        old(builder).wf(),
        decreases_to!(node => *entries),
    ensures
        LowerBuilder::kept(old(builder), final(builder)),
        collection_literal_shape(*old(builder), *final(builder), r, "__map_new"@, "__map_set"@, entries@.len()),
    decreases old(builder).fda_len(), node, 0nat,
{
    let map = call_value(builder, "__map_new", Vec::new(), IrType::Ptr);
    let ghost b1 = *builder;
    proof {
        lemma_extends_refl(b1.func);
        assert(first_emitted(*old(builder), b1) == (InstV::Call { dest: Some(map), func: "__map_new"@, args: seq![], ret_ty: IrType::Ptr }));
    }
    let mut i: usize = 0;
    while i < entries.len()
        invariant
            LowerBuilder::kept(old(builder), builder),
            extends(b1.func, builder.func),
            old(builder).func.current < b1.func.code().len(),
            old(builder).func.code()[old(builder).func.current as int].len()
                < b1.func.code()[old(builder).func.current as int].len(),
            first_emitted(*old(builder), b1) == (InstV::Call { dest: Some(map), func: "__map_new"@, args: seq![], ret_ty: IrType::Ptr }),
            map == Value(old(builder).func.next_value),
            i > 0 ==> (last_inst(builder.func) matches InstV::Call { dest, func, args, ret_ty }
                && dest is None && func == "__map_set"@ && args.len() >= 1 && args[0] == map && ret_ty == IrType::Void),
            decreases_to!(node => *entries),
        decreases entries@.len() - i,
    {
        let ghost bi = *builder;
        proof {
            assert(decreases_to!(*entries => entries@));
            assert(decreases_to!(entries@ => entries@[i as int]));
            assert(decreases_to!(entries@[i as int] => entries@[i as int].0));
            assert(decreases_to!(entries@[i as int] => entries@[i as int].1));
        }
        let kv = lower_expr(builder, &entries[i].0);
        let val_ty = expr_ir_type(builder, &entries[i].1);
        let vv_raw = lower_expr(builder, &entries[i].1);
        let vv = match kind {
            LiteralElemKind::Mixed => box_for_dyn_arith(builder, &val_ty, vv_raw),
            LiteralElemKind::Concrete => vv_raw,
        };
        let mut args: Vec<Value> = Vec::new();
        args.push(map);
        args.push(kv);
        args.push(vv);
        let ghost bl = *builder;
        emit_call(builder, None, "__map_set".to_owned(), args, IrType::Void);
        proof {
            lemma_extends_trans(bi.func, bl.func, builder.func);
            lemma_extends_trans(b1.func, bi.func, builder.func);
        }
        i = i + 1;
    }
    map
}

/// The current block of `f` ends by building the fat pointer `r` to
/// function `func`: `r` is allocated as a `__fat_ptr`, its `func` field set
/// to the address of `func` taken earlier in the block, then its `env`
/// field set.
pub open spec fn builds_fat_ptr(f: IrFunction, r: Value, func: Seq<char>) -> bool {
    let b = f.code()[f.current as int];
    let n = b.len() as int;
    &&& n >= 4
    &&& b[n - 3] == (InstV::Alloc { dest: r, class: "__fat_ptr"@ })
    &&& b[n - 2] matches InstV::SetField { obj, field, src, offset } && obj == r && field == "func"@ && offset == 0
        && exists|j: int| 0 <= j < n - 3 && #[trigger] b[j] == (InstV::FuncAddr { dest: src, func })
    &&& b[n - 1] matches InstV::SetField { obj, field, offset, .. } && obj == r && field == "env"@ && offset == 8
}

/// Emits a fat function pointer `{func: &wrapper, env: 0}` into `dest`.
fn emit_fat_ptr(builder: &mut LowerBuilder, dest: Value, wrapper_name: String, env: Option<Value>)
    requires
        old(builder).wf(),
    ensures
        LowerBuilder::kept(old(builder), final(builder)),
        LowerBuilder::same_tables(old(builder), final(builder)),
        final(builder).func.current == old(builder).func.current,
        builds_fat_ptr(final(builder).func, dest, wrapper_name@),
{
    let ghost cur = builder.func.current as int;
    let func_addr = builder.new_value();
    let ghost wname = wrapper_name@;
    builder.emit(Inst::FuncAddr { dest: func_addr, func: wrapper_name });
    let ghost j = builder.func.code()[cur].len() - 1;
    assert(builder.func.code()[cur][j] == (InstV::FuncAddr { dest: func_addr, func: wname }));
    let ghost b_addr = builder.func;
    let env_val = match env {
        Some(e) => e,
        None => {
            let zero = builder.new_value();
            builder.emit(Inst::ConstInt { dest: zero, value: 0 });
            zero
        },
    };
    builder.emit(Inst::Alloc { dest, class: "__fat_ptr".to_owned() });
    builder.emit(Inst::SetField { obj: dest, field: "func".to_owned(), src: func_addr, offset: 0 });
    builder.emit(Inst::SetField { obj: dest, field: "env".to_owned(), src: env_val, offset: 8 });
    proof {
        assert(builder.func.code()[cur][j] == b_addr.code()[cur][j]);
    }
}

/// How variable `name` is read into `r` (see `LowerBuilder::load_local`): a
/// generator frame variable from its frame slot, a captured variable
/// through its environment cell, a local by one load of its slot.
pub open spec fn var_read(before: LowerBuilder, after: LowerBuilder, name: Seq<char>, r: Value) -> bool {
    let n = before.func.next_value;
    if before.frame_vars@.contains_key(name) {
        let (frame, idx, t) = before.frame_vars@[name];
        r == Value(n) && IrFunction::appended(&before.func, &after.func, seq![
            InstV::GetField { dest: r, obj: frame, field: name, ty: t, offset: slot_offset_spec(idx as int) },
        ])
    } else if before.captured_vars@.contains_key(name) {
        let (env, idx, t) = before.captured_vars@[name];
        r == Value(succ(n)) && IrFunction::appended(&before.func, &after.func, seq![
            InstV::GetField { dest: Value(n), obj: env, field: cap_field_spec(idx as int), ty: IrType::Ptr,
                offset: slot_offset_spec(idx as int) },
            InstV::Load { dest: r, ptr: Value(n), ty: t },
        ])
    } else {
        let (slot, t, _m) = before.locals@[name];
        r == Value(n) && IrFunction::appended(&before.func, &after.func, seq![InstV::Load { dest: r, ptr: slot, ty: t }])
    }
}

/// An identifier: a variable is read (see `var_read`); a function of the
/// program used as a value becomes a fresh fat pointer to its wrapper
/// `__fn_wrap_<name>`; a name that is neither a variable nor a function is
/// an unresolved symbol, a `Nop` in a fresh value.
pub open spec fn ident_read(before: LowerBuilder, after: LowerBuilder, name: Seq<char>, r: Value) -> bool {
    &&& LowerBuilder::has_var(&before, name) ==> var_read(before, after, name, r)
    &&& !LowerBuilder::has_var(&before, name) && before.fn_param_types@.contains_key(name)
        ==> r == Value(before.func.next_value) && builds_fat_ptr(after.func, r, "__fn_wrap_"@ + name)
    &&& !LowerBuilder::has_var(&before, name) && !before.fn_param_types@.contains_key(name)
        ==> r == Value(before.func.next_value) && IrFunction::appended(&before.func, &after.func, seq![InstV::Nop])
}

/// `self` (or `parent`): the `self` variable read (see `var_read`), or,
/// outside a method, a load through the null pointer into a fresh value.
pub open spec fn self_read(before: LowerBuilder, after: LowerBuilder, r: Value) -> bool {
    &&& LowerBuilder::has_var(&before, "self"@) ==> var_read(before, after, "self"@, r)
    &&& !LowerBuilder::has_var(&before, "self"@) ==> r == Value(before.func.next_value)
        && IrFunction::appended(&before.func, &after.func, seq![InstV::Load { dest: r, ptr: Value(0), ty: IrType::Ptr }])
}

/// The last instruction of the current block of `f`.
pub open spec fn last_inst(f: crate::ir::IrFunction) -> crate::ir::InstV {
    f.code()[f.current as int].last()
}

/// The shape of the code emitted for `e`, by kind:
/// - a literal: one constant in a fresh value;
/// - an identifier, `self`, `parent`: see `ident_read` and `self_read`;
/// - `-x`, `!x`: ends with the negation of the operand's value into `r`;
/// - `a op b`: ends as `binary_tail` says, from the operands' static types;
/// - `a..b`: ends with the call of the runtime's range constructor;
/// - `o.f`: ends with the read of field `f` into `r`;
/// - `o[i]`: ends with the runtime's map or array read (see `index_tail`);
/// - `use C(..)`: see `new_shape`; a class constant: a fresh value;
/// - a direct call of a function of the program: ends with that call into
///   `r`, with one argument per argument written or taken from the
///   defaults (a variadic function gets its extra arguments in one array);
/// - an array or map literal: see `collection_literal_shape`;
/// - `match`, a template string, `resolve`, `is`: see `match_tail`,
///   `template_tail`, `resolve_tail`, `is_check_tail`;
/// - a method call: see `method_call_tail`; a static call: see
///   `static_call_tail`;
/// - a closure: see `closure_shape`; `x++` and the like: see `incdec_shape`.
#[verifier::opaque]
pub open spec fn expr_lowering_shape(before: LowerBuilder, after: LowerBuilder, r: Value, e: Expr) -> bool {
    match e {
        Expr::Unary { op: UnaryOp::Neg, .. } => last_inst(after.func) matches crate::ir::InstV::Neg { dest, ty, .. }
            && dest == r && ty == IrType::I64,
        Expr::Unary { op: UnaryOp::Not, .. } => last_inst(after.func) matches crate::ir::InstV::Not { dest, .. }
            && dest == r,
        Expr::New { class, .. } => new_shape(before, after, r, class@),
        Expr::Field { field, .. } => last_inst(after.func) matches crate::ir::InstV::GetField { dest, field: f, .. }
            && dest == r && f == field@,
        Expr::StaticConst { .. } => r == Value(before.func.next_value),
        Expr::StaticCall { .. } => static_call_tail(before, after, e, r),
        Expr::Index { object, .. } => index_tail(after, *object, r),
        Expr::Match { .. } => match_tail(before, after, r),
        Expr::Nameless { .. } => crate::nameless::closure_shape(before, after, r),
        Expr::IncDec { op, target, .. } => crate::assignments::incdec_shape(before, after, op, *target, r),
        Expr::Template { parts, .. } => template_tail(before, after, r, parts@.len()),
        Expr::Resolve { .. } => resolve_tail(after, r, expr_ir_type_spec(before, e)),
        Expr::IsCheck { expr: inner, ty, .. } => is_check_tail(before, after, r, *inner, ty),
        Expr::Array { elements, .. } => collection_literal_shape(before, after, r, "__array_new"@, "__array_push"@,
            elements@.len()),
        Expr::Dict { entries, .. } => collection_literal_shape(before, after, r, "__map_new"@, "__map_set"@,
            entries@.len()),
        Expr::Binary { op, left, right, .. } => binary_tail(op, expr_ir_type_spec(before, *left),
            expr_ir_type_spec(before, *right), after.func, r),
        Expr::Call { callee, args, .. } => if *callee is Field {
            method_call_tail(after, callee->Field_field@, r)
        } else {
            direct_call_target(before, e) matches Some(f) ==> last_inst(after.func)
                matches crate::ir::InstV::Call { dest, func, args: a, ret_ty }
                && dest == Some(r) && func == f && ret_ty == IrType::Ptr
                && (!before.fn_variadic_info@.contains_key(f) ==> a.len()
                    == completed_args_spec(before.func_default_args@, f, args@).len())
        },
        Expr::Range { .. } => last_inst(after.func) matches crate::ir::InstV::Call { dest, func, args, ret_ty }
            && dest == Some(r) && func == "__range"@ && args.len() == 2 && ret_ty == IrType::Ptr,
        Expr::Literal(lit, _) => r == Value(before.func.next_value)
            && exists|idx: usize| crate::ir::IrFunction::appended(&before.func, &after.func,
                seq![crate::literals::literal_inst(lit, r, idx)]),
        Expr::Ident(n, _) => ident_read(before, after, n@, r),
        Expr::SelfExpr(_) | Expr::ParentExpr(_) => self_read(before, after, r),
    }
}

/// A variable: its value; a user function used as a value: a fat pointer to
/// its wrapper; anything else: an unresolved symbol (a `Nop`).
fn lower_ident(builder: &mut LowerBuilder, name: &str) -> (r: Value)
    requires
        old(builder).wf(),
    ensures
        LowerBuilder::kept(old(builder), final(builder)),
        LowerBuilder::same_tables(old(builder), final(builder)),
        ident_read(*old(builder), *final(builder), name@, r),
{
    match builder.load_local(name) {
        Some((v, _t)) => {
            return v;
        },
        None => {},
    }
    if builder.fn_param_types.contains_key(name) {
        let fat = builder.new_value();
        let wrapper = concat("__fn_wrap_", name);
        emit_fat_ptr(builder, fat, wrapper, None);
        return fat;
    }
    let dest = builder.new_value();
    builder.emit(Inst::Nop);
    dest
}

/// `self` (and `parent`, the same object): the `self` local.
fn lower_self(builder: &mut LowerBuilder) -> (r: Value)
    requires
        old(builder).wf(),
    ensures
        LowerBuilder::kept(old(builder), final(builder)),
        self_read(*old(builder), *final(builder), r),
{
    proof {
        reveal_strlit("self");
    }
    match builder.load_local("self") {
        Some((v, _t)) => v,
        None => {
            let dest = builder.new_value();
            builder.emit(Inst::Load { dest, ptr: Value(0), ty: IrType::Ptr });
            dest
        },
    }
}

/// Class of the object of a field access or method call: a variable of
/// known class, `self`, `parent`, or a chained field access.
fn object_class(builder: &LowerBuilder, object: &Expr) -> (r: Option<String>)
{
    match object {
        Expr::Ident(n, _) => match builder.var_class.get(n.as_str()) {
            Some(c) => Some(c.clone()),
            None => None,
        },
        Expr::SelfExpr(_) => match &builder.current_class {
            Some(c) => Some(c.clone()),
            None => None,
        },
        Expr::ParentExpr(_) => match &builder.parent_class {
            Some(c) => Some(c.clone()),
            None => None,
        },
        Expr::Field { object: inner, field, .. } => resolve_chained_field_class(builder, inner, field.as_str()),
        _ => None,
    }
}

/// `object.field`: the field read at its offset in the object's class
/// layout (offset 0, pointer type, when the class is unknown).
fn lower_field(builder: &mut LowerBuilder, expr: &Expr) -> (r: Value)
    requires
        old(builder).wf(),
        *expr is Field,
    ensures
        LowerBuilder::kept(old(builder), final(builder)),
        last_inst(final(builder).func) matches InstV::GetField { dest, field, .. }
            && dest == r && field == expr->Field_field@,
    decreases old(builder).fda_len(), *expr, 1nat,
{
    match expr {
        Expr::Field { object, field, .. } => {
            let class_name = object_class(builder, object);
            let (offset, field_ty) = match &class_name {
                Some(cls) => (
                    field_offset(&builder.module.class_layouts, cls.as_str(), field.as_str()),
                    field_ir_type(&builder.module.class_layouts, cls.as_str(), field.as_str()),
                ),
                None => (0i32, IrType::Ptr),
            };
            let obj_val = lower_expr(builder, object);
            let dest = builder.new_value();
            builder.emit(Inst::GetField { dest, obj: obj_val, field: field.clone(), ty: field_ty, offset });
            dest
        },
        _ => {
            proof { assert(false); }
            Value(0)
        },
    }
}

/// `f(args)` where `f` is a function-valued variable: loads the fat
/// pointer, passes its environment first, pads the arguments with zeros up
/// to five (so that a closure can substitute its parameter defaults).
fn lower_indirect_call(builder: &mut LowerBuilder, name: &str, args: &Vec<Expr>, Ghost(node): Ghost<Expr>) -> (r: Value)
    requires
        old(builder).wf(),
        decreases_to!(node => *args),
    ensures
        LowerBuilder::kept(old(builder), final(builder)),
    decreases old(builder).fda_len(), node, 0nat,
{
    let fat_ptr = match builder.load_local(name) {
        Some((v, _t)) => v,
        None => {
            let d = builder.new_value();
            builder.emit(Inst::Nop);
            d
        },
    };
    let func_ptr = builder.new_value();
    builder.emit(Inst::GetField { dest: func_ptr, obj: fat_ptr, field: "func".to_owned(), ty: IrType::Ptr, offset: 0 });
    let env_ptr = builder.new_value();
    builder.emit(Inst::GetField { dest: env_ptr, obj: fat_ptr, field: "env".to_owned(), ty: IrType::Ptr, offset: 8 });
    let mut all_args: Vec<Value> = Vec::new();
    all_args.push(env_ptr);
    let mut i: usize = 0;
    while i < args.len()
        invariant
            LowerBuilder::kept(old(builder), builder),
            decreases_to!(node => *args),
            all_args@.len() == i + 1,
        decreases args@.len() - i,
    {
        proof {
            assert(decreases_to!(*args => args@));
            assert(decreases_to!(args@ => args@[i as int]));
        }
        let v = lower_expr(builder, &args[i]);
        all_args.push(v);
        i = i + 1;
    }
    while all_args.len() < 6
        invariant
            LowerBuilder::kept(old(builder), builder),
        decreases 6 - all_args@.len(),
    {
        let zero = builder.new_value();
        builder.emit(Inst::ConstInt { dest: zero, value: 0 });
        all_args.push(zero);
    }
    let dest = builder.new_value();
    let ret_ty = match builder.func_ret_types.get(name) {
        Some(t) => *t,
        None => IrType::I64,
    };
    builder.emit(Inst::CallIndirect { dest: Some(dest), callee: func_ptr, args: all_args, ret_ty });
    dest
}

/// True when some function of the module is named `name`.
fn module_has_function(builder: &LowerBuilder, name: &str) -> (r: bool)
    ensures
        r == exists|i: int| 0 <= i < builder.module.functions@.len() && (#[trigger] builder.module.functions@[i]).name@ == name@,
{
    let mut i: usize = 0;
    while i < builder.module.functions.len()
        invariant
            i <= builder.module.functions@.len(),
            forall|j: int| 0 <= j < i ==> (#[trigger] builder.module.functions@[j]).name@ != name@,
        decreases builder.module.functions@.len() - i,
    {
        if str_eq(builder.module.functions[i].name.as_str(), name) {
            return true;
        }
        i = i + 1;
    }
    false
}

/// The class of the inheritance chain of `cls` (starting with its parent)
/// that defines `method` — a function of the module or a runtime function —
/// if any. The walk is bounded by the number of recorded parent links, which
/// an acyclic chain never exceeds.
fn inherited_owner(builder: &LowerBuilder, cls: &str, method: &str) -> (r: Option<String>)
{
    let mut current = cls.to_owned();
    let mut fuel = builder.module.class_parents.raw_len();
    while fuel > 0
        decreases fuel,
    {
        fuel = fuel - 1;
        let parent = match builder.module.class_parents.get(current.as_str()) {
            Some(p) => p.clone(),
            None => {
                return None;
            },
        };
        let candidate = mangle(parent.as_str(), method);
        if module_has_function(builder, candidate.as_str()) || runtime_builtin(candidate.as_str()).is_some() {
            return Some(parent);
        }
        current = parent;
    }
    None
}

/// Emits a task spawn for async function `func_name` with already lowered
/// arguments: the arguments go to a heap environment (8 bytes each, at
/// least 8), the task runs the function's wrapper; the result is the task.
fn lower_async_spawn(builder: &mut LowerBuilder, func_name: &str, arg_vals: &Vec<Value>) -> (r: Value)
    requires
        old(builder).wf(),
    ensures
        LowerBuilder::kept(old(builder), final(builder)),
{
    let n = arg_vals.len();
    let size: i64 = if n < 0x1000_0000 { if n * 8 > 8 { (n * 8) as i64 } else { 8 } } else { 0x8000_0000 };
    let env_size = builder.new_value();
    builder.emit(Inst::ConstInt { dest: env_size, value: size });
    let env_ptr = call_value(builder, "__alloc_obj", vec1(env_size), IrType::I64);
    let mut i: usize = 0;
    while i < arg_vals.len()
        invariant
            LowerBuilder::kept(old(builder), builder),
        decreases arg_vals@.len() - i,
    {
        let field = with_number("__arg", i);
        builder.emit(Inst::SetField { obj: env_ptr, field, src: arg_vals[i], offset: slot_offset(i) });
        i = i + 1;
    }
    let func_addr = builder.new_value();
    builder.emit(Inst::FuncAddr { dest: func_addr, func: concat("__async_wrap_", func_name) });
    call_value(builder, "__task_spawn", vec2(func_addr, env_ptr), IrType::I64)
}

/// The JSON conversions callable as methods of primitive containers.
pub open spec fn is_json_method_spec(field: Seq<char>) -> bool {
    field == "encode"@ || field == "decode"@ || field == "pretty"@ || field == "minimize"@
}

/// A method call `o.field(args)` other than the registration of a `Tauri`
/// handler ends with a call into `r` whose first argument is the object:
/// `JSON_<field>` for a JSON conversion.
pub open spec fn method_call_tail(after: LowerBuilder, field: Seq<char>, r: Value) -> bool {
    !(field == "handler"@ || field == "handlers"@) ==> {
        &&& last_inst(after.func) is Call
        &&& last_inst(after.func)->Call_dest == Some(r)
        &&& last_inst(after.func)->Call_args.len() >= 1
        &&& is_json_method_spec(field) ==> last_inst(after.func)->Call_func == "JSON_"@ + field
    }
}

/// `obj.method(args)` on a string, array or map value that encodes or
/// decodes JSON.
fn is_json_method(field: &str) -> (r: bool)
    ensures
        r == is_json_method_spec(field@),
{
    str_eq(field, "encode") || str_eq(field, "decode") || str_eq(field, "pretty") || str_eq(field, "minimize")
}

/// Receiver class of a method call.
fn method_receiver_class(builder: &LowerBuilder, object: &Expr) -> (r: Option<String>)
{
    match object {
        Expr::Ident(n, _) => match builder.var_class.get(n.as_str()) {
            Some(c) => Some(c.clone()),
            None => None,
        },
        Expr::SelfExpr(_) => match &builder.current_class {
            Some(c) => Some(c.clone()),
            None => None,
        },
        Expr::ParentExpr(_) => match &builder.parent_class {
            Some(c) => Some(c.clone()),
            None => None,
        },
        Expr::Literal(Literal::String(_), _) => Some("String".to_owned()),
        Expr::Call { callee, .. } => match &**callee {
            Expr::Field { object: inner_obj, field: inner_method, .. } => match &**inner_obj {
                Expr::Ident(n, _) => match builder.var_class.get(n.as_str()) {
                    Some(cls) => {
                        let m = mangle(cls.as_str(), inner_method.as_str());
                        match builder.fn_ret_types.get(m.as_str()) {
                            Some(IrType::Ptr) => Some(cls.clone()),
                            _ => None,
                        }
                    },
                    None => None,
                },
                _ => None,
            },
            _ => None,
        },
        Expr::Field { object: inner_obj, field: inner_field, .. } =>
            resolve_chained_field_class(builder, inner_obj, inner_field.as_str()),
        _ => {
            if expr_ir_type(builder, object) == IrType::Ptr {
                Some("String".to_owned())
            } else {
                None
            }
        },
    }
}

/// True for the calls that release a resource by hand (`Mutex::destroy`,
/// `close` of a database connection).
fn is_manual_finalizer(class_name: &Option<String>, field: &str) -> (r: bool)
{
    match class_name {
        Some(c) => (str_eq(c.as_str(), "Mutex") && str_eq(field, "destroy"))
            || ((str_eq(c.as_str(), "SQLite") || str_eq(c.as_str(), "MySQL") || str_eq(c.as_str(), "MariaDB"))
                && str_eq(field, "close")),
        None => false,
    }
}

/// Marks owned local `name` as released (a manual finalizer was called).
fn mark_released(builder: &mut LowerBuilder, name: &str)
    requires
        old(builder).wf(),
    ensures
        LowerBuilder::kept(old(builder), final(builder)),
        final(builder).func == old(builder).func,
{
    let placeholder = crate::builder::OwnedLocalInfo {
        kind: crate::ast::VarKind::Var,
        class: crate::scope::OwnershipClass::Unsupported,
        ty: Type::Void,
        dropped: false,
        declared_loop_depth: 0,
    };
    match builder.owned_locals.replace_value(name, placeholder) {
        Some(mut info) => {
            info.dropped = true;
            let _ = builder.owned_locals.replace_value(name, info);
        },
        None => {},
    }
}

/// `object.field(args)`: a JSON conversion on a primitive container, or a
/// method call resolved on the receiver's class (looking up the inheritance
/// chain when the class does not define it), with its arguments completed
/// by defaults and boxed for `mixed` parameters; an external call on a
/// class with subclasses goes through its dynamic dispatcher.
fn lower_method_call(builder: &mut LowerBuilder, expr: &Expr) -> (r: Value)
    requires
        old(builder).wf(),
        *expr matches Expr::Call { callee, .. } && *callee is Field,
    ensures
        LowerBuilder::kept(old(builder), final(builder)),
        method_call_tail(*final(builder), expr->Call_callee->Field_field@, r),
    decreases old(builder).fda_len(), *expr, 1nat,
{
    let (callee, args) = match expr {
        Expr::Call { callee, args, .. } => (callee, args),
        _ => {
            proof { assert(false); }
            return Value(0);
        },
    };
    let (object, field) = match &**callee {
        Expr::Field { object, field, .. } => (object, field),
        _ => {
            proof { assert(false); }
            return Value(0);
        },
    };
    proof {
        assert(decreases_to!(*expr => **callee));
        assert(decreases_to!(**callee => **object));
        assert(decreases_to!(*expr => *args));
    }
    if is_json_method(field.as_str()) {
        let obj_val = lower_expr(builder, object);
        let func_name = concat("JSON_", field.as_str());
        let ret_ty = match builder.fn_ret_types.get(func_name.as_str()) {
            Some(t) => *t,
            None => IrType::Ptr,
        };
        return call_value(builder, func_name.as_str(), vec1(obj_val), ret_ty);
    }
    let class_name = method_receiver_class(builder, object);
    proof {
        assert(decreases_to!(*expr => **object));
    }
    match crate::tauri::try_lower_tauri_handler_call(builder, &class_name, field.as_str(), object, args, Ghost(*expr)) {
        Some(d) => {
            return d;
        },
        None => {},
    }
    match crate::tauri::try_lower_tauri_handlers_call(builder, &class_name, field.as_str(), object, args, Ghost(*expr)) {
        Some(d) => {
            return d;
        },
        None => {},
    }
    let mut func_mangled = match &class_name {
        Some(cls) => mangle(cls.as_str(), field.as_str()),
        None => concat("_method_", field.as_str()),
    };
    match &class_name {
        Some(cls) => {
            if !module_has_function(builder, func_mangled.as_str()) {
                match inherited_owner(builder, cls.as_str(), field.as_str()) {
                    Some(owner) => {
                        func_mangled = mangle(owner.as_str(), field.as_str());
                    },
                    None => {},
                }
            }
        },
        None => {},
    }
    let obj_val = lower_expr(builder, object);
    let dest = builder.new_value();
    let ghost l0 = builder.fda_len();
    let mut defaults: NameMap<Vec<Option<&crate::ast::Expr>>> = NameMap::new();
    std::mem::swap(&mut defaults, &mut builder.func_default_args);
    let ghost saved = defaults;
    let mut all_args: Vec<Value> = Vec::new();
    all_args.push(obj_val);
    {
        let completed = complete_args_with_defaults(&defaults, func_mangled.as_str(), args);
        let mut i: usize = 0;
        while i < completed.len()
            invariant
                builder.wf(),
                builder.fda_len() == 0,
                LowerBuilder::same_scopes(old(builder), builder),
                LowerBuilder::same_signature(old(builder), builder),
                crate::builder::functions_grow(old(builder).module, builder.module),
                crate::builder::extends(old(builder).func, builder.func),
                builder.func_default_args@ == Map::<Seq<char>, Vec<Option<&Expr>>>::empty(),
                all_args@.len() >= 1,
                defaults == saved,
                saved.entries@.len() == old(builder).fda_len(),
                decreases_to!(*expr => *args),
                completed@.len() == crate::helpers::completed_args_spec(defaults@, func_mangled@, args@).len(),
                forall|j: int| 0 <= j < completed@.len() ==>
                    *(#[trigger] completed@[j]) == crate::helpers::completed_args_spec(defaults@, func_mangled@, args@)[j],
            decreases completed@.len() - i,
        {
            proof {
                let spec = crate::helpers::completed_args_spec(defaults@, func_mangled@, args@);
                if i < args@.len() {
                    if defaults@.contains_key(func_mangled@) && args@.len() < defaults@[func_mangled@]@.len() {
                        assert(spec[i as int] == args@[i as int]);
                    }
                    assert(*completed@[i as int] == args@[i as int]);
                    assert(decreases_to!(*args => args@));
                    assert(decreases_to!(args@ => args@[i as int]));
                } else {
                    defaults.lemma_bound_nonempty(func_mangled@);
                }
            }
            let a = completed[i];
            let raw = lower_expr(builder, a);
            let arg_ty = expr_ir_type(builder, a);
            let param_ty = param_type_for_call_arg(builder, func_mangled.as_str(), i, CallForm::Sugar);
            let boxed = box_arg_for_mixed_param(builder, param_ty, &arg_ty, raw);
            all_args.push(boxed);
            i = i + 1;
        }
    }
    std::mem::swap(&mut defaults, &mut builder.func_default_args);
    let ret_ty = match builder.fn_ret_types.get(func_mangled.as_str()) {
        Some(t) => *t,
        None => IrType::Ptr,
    };
    let is_self_or_parent = match &**object {
        Expr::SelfExpr(_) | Expr::ParentExpr(_) => true,
        _ => false,
    };
    let call_target = if is_self_or_parent {
        func_mangled.clone()
    } else {
        match &class_name {
            Some(cls) => match class_dispatcher_name(&builder.module, cls.as_str(), field.as_str()) {
                Some(d) => d,
                None => func_mangled.clone(),
            },
            None => func_mangled.clone(),
        }
    };
    proof {
        assert(all_args@.len() >= 1);
    }
    emit_call(builder, Some(dest), call_target, all_args, ret_ty);
    match &**object {
        Expr::Ident(var_name, _) => {
            if is_manual_finalizer(&class_name, field.as_str()) {
                mark_released(builder, var_name.as_str());
            }
        },
        _ => {},
    }
    dest
}

/// Variant of built-in `name` with optional trailing parameters matching
/// `n` arguments (`Name_n`), when `name` has such variants and `n` is below
/// its parameter count; `name` otherwise.
fn overload_name(name: &str, n: usize) -> (r: String)
    ensures
        runtime_builtin_spec(name@) is None ==> r@ == name@,
{
    match runtime_builtin(name) {
        Some((params, _v)) => {
            let zero = concat(name, "_0");
            if runtime_builtin(zero.as_str()).is_some() && n < params {
                let with_sep = concat(name, "_");
                let d = decimal(n);
                concat(with_sep.as_str(), d.as_str())
            } else {
                name.to_owned()
            }
        },
        None => name.to_owned(),
    }
}

/// True for the printing functions dispatched on their argument's type.
fn is_write_function(name: &str) -> (r: bool)
    ensures
        r == (name@ == "IO_write"@ || name@ == "IO_writeln"@),
{
    str_eq(name, "IO_write") || str_eq(name, "IO_writeln")
}

/// Emits the typed printing call for one argument and returns a dummy 0.
fn lower_write_call(builder: &mut LowerBuilder, func_name: &str, arg: &Expr, Ghost(l): Ghost<nat>, Ghost(node): Ghost<Expr>) -> (r: Value)
    requires
        old(builder).wf(),
        l >= old(builder).fda_len(),
        l > old(builder).fda_len() || decreases_to!(node => *arg),
    ensures
        LowerBuilder::kept(old(builder), final(builder)),
    decreases l, node, 0nat,
{
    let arg_ty = expr_ir_type(builder, arg);
    let variant = write_variant(func_name, &arg_ty);
    let arg_val = lower_expr(builder, arg);
    emit_call(builder, None, variant, vec1(arg_val), IrType::Void);
    let dummy = builder.new_value();
    builder.emit(Inst::ConstInt { dest: dummy, value: 0 });
    dummy
}

/// `f(args)` for a free function (or an unresolved callee): rejects calls of
/// internal functions; calls through function-valued variables indirectly;
/// completes arguments with defaults; picks the variant of a built-in with
/// optional parameters; dispatches printing on the argument's type; spawns
/// a task for an async function; otherwise boxes arguments for `mixed`
/// parameters and packs the excess arguments of a variadic function into
/// an array.
fn lower_free_call(builder: &mut LowerBuilder, expr: &Expr) -> (r: Value)
    requires
        old(builder).wf(),
        *expr matches Expr::Call { callee, .. } && !(*callee is Field),
    ensures
        LowerBuilder::kept(old(builder), final(builder)),
        direct_call_target(*old(builder), *expr) matches Some(f) ==> last_inst(final(builder).func)
            matches InstV::Call { dest, func, args, ret_ty }
            && dest == Some(r) && func == f && ret_ty == IrType::Ptr
            && (!old(builder).fn_variadic_info@.contains_key(f) ==> args.len()
                == completed_args_spec(old(builder).func_default_args@, f, expr->Call_args@).len()),
    decreases old(builder).fda_len(), *expr, 1nat,
{
    let (callee, args) = match expr {
        Expr::Call { callee, args, .. } => (callee, args),
        _ => {
            proof { assert(false); }
            return Value(0);
        },
    };
    proof {
        assert(decreases_to!(*expr => *args));
    }
    match &**callee {
        Expr::Ident(name, _) => {
            if starts_with(name.as_str(), "__") && !starts_with(name.as_str(), "__runtime_") {
                let msg = concat3("error: `", name.as_str(), "` is an internal compiler function and cannot be called directly");
                builder.module.report(msg);
                let dest = builder.new_value();
                builder.emit(Inst::Nop);
                return dest;
            }
            if builder.func_vars.contains(name.as_str()) {
                return lower_indirect_call(builder, name.as_str(), args, Ghost(*expr));
            }
        },
        _ => {},
    }
    let base_name = match &**callee {
        Expr::Ident(name, _) => name.clone(),
        _ => "_unknown".to_owned(),
    };
    let mut defaults: NameMap<Vec<Option<&crate::ast::Expr>>> = NameMap::new();
    std::mem::swap(&mut defaults, &mut builder.func_default_args);
    let ghost saved = defaults;
    let result = {
        let completed = complete_args_with_defaults(&defaults, base_name.as_str(), args);
        proof {
            assert forall|j: int| 0 <= j < completed@.len() implies
                (old(builder).fda_len() > 0 || decreases_to!(*expr => *(#[trigger] completed@[j]))) by {
                let spec = crate::helpers::completed_args_spec(defaults@, base_name@, args@);
                if j < args@.len() {
                    if defaults@.contains_key(base_name@) && args@.len() < defaults@[base_name@]@.len() {
                        assert(spec[j] == args@[j]);
                    }
                    assert(decreases_to!(*args => args@));
                    assert(decreases_to!(args@ => args@[j]));
                } else {
                    defaults.lemma_bound_nonempty(base_name@);
                }
            }
        }
        let func_name = overload_name(base_name.as_str(), completed.len());
        proof {
            if direct_call_target(*old(builder), *expr) is Some {
                assert(func_name@ == base_name@);
                assert(runtime_builtin_spec(func_name@) is None);
                assert(func_name@ != "IO_write"@);
                assert(func_name@ != "IO_writeln"@);
                assert(!builder.async_funcs@.contains(func_name@));
            }
        }
        if is_write_function(func_name.as_str()) && completed.len() == 1 {
            lower_write_call(builder, func_name.as_str(), completed[0], Ghost(old(builder).fda_len()), Ghost(*expr))
        } else if builder.async_funcs.contains(func_name.as_str()) {
            let mut raw: Vec<Value> = Vec::new();
            let mut i: usize = 0;
            while i < completed.len()
                invariant
                    builder.wf(),
                    builder.fda_len() == 0,
                    LowerBuilder::same_scopes(old(builder), builder),
                LowerBuilder::same_signature(old(builder), builder),
                crate::builder::functions_grow(old(builder).module, builder.module),
                crate::builder::extends(old(builder).func, builder.func),
                    forall|j: int| 0 <= j < completed@.len() ==>
                        (old(builder).fda_len() > 0 || decreases_to!(*expr => *(#[trigger] completed@[j]))),
                decreases completed@.len() - i,
            {
                let v = lower_expr(builder, completed[i]);
                raw.push(v);
                i = i + 1;
            }
            lower_async_spawn(builder, func_name.as_str(), &raw)
        } else {
            let variadic = match builder.fn_variadic_info.get(func_name.as_str()) {
                Some(info) => Some(info.0),
                None => None,
            };
            let mut arg_vals: Vec<Value> = Vec::new();
            let mut arg_tys: Vec<IrType> = Vec::new();
            let mut i: usize = 0;
            while i < completed.len()
                invariant
                    builder.wf(),
                    builder.fda_len() == 0,
                    LowerBuilder::same_scopes(old(builder), builder),
                LowerBuilder::same_signature(old(builder), builder),
                crate::builder::functions_grow(old(builder).module, builder.module),
                crate::builder::extends(old(builder).func, builder.func),
                    i <= completed@.len(),
                    arg_vals@.len() == i,
                    arg_tys@.len() == i,
                    forall|j: int| 0 <= j < completed@.len() ==>
                        (old(builder).fda_len() > 0 || decreases_to!(*expr => *(#[trigger] completed@[j]))),
                decreases completed@.len() - i,
            {
                let raw = lower_expr(builder, completed[i]);
                let arg_ty = expr_ir_type(builder, completed[i]);
                let param_ty = param_type_for_call_arg(builder, func_name.as_str(), i, CallForm::Static);
                let boxed = box_arg_for_mixed_param(builder, param_ty, &arg_ty, raw);
                arg_vals.push(boxed);
                arg_tys.push(arg_ty);
                i = i + 1;
            }
            let final_args = match variadic {
                Some(fixed) => {
                    if arg_vals.len() >= fixed {
                        let mut fa: Vec<Value> = Vec::new();
                        let mut k: usize = 0;
                        while k < fixed
                            invariant
                                k <= fixed <= arg_vals@.len(),
                            decreases fixed - k,
                        {
                            fa.push(arg_vals[k]);
                            k = k + 1;
                        }
                        let arr = call_value(builder, "__array_new", Vec::new(), IrType::Ptr);
                        let mut idx: usize = fixed;
                        while idx < arg_vals.len()
                            invariant
                                builder.wf(),
                                builder.fda_len() == 0,
                                LowerBuilder::same_scopes(old(builder), builder),
                LowerBuilder::same_signature(old(builder), builder),
                crate::builder::functions_grow(old(builder).module, builder.module),
                crate::builder::extends(old(builder).func, builder.func),
                                fixed <= idx <= arg_vals@.len(),
                                arg_tys@.len() == arg_vals@.len(),
                            decreases arg_vals@.len() - idx,
                        {
                            let stored = box_scalar(builder, &arg_tys[idx], arg_vals[idx]);
                            emit_call(builder, None, "__array_push".to_owned(), vec2(arr, stored), IrType::Void);
                            idx = idx + 1;
                        }
                        fa.push(arr);
                        fa
                    } else {
                        arg_vals
                    }
                },
                None => arg_vals,
            };
            let ghost n_args = final_args@.len();
            let rv = call_value(builder, func_name.as_str(), final_args, IrType::Ptr);
            assert(last_inst(builder.func) matches InstV::Call { dest, func, args, ret_ty }
                && dest == Some(rv) && func == func_name@ && ret_ty == IrType::Ptr && args.len() == n_args);
            assert(variadic is None ==> n_args == completed@.len());
            rv
        }
    };
    std::mem::swap(&mut defaults, &mut builder.func_default_args);
    result
}


/// The function of the program that `f(args)` calls directly: `f` is not an
/// internal name (`__` but not `__runtime_`), not a function-valued
/// variable, not a function of the runtime and not async.
pub open spec fn direct_call_target(b: LowerBuilder, e: Expr) -> Option<Seq<char>> {
    match e {
        Expr::Call { callee, .. } => match *callee {
            Expr::Ident(name, _) => if !(starts_with_spec(name@, "__"@) && !starts_with_spec(name@, "__runtime_"@))
                && !b.func_vars@.contains(name@) && runtime_builtin_spec(name@) is None
                && !b.async_funcs@.contains(name@) {
                Some(name@)
            } else {
                None
            },
            _ => None,
        },
        _ => None,
    }
}

/// The modules of the standard library that must be imported before use
/// (unless the program defines a class of the same name).
fn is_builtin_module(name: &str) -> (r: bool)
{
    str_eq(name, "String") || str_eq(name, "Math") || str_eq(name, "Array") || str_eq(name, "Map")
        || str_eq(name, "IO") || str_eq(name, "JSON") || str_eq(name, "Convert") || str_eq(name, "System")
        || str_eq(name, "Regex") || str_eq(name, "HTTPRequest") || str_eq(name, "HTTPServer")
        || str_eq(name, "Thread") || str_eq(name, "Mutex") || str_eq(name, "HTML")
        || str_eq(name, "HTMLComponent") || str_eq(name, "UnitTest") || str_eq(name, "File")
        || str_eq(name, "Directory") || str_eq(name, "Date") || str_eq(name, "Time") || str_eq(name, "DateTime")
}

fn is_imported(builder: &LowerBuilder, name: &str) -> (r: bool)
{
    let mut i: usize = 0;
    while i < builder.module.imports.len()
        decreases builder.module.imports@.len() - i,
    {
        if str_eq(builder.module.imports[i].as_str(), name) {
            return true;
        }
        i = i + 1;
    }
    false
}

/// `line:col` of a position.
fn position_text(builder: &LowerBuilder, span: &crate::ast::Span) -> (r: String)
{
    let file = concat(builder.module.source_file.as_str(), ":");
    let line = decimal(span.line);
    let col = decimal(span.col);
    concat3(file.as_str(), concat(line.as_str(), ":").as_str(), col.as_str())
}

/// `Class::method(args)`: `<self>`/`<parent>` stand for the current and
/// parent classes (`self::` also looks up the inheritance chain); picks the
/// variant of a built-in with optional parameters; spawns a task for an
/// async method; rejects a standard module used without its import; boxes
/// arguments for `mixed` parameters; passes `self` first to a `parent::`
/// call; a void built-in yields a dummy 0.
fn lower_static_call(builder: &mut LowerBuilder, expr: &Expr) -> (r: Value)
    requires
        old(builder).wf(),
        *expr is StaticCall,
    ensures
        LowerBuilder::kept(old(builder), final(builder)),
        static_call_tail(*old(builder), *final(builder), *expr, r),
        static_args_in_order(*old(builder), *final(builder), *expr),
    decreases old(builder).fda_len(), *expr, 1nat,
{
    let (class, method, args, span) = match expr {
        Expr::StaticCall { class, method, args, span } => (class, method, args, span),
        _ => {
            proof { assert(false); }
            return Value(0);
        },
    };
    proof {
        assert(decreases_to!(*expr => *args));
    }
    let is_parent = str_eq(class.as_str(), "<parent>");
    let is_self = str_eq(class.as_str(), "<self>");
    let mut resolved = if is_parent {
        match &builder.parent_class {
            Some(p) => p.clone(),
            None => String::new(),
        }
    } else if is_self {
        match &builder.current_class {
            Some(c) => c.clone(),
            None => String::new(),
        }
    } else {
        class.clone()
    };
    if is_self && resolved.unicode_len() > 0 {
        let direct = mangle(resolved.as_str(), method.as_str());
        if !module_has_function(builder, direct.as_str()) {
            match inherited_owner(builder, resolved.as_str(), method.as_str()) {
                Some(owner) => {
                    resolved = owner;
                },
                None => {},
            }
        }
    }
    let base = mangle(resolved.as_str(), method.as_str());
    let func_name = overload_name(base.as_str(), args.len());
    if builder.async_funcs.contains(func_name.as_str()) {
        let mut arg_vals: Vec<Value> = Vec::new();
        if is_parent {
            match builder.load_local("self") {
                Some((v, _t)) => arg_vals.push(v),
                None => {},
            }
        }
        let mut i: usize = 0;
        while i < args.len()
            invariant
                LowerBuilder::kept(old(builder), builder),
                decreases_to!(*expr => *args),
            decreases args@.len() - i,
        {
            proof {
                assert(decreases_to!(*args => args@));
                assert(decreases_to!(args@ => args@[i as int]));
            }
            let v = lower_expr(builder, &args[i]);
            arg_vals.push(v);
            i = i + 1;
        }
        return lower_async_spawn(builder, func_name.as_str(), &arg_vals);
    }
    let is_local_class = builder.module.class_layouts.contains_key(resolved.as_str());
    if is_builtin_module(resolved.as_str()) && !is_local_class && !is_imported(builder, resolved.as_str()) {
        let pos = position_text(builder, span);
        let head = concat3(pos.as_str(), ": error: using `", resolved.as_str());
        let mid = concat3(head.as_str(), "::", method.as_str());
        let msg = concat3(mid.as_str(), "` without `import ocara.", resolved.as_str());
        let msg = concat(msg.as_str(), "`");
        builder.module.report(msg);
    }
    if is_write_function(func_name.as_str()) && args.len() == 1 {
        proof {
            assert(decreases_to!(*args => args@));
            assert(decreases_to!(args@ => args@[0]));
        }
        return lower_write_call(builder, func_name.as_str(), &args[0], Ghost(old(builder).fda_len()), Ghost(*expr));
    }
    let mut final_args: Vec<Value> = Vec::new();
    let mut arg_vals: Vec<Value> = Vec::new();
    let mut i: usize = 0;
    let ghost mut states: Seq<LowerBuilder> = seq![*builder];
    proof {
        assert(builder.func == old(builder).func);
    }
    while i < args.len()
        invariant
            LowerBuilder::kept(old(builder), builder),
            decreases_to!(*expr => *args),
            i <= args@.len(),
            arg_vals@.len() == i,
            states.len() == i + 1,
            states[0].func == old(builder).func,
            states[i as int] == *builder,
            forall|j: int| 0 <= j < i ==> #[trigger] arg_lowered(states[j], states[j + 1], args@[j], arg_vals@[j]),
        decreases args@.len() - i,
    {
        proof {
            assert(decreases_to!(*args => args@));
            assert(decreases_to!(args@ => args@[i as int]));
        }
        let ghost s = *builder;
        let raw = lower_expr(builder, &args[i]);
        let ghost mid = *builder;
        let arg_ty = expr_ir_type(builder, &args[i]);
        let param_ty = param_type_for_call_arg(builder, func_name.as_str(), i, CallForm::Static);
        let boxed = box_arg_for_mixed_param(builder, param_ty, &arg_ty, raw);
        proof {
            if param_ty == Some(IrType::Ptr) && crate::helpers::box_func_spec(arg_ty) is Some {
                let f = crate::helpers::box_func_spec(arg_ty).unwrap();
                assert(IrFunction::appended(&mid.func, &builder.func,
                    seq![InstV::Call { dest: Some(boxed), func: f, args: seq![raw], ret_ty: IrType::Ptr }]));
            }
            assert(arg_lowered(s, *builder, args@[i as int], boxed));
            let ghost old_states = states;
            states = states.push(*builder);
            assert forall|j: int| 0 <= j < i + 1 implies #[trigger] arg_lowered(states[j], states[j + 1], args@[j],
                arg_vals@.push(boxed)[j]) by {
                if j < i {
                    assert(states[j] == old_states[j]);
                    assert(states[j + 1] == old_states[j + 1]);
                }
            }
        }
        arg_vals.push(boxed);
        i = i + 1;
    }
    let ghost before_self = *builder;
    if is_parent {
        match builder.load_local("self") {
            Some((v, _t)) => final_args.push(v),
            None => {},
        }
    }
    let ghost after_self = *builder;
    proof {
        lemma_extends_refl(builder.func);
        if final_args@.len() == 1 {
            assert(LowerBuilder::has_var(&before_self, "self"@));
            assert(var_read(before_self, after_self, "self"@, final_args@[0]));
        }
    }
    let ghost f0 = final_args@.len();
    let ghost pre = final_args@;
    let mut k: usize = 0;
    while k < arg_vals.len()
        invariant
            k <= arg_vals@.len(),
            final_args@.len() == f0 + k,
            pre.len() == f0,
            final_args@ == pre + arg_vals@.take(k as int),
        decreases arg_vals@.len() - k,
    {
        proof {
            assert(arg_vals@.take(k + 1) =~= arg_vals@.take(k as int).push(arg_vals@[k as int]));
        }
        final_args.push(arg_vals[k]);
        k = k + 1;
    }
    proof {
        assert(arg_vals@.take(arg_vals@.len() as int) =~= arg_vals@);
    }
    if is_void_builtin(func_name.as_str()) {
        emit_call(builder, None, func_name, final_args, IrType::Void);
        let dummy = builder.new_value();
        builder.emit(Inst::ConstInt { dest: dummy, value: 0 });
        return dummy;
    }
    let ghost bc = *builder;
    let ghost fa = final_args@;
    let r = call_value(builder, func_name.as_str(), final_args, IrType::Ptr);
    proof {
        let k = pre.len() as int;
        assert(fa.skip(k) =~= arg_vals@);
        assert(extends(before_self.func, bc.func));
        lemma_extends_trans(before_self.func, bc.func, builder.func);
        lemma_last_appended(bc.func, builder.func,
            InstV::Call { dest: Some(r), func: func_name@, args: fa, ret_ty: IrType::Ptr });
        assert(last_inst(builder.func)->Call_args == fa);
        assert(args_lowered_in_order(old(builder).func, states, args@, last_inst(builder.func)->Call_args.skip(k),
            builder.func));
        if k == 1 {
            lemma_extends_trans(after_self.func, bc.func, builder.func);
            assert(fa[0] == pre[0]);
            assert(var_read(before_self, after_self, "self"@, fa[0]));
        }
    }
    r
}

/// A static call `Class::method(args)` on a named class (neither `<self>`
/// nor `<parent>`) whose mangled name is neither a function of the runtime
/// nor async ends with the call of `Class_method` into `r`, with one
/// argument per argument written.
pub open spec fn static_call_tail(before: LowerBuilder, after: LowerBuilder, e: Expr, r: Value) -> bool {
    match e {
        Expr::StaticCall { class, method, args, .. } => {
            let f = mangle_spec(class@, method@);
            class@ != "<parent>"@ && class@ != "<self>"@ && runtime_builtin_spec(f) is None
                && !before.async_funcs@.contains(f)
                ==> (last_inst(after.func) matches crate::ir::InstV::Call { dest, func, args: a, ret_ty }
                    && dest == Some(r) && func == f && a.len() == args@.len() && ret_ty == IrType::Ptr)
        },
        _ => true,
    }
}

/// Lowering the argument `arg` from `s` gave the value `v` and left `t`:
/// the argument itself lowers from `s` into some `mid` with result `raw`,
/// and `v` is `raw` or, made by one call right after it, its box.
pub open spec fn arg_lowered(s: LowerBuilder, t: LowerBuilder, arg: Expr, v: Value) -> bool {
    exists|mid: LowerBuilder, raw: Value| #[trigger] expr_lowering_shape(s, mid, raw, arg) && extends(s.func, mid.func)
        && s.func.wf() && mid.func.wf() && {
        ||| v == raw && t.func.code() == mid.func.code() && t.func.name == mid.func.name
            && t.func.ret_ty == mid.func.ret_ty
        ||| v == Value(mid.func.next_value) && exists|f: Seq<char>| #[trigger] IrFunction::appended(&mid.func, &t.func,
            seq![InstV::Call { dest: Some(v), func: f, args: seq![raw], ret_ty: IrType::Ptr }])
    }
}

/// `vals` are the values of `args`, lowered one after the other, the first
/// from a builder whose function is `start`, each next one from where the
/// one before left off; the code of all of them stands in `end`.
pub open spec fn args_lowered_in_order(start: IrFunction, states: Seq<LowerBuilder>, args: Seq<Expr>, vals: Seq<Value>,
    end: IrFunction) -> bool {
    &&& states.len() == args.len() + 1
    &&& vals.len() == args.len()
    &&& states[0].func == start
    &&& extends(states[args.len() as int].func, end)
    &&& forall|i: int| 0 <= i < args.len() ==> #[trigger] arg_lowered(states[i], states[i + 1], args[i], vals[i])
}

/// The class a static call names: for `parent::`, the parent of the class
/// being lowered (empty when there is none); otherwise the class written.
pub open spec fn static_call_class(before: LowerBuilder, class: Seq<char>) -> Seq<char> {
    if class == "<parent>"@ {
        match before.parent_class {
            Some(p) => p@,
            None => Seq::empty(),
        }
    } else {
        class
    }
}

/// For a static call (not through `self::`) of a method that is neither a
/// function of the runtime nor async, the call ends the code and its
/// arguments are the values of the arguments written, in the order they
/// are written; for `parent::` they may be preceded by one more value, the
/// object itself, read from the variable `self` after the arguments.
pub open spec fn static_args_in_order(before: LowerBuilder, after: LowerBuilder, e: Expr) -> bool {
    match e {
        Expr::StaticCall { class, method, args, .. } => {
            let f = mangle_spec(static_call_class(before, class@), method@);
            let a = last_inst(after.func)->Call_args;
            class@ != "<self>"@ && runtime_builtin_spec(f) is None && !before.async_funcs@.contains(f)
                ==> last_inst(after.func) is Call && exists|states: Seq<LowerBuilder>, k: int|
                    #[trigger] args_lowered_in_order(before.func, states, args@, a.skip(k), after.func)
                    && (k == 0 || (k == 1 && class@ == "<parent>"@)) && a.len() == args@.len() + k
                    && (k == 1 ==> exists|sb: LowerBuilder, sa: LowerBuilder| #[trigger] var_read(sb, sa, "self"@, a[0])
                        && LowerBuilder::has_var(&sb, "self"@) && sb.func == states[args@.len() as int].func
                        && extends(sa.func, after.func))
        },
        _ => true,
    }
}

/// Some instruction of `f` sets `v` to the integer constant `n`.
pub open spec fn sets_int(f: IrFunction, v: Value, n: i64) -> bool {
    exists|b: int, j: int| 0 <= b < f.code().len() && 0 <= j < f.code()[b].len()
        && #[trigger] f.code()[b][j] == (InstV::ConstInt { dest: v, value: n })
}

/// `v` holds the integer `n` in `f`: it is set to that constant, or to
/// the box of a value set to it.
pub open spec fn holds_int(f: IrFunction, v: Value, n: i64) -> bool {
    ||| sets_int(f, v, n)
    ||| exists|b: int, j: int| 0 <= b < f.code().len() && 0 <= j < f.code()[b].len()
        && (#[trigger] f.code()[b][j]) is Call && f.code()[b][j]->Call_dest == Some(v)
        && f.code()[b][j]->Call_args.len() == 1 && f.code()[b][j]->Call_ret_ty == IrType::Ptr
        && sets_int(f, f.code()[b][j]->Call_args[0], n)
}

/// An instruction at `(b, j)` of `a` stays there in every function that
/// extends `a`.
proof fn lemma_extends_keeps_inst(a: IrFunction, c: IrFunction, b: int, j: int)
    requires
        extends(a, c),
        0 <= b < a.code().len(),
        0 <= j < a.code()[b].len(),
    ensures
        0 <= b < c.code().len(),
        0 <= j < c.code()[b].len(),
        c.code()[b][j] == a.code()[b][j],
{
}

/// Each builder of a chain of lowered arguments is extended by the end.
proof fn lemma_chain_extends(states: Seq<LowerBuilder>, args: Seq<Expr>, vals: Seq<Value>, start: IrFunction,
    end: IrFunction, i: int)
    requires
        args_lowered_in_order(start, states, args, vals, end),
        0 <= i <= args.len(),
        forall|k: int| 0 <= k < args.len() ==> #[trigger] extends(states[k].func, states[k + 1].func),
    ensures
        extends(states[i].func, end),
    decreases args.len() - i,
{
    if i < args.len() {
        lemma_chain_extends(states, args, vals, start, end, i + 1);
        lemma_extends_trans(states[i].func, states[i + 1].func, end);
    }
}

/// Law: a static call `Class::m(n0, n1, ...)` on a named class, with
/// integer literals as arguments, passes the constant `n_i` (or its box)
/// as its `i`-th argument, for every `i`: the arguments keep the order in
/// which they are written.
pub proof fn law_static_call_passes_literals_in_order(before: LowerBuilder, after: LowerBuilder, e: Expr,
    lits: Seq<i64>)
    requires
        before.wf(),
        e matches Expr::StaticCall { class, method, args, .. } && {
            let f = mangle_spec(class@, method@);
            &&& class@ != "<parent>"@ && class@ != "<self>"@
            &&& runtime_builtin_spec(f) is None && !before.async_funcs@.contains(f)
            &&& args@.len() == lits.len()
            &&& forall|i: int| 0 <= i < lits.len() ==> ((#[trigger] args@[i]) matches Expr::Literal(Literal::Int(n), _)
                && n == lits[i])
        },
        static_args_in_order(before, after, e),
    ensures
        last_inst(after.func)->Call_args.len() == lits.len(),
        forall|i: int| 0 <= i < lits.len() ==> #[trigger] holds_int(after.func,
            last_inst(after.func)->Call_args[i], lits[i]),
{
    reveal(expr_lowering_shape);
    let args = e->StaticCall_args@;
    let call_args = last_inst(after.func)->Call_args;
    let (states, k0) = choose|states: Seq<LowerBuilder>, k: int| #[trigger] args_lowered_in_order(before.func, states,
        args, call_args.skip(k), after.func) && (k == 0 || (k == 1 && e->StaticCall_class@ == "<parent>"@))
        && call_args.len() == args.len() + k;
    assert(k0 == 0);
    assert(call_args.skip(0) =~= call_args);
    let a = call_args;
    assert forall|k: int| 0 <= k < args.len() implies #[trigger] extends(states[k].func, states[k + 1].func) by {
        assert(arg_lowered(states[k], states[k + 1], args[k], a[k]));
        let (mid, raw) = choose|mid: LowerBuilder, raw: Value| #[trigger] expr_lowering_shape(states[k], mid, raw,
            args[k]) && extends(states[k].func, mid.func) && states[k].func.wf() && mid.func.wf() && {
            ||| a[k] == raw && states[k + 1].func.code() == mid.func.code() && states[k + 1].func.name == mid.func.name
                && states[k + 1].func.ret_ty == mid.func.ret_ty
            ||| a[k] == Value(mid.func.next_value) && exists|f: Seq<char>| #[trigger] IrFunction::appended(&mid.func,
                &states[k + 1].func, seq![InstV::Call { dest: Some(a[k]), func: f, args: seq![raw], ret_ty: IrType::Ptr }])
        };
        assert(extends(mid.func, states[k + 1].func));
        lemma_extends_trans(states[k].func, mid.func, states[k + 1].func);
    }
    assert forall|i: int| 0 <= i < lits.len() implies #[trigger] holds_int(after.func, a[i], lits[i]) by {
        lemma_chain_extends(states, args, a, before.func, after.func, i + 1);
        assert(arg_lowered(states[i], states[i + 1], args[i], a[i]));
        let (mid, raw) = choose|mid: LowerBuilder, raw: Value| #[trigger] expr_lowering_shape(states[i], mid, raw,
            args[i]) && extends(states[i].func, mid.func) && states[i].func.wf() && mid.func.wf() && {
            ||| a[i] == raw && states[i + 1].func.code() == mid.func.code() && states[i + 1].func.name == mid.func.name
                && states[i + 1].func.ret_ty == mid.func.ret_ty
            ||| a[i] == Value(mid.func.next_value) && exists|f: Seq<char>| #[trigger] IrFunction::appended(&mid.func,
                &states[i + 1].func, seq![InstV::Call { dest: Some(a[i]), func: f, args: seq![raw], ret_ty: IrType::Ptr }])
        };
        let s0 = states[i];
        let idx = choose|idx: usize| IrFunction::appended(&s0.func, &mid.func,
            seq![crate::literals::literal_inst(args[i]->Literal_0, raw, idx)]);
        assert(crate::literals::literal_inst(args[i]->Literal_0, raw, idx) == (InstV::ConstInt { dest: raw, value: lits[i] }));
        let cb = s0.func.current as int;
        let cj = s0.func.code()[cb].len() as int;
        assert(mid.func.code()[cb][cj] == (InstV::ConstInt { dest: raw, value: lits[i] }));
        assert(extends(mid.func, states[i + 1].func));
        lemma_extends_trans(mid.func, states[i + 1].func, after.func);
        lemma_extends_keeps_inst(mid.func, after.func, cb, cj);
        assert(sets_int(after.func, raw, lits[i]));
        if a[i] != raw {
            let g = choose|f: Seq<char>| #[trigger] IrFunction::appended(&mid.func, &states[i + 1].func,
                seq![InstV::Call { dest: Some(a[i]), func: f, args: seq![raw], ret_ty: IrType::Ptr }]);
            let t = states[i + 1].func;
            let mb = mid.func.current as int;
            let mj = mid.func.code()[mb].len() as int;
            assert(t.code()[mb][mj] == (InstV::Call { dest: Some(a[i]), func: g, args: seq![raw], ret_ty: IrType::Ptr }));
            lemma_extends_keeps_inst(t, after.func, mb, mj);
        }
    }
}

/// `Class::NAME`: an inlined class constant; the platform constants
/// `System::OS`/`System::ARCH`; a static method used as a value (a fat
/// pointer to its wrapper); otherwise the mangled global's name.
fn lower_static_const(builder: &mut LowerBuilder, class: &str, name: &str) -> (r: Value)
    requires
        old(builder).wf(),
    ensures
        LowerBuilder::kept(old(builder), final(builder)),
        r == Value(old(builder).func.next_value),
{
    let cls = if str_eq(class, "<parent>") {
        match &builder.parent_class {
            Some(p) => p.clone(),
            None => String::new(),
        }
    } else if str_eq(class, "<self>") {
        match &builder.current_class {
            Some(c) => c.clone(),
            None => String::new(),
        }
    } else {
        class.to_owned()
    };
    let key = concat3(cls.as_str(), "__", name);
    let dest = builder.new_value();
    let lit = match builder.module.class_consts.get(key.as_str()) {
        Some(entry) => Some(crate::astcopy::copy_literal(&entry.1)),
        None => None,
    };
    match lit {
        Some(l) => {
            match l {
                Literal::Int(n) => builder.emit(Inst::ConstInt { dest, value: n }),
                Literal::Float(b) => builder.emit(Inst::ConstFloat { dest, bits: b }),
                Literal::Bool(b) => builder.emit(Inst::ConstBool { dest, value: b }),
                Literal::String(s) => {
                    let idx = builder.module.intern_string(s.as_str());
                    builder.emit(Inst::ConstStr { dest, idx });
                },
                Literal::Null => builder.emit(Inst::ConstInt { dest, value: 0 }),
            }
        },
        None => {
            if str_eq(cls.as_str(), "System") && (str_eq(name, "OS") || str_eq(name, "ARCH")) {
                let f = if str_eq(name, "OS") { "__system_os" } else { "__system_arch" };
                emit_call(builder, Some(dest), f.to_owned(), Vec::new(), IrType::Ptr);
            } else {
                let method_key = mangle(cls.as_str(), name);
                if builder.fn_param_types.contains_key(method_key.as_str()) {
                    emit_fat_ptr(builder, dest, concat("__fn_wrap_", method_key.as_str()), None);
                } else {
                    let idx = builder.module.intern_string(key.as_str());
                    builder.emit(Inst::ConstStr { dest, idx });
                }
            }
        },
    }
    dest
}

/// `use Class(args)`: allocation, then the constructor `Class_init` called
/// with the object first and the arguments boxed for `mixed` parameters.
fn lower_new(builder: &mut LowerBuilder, expr: &Expr) -> (r: Value)
    requires
        old(builder).wf(),
        *expr is New,
    ensures
        LowerBuilder::kept(old(builder), final(builder)),
        new_shape(*old(builder), *final(builder), r, expr->New_class@),
    decreases old(builder).fda_len(), *expr, 1nat,
{
    let (class, args) = match expr {
        Expr::New { class, args, .. } => (class, args),
        _ => {
            proof { assert(false); }
            return Value(0);
        },
    };
    proof {
        assert(decreases_to!(*expr => *args));
    }
    let dest = builder.new_value();
    builder.emit(Inst::Alloc { dest, class: class.clone() });
    let ghost b1 = *builder;
    let ghost cur = old(builder).func.current as int;
    let ghost len0 = old(builder).func.code()[cur].len() as int;
    assert(b1.func.code()[cur][len0] == InstV::Alloc { dest, class: class@ });
    proof {
        lemma_extends_refl(b1.func);
    }
    let ctor_params: Vec<IrType> = match builder.module.ctor_param_types.get(class.as_str()) {
        Some(p) => p.clone(),
        None => Vec::new(),
    };
    let mut ctor_args: Vec<Value> = Vec::new();
    ctor_args.push(dest);
    let mut i: usize = 0;
    while i < args.len()
        invariant
            LowerBuilder::kept(old(builder), builder),
            extends(b1.func, builder.func),
            b1.func.code()[cur][len0] == (InstV::Alloc { dest, class: class@ }),
            0 <= cur < b1.func.code().len(),
            0 <= len0 < b1.func.code()[cur].len(),
            ctor_args@.len() >= 1,
            ctor_args@[0] == dest,
            decreases_to!(*expr => *args),
        decreases args@.len() - i,
    {
        let ghost bi = *builder;
        proof {
            assert(decreases_to!(*args => args@));
            assert(decreases_to!(args@ => args@[i as int]));
        }
        let arg_ty = expr_ir_type(builder, &args[i]);
        let val = lower_expr(builder, &args[i]);
        let param_ty = if i < ctor_params.len() { Some(ctor_params[i]) } else { None };
        let boxed = box_arg_for_mixed_param(builder, param_ty, &arg_ty, val);
        ctor_args.push(boxed);
        proof {
            lemma_extends_trans(b1.func, bi.func, builder.func);
        }
        i = i + 1;
    }
    let ghost bl = *builder;
    emit_call(builder, None, concat(class.as_str(), "_init"), ctor_args, IrType::Void);
    proof {
        lemma_extends_trans(b1.func, bl.func, builder.func);
    }
    dest
}

/// `use Class(args)`: the object is allocated into `r` by the first
/// instruction emitted, and the code ends with the call of `Class_init`
/// with the object as first argument.
pub open spec fn new_shape(before: LowerBuilder, after: LowerBuilder, r: Value, class: Seq<char>) -> bool {
    &&& r == Value(before.func.next_value)
    &&& first_emitted(before, after) == (InstV::Alloc { dest: r, class })
    &&& last_inst(after.func) matches InstV::Call { dest, func, args, ret_ty }
        && dest is None && func == class + "_init"@ && args.len() >= 1 && args[0] == r && ret_ty == IrType::Void
}

/// True for the six comparison operators.
pub open spec fn is_comparison(op: BinOp) -> bool {
    op == BinOp::Equal || op == BinOp::NotEqual || op == BinOp::Smaller || op == BinOp::Greater
        || op == BinOp::SmallerOrEqual || op == BinOp::GreaterOrEqual
}

/// Runtime comparison of two `mixed` values for comparison operator `op`.
pub open spec fn strict_cmp_spec(op: BinOp) -> Seq<char> {
    match op {
        BinOp::Equal => "__cmp_eq_strict"@,
        BinOp::NotEqual => "__cmp_ne_strict"@,
        BinOp::Smaller => "__cmp_lt_strict"@,
        BinOp::Greater => "__cmp_gt_strict"@,
        BinOp::SmallerOrEqual => "__cmp_le_strict"@,
        _ => "__cmp_ge_strict"@,
    }
}

/// Runtime arithmetic on `mixed` values for `+`, `-`, `*`, `/`.
pub open spec fn dyn_arith_spec(op: BinOp) -> Seq<char> {
    match op {
        BinOp::Add => "__dyn_add"@,
        BinOp::Sub => "__dyn_sub"@,
        BinOp::Mul => "__dyn_mul"@,
        _ => "__dyn_div"@,
    }
}

/// Type in which two scalar operands are compared: F64 when both are
/// floats or one is a float and the other an integer, I64 otherwise.
pub open spec fn cmp_type(lt: IrType, rt: IrType) -> IrType {
    if (lt == IrType::I64 && rt == IrType::F64) || (lt == IrType::F64 && rt == IrType::I64)
        || (lt == IrType::F64 && rt == IrType::F64) {
        IrType::F64
    } else {
        IrType::I64
    }
}

/// Two instructions appended one after the other end the current block in
/// that order.
proof fn lemma_conversion_then_test(a: crate::ir::IrFunction, b: crate::ir::IrFunction, c: crate::ir::IrFunction, first: InstV, second: InstV)
    requires
        a.wf(),
        crate::ir::IrFunction::appended(&a, &b, seq![first]),
        crate::ir::IrFunction::appended(&b, &c, seq![second]),
    ensures
        ({
            let blk = c.code()[c.current as int];
            &&& blk.len() >= 2
            &&& blk[blk.len() - 2] == first
            &&& blk[blk.len() - 1] == second
        }),
{
    let k = a.current as int;
    assert(c.code()[k] == a.code()[k] + seq![first] + seq![second]);
}

/// An instruction appended alone ends the current block.
proof fn lemma_last_appended(a: crate::ir::IrFunction, c: crate::ir::IrFunction, x: InstV)
    requires
        a.wf(),
        crate::ir::IrFunction::appended(&a, &c, seq![x]),
    ensures
        c.code()[c.current as int] == a.code()[a.current as int].push(x),
        last_inst(c) == x,
{
    assert(c.code()[c.current as int] =~= a.code()[a.current as int].push(x));
}

/// The two operands a native binary instruction reads, left then right
/// (comparisons, arithmetic, `and`, `or`).
pub open spec fn read_operands(i: InstV) -> (Value, Value) {
    match i {
        InstV::Add { lhs, rhs, .. } | InstV::Sub { lhs, rhs, .. } | InstV::Mul { lhs, rhs, .. }
            | InstV::Div { lhs, rhs, .. } | InstV::Mod { lhs, rhs, .. } | InstV::And { lhs, rhs, .. }
            | InstV::Or { lhs, rhs, .. } => (lhs, rhs),
        _ => compared_values(i),
    }
}

/// A binary operator that the lowering turns into one native instruction
/// when neither side is `mixed`.
pub open spec fn is_native_binary(op: BinOp) -> bool {
    is_comparison(op) || op == BinOp::Add || op == BinOp::Sub || op == BinOp::Mul || op == BinOp::Div
        || op == BinOp::Mod || op == BinOp::And || op == BinOp::Or
}

/// `lv` and `rv` are what lowering `left` from `before`, then `right` right
/// after it, gives.
pub open spec fn operands_lowered(before: LowerBuilder, left: Expr, right: Expr, lv: Value, rv: Value) -> bool {
    exists|mid: LowerBuilder, mid2: LowerBuilder|
        #![trigger expr_lowering_shape(before, mid, lv, left), expr_lowering_shape(mid, mid2, rv, right)]
        expr_lowering_shape(before, mid, lv, left) && expr_lowering_shape(mid, mid2, rv, right)
}

/// The native instruction that ends `after` for `left op right` (neither
/// side `mixed`) reads the value of the left operand first and that of the
/// right operand second; for an integer compared with a float, the integer
/// side is read through its conversion, whose argument is that operand's
/// value.
pub open spec fn binary_operands_read(before: LowerBuilder, after: LowerBuilder, e: Expr) -> bool {
    match e {
        Expr::Binary { op, left, right, .. } => {
            let lt = expr_ir_type_spec(before, *left);
            let rt = expr_ir_type_spec(before, *right);
            let b = after.func.code()[after.func.current as int];
            let conv = b[b.len() - 2];
            let (a, c) = read_operands(last_inst(after.func));
            is_native_binary(op) && lt != IrType::Ptr && rt != IrType::Ptr ==>
                exists|lv: Value, rv: Value| #[trigger] operands_lowered(before, *left, *right, lv, rv) && {
                    if is_comparison(op) && lt == IrType::I64 && rt == IrType::F64 {
                        conv->Call_args == seq![lv] && c == rv
                    } else if is_comparison(op) && lt == IrType::F64 && rt == IrType::I64 {
                        a == lv && conv->Call_args == seq![rv]
                    } else {
                        a == lv && c == rv
                    }
                }
        },
        _ => true,
    }
}

/// Law: in `a op b` over two integer literals, lowered from `before` into
/// `after` as its contract says, the native instruction reads the constant
/// of `a` (the first value numbered) as its left operand, and as its right
/// operand the value holding the constant of `b`, created after it.
pub proof fn law_literal_operands_in_order(before: LowerBuilder, after: LowerBuilder, op: BinOp, a: i64, b: i64,
    sa: crate::ast::Span, sb: crate::ast::Span, s: crate::ast::Span)
    requires
        is_native_binary(op),
        binary_operands_read(before, after, Expr::Binary {
            op,
            left: Box::new(Expr::Literal(crate::ast::Literal::Int(a), sa)),
            right: Box::new(Expr::Literal(crate::ast::Literal::Int(b), sb)),
            span: s,
        }),
    ensures
        read_operands(last_inst(after.func)).0 == Value(before.func.next_value),
        exists|mid: LowerBuilder| #![trigger mid.func.next_value]
            read_operands(last_inst(after.func)).1 == Value(mid.func.next_value)
            && crate::ir::IrFunction::appended(&before.func, &mid.func,
                seq![InstV::ConstInt { dest: Value(before.func.next_value), value: a }]),
{
    reveal(expr_lowering_shape);
    let left = Expr::Literal(crate::ast::Literal::Int(a), sa);
    let right = Expr::Literal(crate::ast::Literal::Int(b), sb);
    assert(expr_ir_type_spec(before, left) == IrType::I64);
    assert(expr_ir_type_spec(before, right) == IrType::I64);
    let (lv, rv) = choose|lv: Value, rv: Value| #[trigger] operands_lowered(before, left, right, lv, rv) && {
        let (x, y) = read_operands(last_inst(after.func));
        x == lv && y == rv
    };
    let (mid, mid2) = choose|mid: LowerBuilder, mid2: LowerBuilder|
        #![trigger expr_lowering_shape(before, mid, lv, left), expr_lowering_shape(mid, mid2, rv, right)]
        expr_lowering_shape(before, mid, lv, left) && expr_lowering_shape(mid, mid2, rv, right);
    let ia = choose|idx: usize| crate::ir::IrFunction::appended(&before.func, &mid.func,
        seq![crate::literals::literal_inst(crate::ast::Literal::Int(a), lv, idx)]);
    assert(crate::literals::literal_inst(crate::ast::Literal::Int(a), lv, ia) == (InstV::ConstInt { dest: lv, value: a }));
}

/// The two operands a comparison instruction reads, left then right.
pub open spec fn compared_values(i: InstV) -> (Value, Value) {
    match i {
        InstV::CmpEq { lhs, rhs, .. } | InstV::CmpNe { lhs, rhs, .. } | InstV::CmpLt { lhs, rhs, .. }
            | InstV::CmpGt { lhs, rhs, .. } | InstV::CmpLe { lhs, rhs, .. } | InstV::CmpGe { lhs, rhs, .. } => (lhs, rhs),
        _ => (Value(0), Value(0)),
    }
}

/// A comparison between an integer and a float (in either order), last in
/// `f`, reads on the integer side the result of `__int_to_float`, called
/// just before it on one value.
pub open spec fn int_side_converted(lt: IrType, rt: IrType, f: crate::ir::IrFunction) -> bool {
    let b = f.code()[f.current as int];
    let conv = b[b.len() - 2];
    let (lhs, rhs) = compared_values(last_inst(f));
    &&& (lt == IrType::I64 && rt == IrType::F64) || (lt == IrType::F64 && rt == IrType::I64) ==> {
        &&& b.len() >= 2
        &&& conv is Call && conv->Call_func == "__int_to_float"@ && conv->Call_args.len() == 1
        &&& conv->Call_ret_ty == IrType::F64
        &&& conv->Call_dest == Some(if lt == IrType::I64 { lhs } else { rhs })
    }
}

/// `last` is the native comparison `op` of type `t` into `r`.
pub open spec fn cmp_tail(op: BinOp, last: InstV, r: Value, t: IrType) -> bool {
    match op {
        BinOp::Equal => last matches InstV::CmpEq { dest, ty, .. } && dest == r && ty == t,
        BinOp::NotEqual => last matches InstV::CmpNe { dest, ty, .. } && dest == r && ty == t,
        BinOp::Smaller => last matches InstV::CmpLt { dest, ty, .. } && dest == r && ty == t,
        BinOp::Greater => last matches InstV::CmpGt { dest, ty, .. } && dest == r && ty == t,
        BinOp::SmallerOrEqual => last matches InstV::CmpLe { dest, ty, .. } && dest == r && ty == t,
        _ => last matches InstV::CmpGe { dest, ty, .. } && dest == r && ty == t,
    }
}

/// `last` is the native arithmetic or logical operation `op` (of type `t`)
/// into `r`; an operator with no native instruction gives a `Nop`.
pub open spec fn arith_tail(op: BinOp, last: InstV, r: Value, t: IrType) -> bool {
    match op {
        BinOp::Add => last matches InstV::Add { dest, ty, .. } && dest == r && ty == t,
        BinOp::Sub => last matches InstV::Sub { dest, ty, .. } && dest == r && ty == t,
        BinOp::Mul => last matches InstV::Mul { dest, ty, .. } && dest == r && ty == t,
        BinOp::Div => last matches InstV::Div { dest, ty, .. } && dest == r && ty == t,
        BinOp::Mod => last matches InstV::Mod { dest, ty, .. } && dest == r && ty == t,
        BinOp::And => last matches InstV::And { dest, .. } && dest == r,
        BinOp::Or => last matches InstV::Or { dest, .. } && dest == r,
        _ => last == InstV::Nop,
    }
}

/// The instruction that ends `f` after the lowering of `a op b` into `r`,
/// given the static types `lt` and `rt` of the operands. With a pointer
/// (`mixed`) side, `+ - * /` call the runtime's dynamic arithmetic,
/// comparisons its strict comparisons, and `%` is an I64 `Mod` of the
/// unboxed operands. Otherwise comparisons are native in `cmp_type`, an
/// integer compared with a float being converted first
/// (`int_side_converted`), and the other operators native in F64 when a
/// side is a float, else I64.
pub open spec fn binary_tail(op: BinOp, lt: IrType, rt: IrType, f: crate::ir::IrFunction, r: Value) -> bool {
    let last = last_inst(f);
    let ptr_side = lt == IrType::Ptr || rt == IrType::Ptr;
    if ptr_side && (op == BinOp::Add || op == BinOp::Sub || op == BinOp::Mul || op == BinOp::Div) {
        last matches InstV::Call { dest, func, ret_ty, .. }
            && dest == Some(r) && func == dyn_arith_spec(op) && ret_ty == IrType::Ptr
    } else if is_comparison(op) {
        if ptr_side {
            last matches InstV::Call { dest, func, ret_ty, .. }
                && dest == Some(r) && func == strict_cmp_spec(op) && ret_ty == IrType::Bool
        } else {
            &&& cmp_tail(op, last, r, cmp_type(lt, rt))
            &&& int_side_converted(lt, rt, f)
        }
    } else if ptr_side && op == BinOp::Mod {
        last matches InstV::Mod { dest, ty, .. } && dest == r && ty == IrType::I64
    } else {
        arith_tail(op, last, r, if lt == IrType::F64 || rt == IrType::F64 { IrType::F64 } else { IrType::I64 })
    }
}

/// Runtime comparison of two `mixed` values.
fn strict_cmp_name(op: BinOp) -> (r: &'static str)
    ensures
        r@ == strict_cmp_spec(op),
{
    match op {
        BinOp::Equal => "__cmp_eq_strict",
        BinOp::NotEqual => "__cmp_ne_strict",
        BinOp::Smaller => "__cmp_lt_strict",
        BinOp::Greater => "__cmp_gt_strict",
        BinOp::SmallerOrEqual => "__cmp_le_strict",
        _ => "__cmp_ge_strict",
    }
}

/// A binary operation: `+`, `-`, `*`, `/` with a pointer (`mixed`) operand
/// are decided at run time (`__dyn_*`, scalar operands boxed first);
/// comparisons with a pointer side use the strict runtime comparisons,
/// otherwise compare in F64 when one side is a float (the integer side
/// converted) and in I64 else; `%` with a pointer side unboxes it to an
/// integer; everything else is a native instruction of the widest operand
/// type.
#[verifier::spinoff_prover]
#[verifier::rlimit(50)]
fn lower_binary(builder: &mut LowerBuilder, expr: &Expr) -> (r: Value)
    requires
        old(builder).wf(),
        *expr is Binary,
    ensures
        LowerBuilder::kept(old(builder), final(builder)),
        binary_tail(expr->Binary_op, expr_ir_type_spec(*old(builder), *expr->Binary_left),
            expr_ir_type_spec(*old(builder), *expr->Binary_right), final(builder).func, r),
        binary_operands_read(*old(builder), *final(builder), *expr),
    decreases old(builder).fda_len(), *expr, 1nat,
{
    let (op, left, right) = match expr {
        Expr::Binary { op, left, right, .. } => (*op, left, right),
        _ => {
            proof { assert(false); }
            return Value(0);
        },
    };
    let left_ty = expr_ir_type(builder, left);
    let right_ty = expr_ir_type(builder, right);
    let ptr_side = left_ty == IrType::Ptr || right_ty == IrType::Ptr;
    if op == BinOp::Add && ptr_side {
        let lv_raw = lower_expr(builder, left);
        let rv_raw = lower_expr(builder, right);
        let lv = box_for_dyn_arith(builder, &left_ty, lv_raw);
        let rv = box_for_dyn_arith(builder, &right_ty, rv_raw);
        return call_value(builder, "__dyn_add", vec2(lv, rv), IrType::Ptr);
    }
    if op == BinOp::Equal || op == BinOp::NotEqual || op == BinOp::Smaller || op == BinOp::Greater
        || op == BinOp::SmallerOrEqual || op == BinOp::GreaterOrEqual {
        let lv_raw = lower_expr(builder, left);
        let ghost mid = *builder;
        let rv_raw = lower_expr(builder, right);
        let ghost mid2 = *builder;
        proof {
            assert(operands_lowered(*old(builder), **left, **right, lv_raw, rv_raw));
        }
        let dest = builder.new_value();
        if ptr_side {
            let lv = box_for_dyn_arith(builder, &left_ty, lv_raw);
            let rv = box_for_dyn_arith(builder, &right_ty, rv_raw);
            emit_call(builder, Some(dest), strict_cmp_name(op).to_owned(), vec2(lv, rv), IrType::Bool);
            return dest;
        }
        let ghost before_conv = builder.func;
        let (lv, rv, ty) = if left_ty == IrType::I64 && right_ty == IrType::F64 {
            let conv = call_value(builder, "__int_to_float", vec1(lv_raw), IrType::F64);
            (conv, rv_raw, IrType::F64)
        } else if left_ty == IrType::F64 && right_ty == IrType::I64 {
            let conv = call_value(builder, "__int_to_float", vec1(rv_raw), IrType::F64);
            (lv_raw, conv, IrType::F64)
        } else if left_ty == IrType::F64 && right_ty == IrType::F64 {
            (lv_raw, rv_raw, IrType::F64)
        } else {
            (lv_raw, rv_raw, IrType::I64)
        };
        let inst = match op {
            BinOp::Equal => Inst::CmpEq { dest, lhs: lv, rhs: rv, ty },
            BinOp::NotEqual => Inst::CmpNe { dest, lhs: lv, rhs: rv, ty },
            BinOp::Smaller => Inst::CmpLt { dest, lhs: lv, rhs: rv, ty },
            BinOp::Greater => Inst::CmpGt { dest, lhs: lv, rhs: rv, ty },
            BinOp::SmallerOrEqual => Inst::CmpLe { dest, lhs: lv, rhs: rv, ty },
            _ => Inst::CmpGe { dest, lhs: lv, rhs: rv, ty },
        };
        let ghost before_cmp = builder.func;
        builder.emit(inst);
        proof {
            assert(compared_values(inst@) == (lv, rv));
            assert(read_operands(inst@) == (lv, rv));
            lemma_last_appended(before_cmp, builder.func, inst@);
            if left_ty == IrType::I64 && right_ty == IrType::F64 {
                lemma_conversion_then_test(before_conv, before_cmp, builder.func,
                    InstV::Call { dest: Some(lv), func: "__int_to_float"@, args: seq![lv_raw], ret_ty: IrType::F64 }, inst@);
            } else if left_ty == IrType::F64 && right_ty == IrType::I64 {
                lemma_conversion_then_test(before_conv, before_cmp, builder.func,
                    InstV::Call { dest: Some(rv), func: "__int_to_float"@, args: seq![rv_raw], ret_ty: IrType::F64 }, inst@);
            }
        }
        return dest;
    }
    if (op == BinOp::Sub || op == BinOp::Mul || op == BinOp::Div) && ptr_side {
        let lv_raw = lower_expr(builder, left);
        let rv_raw = lower_expr(builder, right);
        let lv = box_for_dyn_arith(builder, &left_ty, lv_raw);
        let rv = box_for_dyn_arith(builder, &right_ty, rv_raw);
        let f = if op == BinOp::Sub { "__dyn_sub" } else if op == BinOp::Mul { "__dyn_mul" } else { "__dyn_div" };
        return call_value(builder, f, vec2(lv, rv), IrType::Ptr);
    }
    if op == BinOp::Mod && ptr_side {
        let lv_raw = lower_expr(builder, left);
        let rv_raw = lower_expr(builder, right);
        let lv = if left_ty == IrType::Ptr {
            unbox_mixed_operand(builder, "__mixed_to_int", &IrType::I64, lv_raw)
        } else {
            lv_raw
        };
        let rv = if right_ty == IrType::Ptr {
            unbox_mixed_operand(builder, "__mixed_to_int", &IrType::I64, rv_raw)
        } else {
            rv_raw
        };
        let dest = builder.new_value();
        builder.emit(Inst::Mod { dest, lhs: lv, rhs: rv, ty: IrType::I64 });
        return dest;
    }
    let ty = if left_ty == IrType::F64 || right_ty == IrType::F64 { IrType::F64 } else { IrType::I64 };
    let lv = lower_expr(builder, left);
    let ghost mid = *builder;
    let rv = lower_expr(builder, right);
    let ghost mid2 = *builder;
    proof {
        assert(operands_lowered(*old(builder), **left, **right, lv, rv));
    }
    let dest = builder.new_value();
    let inst = match op {
        BinOp::Add => Inst::Add { dest, lhs: lv, rhs: rv, ty },
        BinOp::Sub => Inst::Sub { dest, lhs: lv, rhs: rv, ty },
        BinOp::Mul => Inst::Mul { dest, lhs: lv, rhs: rv, ty },
        BinOp::Div => Inst::Div { dest, lhs: lv, rhs: rv, ty },
        BinOp::Mod => Inst::Mod { dest, lhs: lv, rhs: rv, ty },
        BinOp::And => Inst::And { dest, lhs: lv, rhs: rv },
        BinOp::Or => Inst::Or { dest, lhs: lv, rhs: rv },
        _ => Inst::Nop,
    };
    let ghost before_arith = builder.func;
    builder.emit(inst);
    proof {
        lemma_last_appended(before_arith, builder.func, inst@);
    }
    dest
}

/// `object[index]`: `__map_get` when the object is a map (a map variable, a
/// map field, or an element of map type at any depth), `__array_get`
/// otherwise.
fn lower_index(builder: &mut LowerBuilder, expr: &Expr) -> (r: Value)
    requires
        old(builder).wf(),
        *expr is Index,
    ensures
        LowerBuilder::kept(old(builder), final(builder)),
        index_tail(*final(builder), *expr->Index_object, r),
    decreases old(builder).fda_len(), *expr, 1nat,
{
    let (object, index) = match expr {
        Expr::Index { object, index, .. } => (object, index),
        _ => {
            proof { assert(false); }
            return Value(0);
        },
    };
    let obj_val = lower_expr(builder, object);
    let idx_val = lower_expr(builder, index);
    let dest = builder.new_value();
    let func = if is_map_target(builder, object) { "__map_get" } else { "__array_get" };
    let ghost mid = *builder;
    emit_call(builder, Some(dest), func.to_owned(), vec2(obj_val, idx_val), IrType::Ptr);
    proof {
        crate::helpers::lemma_map_target_same_tables(mid, *builder, **object);
    }
    dest
}

/// `object[index]` ends with the runtime's map or array read of the two
/// operands into `r`, chosen by `is_map_target_spec` on the tables as they
/// stand when the read is emitted.
pub open spec fn index_tail(after: LowerBuilder, object: Expr, r: Value) -> bool {
    last_inst(after.func) matches InstV::Call { dest, func, args, ret_ty }
        && dest == Some(r) && args.len() == 2 && ret_ty == IrType::Ptr
        && func == (if is_map_target_spec(after, object) { "__map_get"@ } else { "__array_get"@ })
}

/// `match subject { pattern => value, ... }`: a result slot; each arm
/// tests its pattern (literal equality or a runtime type test) and stores
/// its value; the default arm is taken unconditionally; all arms join.
fn lower_match(builder: &mut LowerBuilder, expr: &Expr) -> (r: Value)
    requires
        old(builder).wf(),
        *expr is Match,
    ensures
        LowerBuilder::kept(old(builder), final(builder)),
        match_tail(*old(builder), *final(builder), r),
    decreases old(builder).fda_len(), *expr, 1nat,
{
    let (subject, arms) = match expr {
        Expr::Match { subject, arms, .. } => (subject, arms),
        _ => {
            proof { assert(false); }
            return Value(0);
        },
    };
    proof {
        assert(decreases_to!(*expr => *arms));
    }
    let subj = lower_expr(builder, subject);
    let result_slot = builder.new_value();
    builder.emit(Inst::Alloca { dest: result_slot, ty: IrType::Ptr });
    let merge_bb = builder.new_block();
    let mut i: usize = 0;
    while i < arms.len()
        invariant
            LowerBuilder::kept(old(builder), builder),
            old(builder).func.code().len() <= merge_bb.0 < builder.func.code().len(),
            decreases_to!(*expr => *arms),
        decreases arms@.len() - i,
    {
        proof {
            assert(decreases_to!(*arms => arms@));
            assert(decreases_to!(arms@ => arms@[i as int]));
            assert(decreases_to!(arms@[i as int] => arms@[i as int].body));
        }
        let arm = &arms[i];
        let arm_bb = builder.new_block();
        match &arm.pattern {
            Some(pat) => {
                let test = match pat {
                    MatchPattern::Literal(lit) => {
                        let pat_val = lower_literal(builder, lit);
                        let t = builder.new_value();
                        builder.emit(Inst::CmpEq { dest: t, lhs: subj, rhs: pat_val, ty: IrType::I64 });
                        t
                    },
                    MatchPattern::IsType(ty) => lower_is_check(builder, &subj, ty),
                };
                let next_bb = builder.new_block();
                builder.emit(Inst::Branch { cond: test, then_bb: arm_bb, else_bb: next_bb });
                builder.switch_to(&arm_bb);
                let arm_val = lower_expr(builder, &arm.body);
                builder.emit(Inst::Store { ptr: result_slot, src: arm_val });
                if !builder.is_terminated() {
                    builder.emit(Inst::Jump { target: merge_bb });
                }
                builder.switch_to(&next_bb);
            },
            None => {
                builder.emit(Inst::Jump { target: arm_bb });
                builder.switch_to(&arm_bb);
                let arm_val = lower_expr(builder, &arm.body);
                builder.emit(Inst::Store { ptr: result_slot, src: arm_val });
                if !builder.is_terminated() {
                    builder.emit(Inst::Jump { target: merge_bb });
                }
            },
        }
        i = i + 1;
    }
    if !builder.is_terminated() {
        builder.emit(Inst::Jump { target: merge_bb });
    }
    builder.switch_to(&merge_bb);
    let dest = builder.new_value();
    builder.emit(Inst::Load { dest, ptr: result_slot, ty: IrType::Ptr });
    dest
}

/// A `match` expression: the code ends, in a block it created (where the
/// arms join), with the load of the result slot into `r`.
pub open spec fn match_tail(before: LowerBuilder, after: LowerBuilder, r: Value) -> bool {
    &&& after.func.current >= before.func.code().len()
    &&& last_inst(after.func) matches InstV::Load { dest, ty, .. } && dest == r && ty == IrType::Ptr
}

/// Interns `s` and emits a reference to it.
fn const_str(builder: &mut LowerBuilder, s: &str) -> (r: Value)
    requires
        old(builder).wf(),
    ensures
        LowerBuilder::kept(old(builder), final(builder)),
        r == Value(old(builder).func.next_value),
        last_inst(final(builder).func) matches InstV::ConstStr { dest, .. } && dest == r,
{
    let idx = builder.module.intern_string(s);
    let d = builder.new_value();
    builder.emit(Inst::ConstStr { dest: d, idx });
    d
}

/// A template string: the empty string, then each part converted to a
/// string (arrays formatted, floats, booleans and integers converted) and
/// concatenated.
fn lower_template(builder: &mut LowerBuilder, expr: &Expr) -> (r: Value)
    requires
        old(builder).wf(),
        *expr is Template,
    ensures
        LowerBuilder::kept(old(builder), final(builder)),
        template_tail(*old(builder), *final(builder), r, expr->Template_parts@.len()),
    decreases old(builder).fda_len(), *expr, 1nat,
{
    let parts = match expr {
        Expr::Template { parts, .. } => parts,
        _ => {
            proof { assert(false); }
            return Value(0);
        },
    };
    proof {
        assert(decreases_to!(*expr => *parts));
    }
    let mut acc = const_str(builder, "");
    let mut i: usize = 0;
    while i < parts.len()
        invariant
            LowerBuilder::kept(old(builder), builder),
            i <= parts@.len(),
            i == 0 ==> acc == Value(old(builder).func.next_value)
                && (last_inst(builder.func) matches InstV::ConstStr { dest, .. } && dest == acc),
            i > 0 ==> (last_inst(builder.func) matches InstV::Call { dest, func, args, ret_ty }
                && dest == Some(acc) && func == "__str_concat"@ && args.len() == 2 && ret_ty == IrType::Ptr),
            decreases_to!(*expr => *parts),
        decreases parts@.len() - i,
    {
        proof {
            assert(decreases_to!(*parts => parts@));
            assert(decreases_to!(parts@ => parts@[i as int]));
        }
        let (raw_val, part_ty, is_arr) = match &parts[i] {
            TemplatePartExpr::Literal(s) => (const_str(builder, s.as_str()), IrType::Ptr, false),
            TemplatePartExpr::Expr(e) => {
                let ty = expr_ir_type(builder, e);
                let arr = is_array_expr(builder, e);
                let v = lower_expr(builder, e);
                (v, ty, arr)
            },
        };
        let str_val = if is_arr {
            call_value(builder, "__array_to_str", vec1(raw_val), IrType::Ptr)
        } else {
            match part_ty {
                IrType::F64 => call_value(builder, "__str_from_float", vec1(raw_val), IrType::Ptr),
                IrType::Bool => call_value(builder, "__str_from_bool", vec1(raw_val), IrType::Ptr),
                IrType::I64 => call_value(builder, "__str_from_int", vec1(raw_val), IrType::Ptr),
                _ => raw_val,
            }
        };
        acc = call_value(builder, "__str_concat", vec2(acc, str_val), IrType::Ptr);
        i = i + 1;
    }
    acc
}

/// A template string with `n` parts: with no part, the empty string constant
/// into a fresh `r`; otherwise the code ends with the last concatenation
/// into `r`.
pub open spec fn template_tail(before: LowerBuilder, after: LowerBuilder, r: Value, n: nat) -> bool {
    &&& n == 0 ==> r == Value(before.func.next_value)
        && (last_inst(after.func) matches InstV::ConstStr { dest, .. } && dest == r)
    &&& n > 0 ==> (last_inst(after.func) matches InstV::Call { dest, func, args, ret_ty }
        && dest == Some(r) && func == "__str_concat"@ && args.len() == 2 && ret_ty == IrType::Ptr)
}

/// `resolve task` whose static type is `t`: the code ends with the wait for
/// the task into `r` (an I64), or, for a float or boolean result, with its
/// unboxing into `r`.
pub open spec fn resolve_tail(after: LowerBuilder, r: Value, t: IrType) -> bool {
    last_inst(after.func) matches InstV::Call { dest, func, args, ret_ty } && dest == Some(r) && args.len() == 1
        && (func, ret_ty) == (match t {
            IrType::F64 => ("__unbox_float"@, IrType::F64),
            IrType::Bool => ("__unbox_bool"@, IrType::Bool),
            _ => ("__task_resolve"@, IrType::I64),
        })
}

/// `inner is ty` when the static type of `inner` settles it: the constant
/// answer in a fresh `r` (a float is a float; an integer or a boolean is no
/// float; a scalar is no object, after `inner` is evaluated).
pub open spec fn is_check_tail(before: LowerBuilder, after: LowerBuilder, r: Value, inner: Expr, ty: Type) -> bool {
    let st = expr_ir_type_spec(before, inner);
    match ty {
        Type::Float => {
            &&& st == IrType::F64 ==> r == Value(before.func.next_value) && crate::ir::IrFunction::appended(
                &before.func, &after.func, seq![InstV::ConstBool { dest: r, value: true }])
            &&& (st == IrType::I64 || st == IrType::Bool) ==> r == Value(before.func.next_value)
                && crate::ir::IrFunction::appended(&before.func, &after.func, seq![InstV::ConstBool { dest: r, value: false }])
        },
        Type::Named(_) | Type::Qualified(_) => (st == IrType::I64 || st == IrType::F64 || st == IrType::Bool)
            ==> last_inst(after.func) == (InstV::ConstBool { dest: r, value: false }),
        _ => true,
    }
}

/// `resolve task`: waits for the task, then unboxes a float or boolean
/// result of the task's function.
fn lower_resolve(builder: &mut LowerBuilder, expr: &Expr) -> (r: Value)
    requires
        old(builder).wf(),
        *expr is Resolve,
    ensures
        LowerBuilder::kept(old(builder), final(builder)),
        resolve_tail(*final(builder), r, expr_ir_type_spec(*old(builder), *expr)),
    decreases old(builder).fda_len(), *expr, 1nat,
{
    let inner = match expr {
        Expr::Resolve { expr: inner, .. } => inner,
        _ => {
            proof { assert(false); }
            return Value(0);
        },
    };
    let orig_ty = crate::typeinfer::expr_ir_type(builder, expr);
    let task_ptr = lower_expr(builder, inner);
    let raw = call_value(builder, "__task_resolve", vec1(task_ptr), IrType::I64);
    match orig_ty {
        IrType::F64 => call_value(builder, "__unbox_float", vec1(raw), IrType::F64),
        IrType::Bool => call_value(builder, "__unbox_bool", vec1(raw), IrType::Bool),
        _ => raw,
    }
}

/// `expr is ty`: decided statically when the operand's static type settles
/// it (a float is a float; an integer or boolean never is; a scalar is
/// never an object), otherwise tested at run time.
fn lower_is_check_expr(builder: &mut LowerBuilder, expr: &Expr) -> (r: Value)
    requires
        old(builder).wf(),
        *expr is IsCheck,
    ensures
        LowerBuilder::kept(old(builder), final(builder)),
        is_check_tail(*old(builder), *final(builder), r, *expr->IsCheck_expr, expr->IsCheck_ty),
    decreases old(builder).fda_len(), *expr, 1nat,
{
    let (inner, ty) = match expr {
        Expr::IsCheck { expr: inner, ty, .. } => (inner, ty),
        _ => {
            proof { assert(false); }
            return Value(0);
        },
    };
    match ty {
        Type::Float => {
            let static_ty = expr_ir_type(builder, inner);
            match static_ty {
                IrType::F64 => {
                    let dest = builder.new_value();
                    builder.emit(Inst::ConstBool { dest, value: true });
                    return dest;
                },
                IrType::I64 | IrType::Bool => {
                    let dest = builder.new_value();
                    builder.emit(Inst::ConstBool { dest, value: false });
                    return dest;
                },
                _ => {},
            }
        },
        Type::Named(_) | Type::Qualified(_) => {
            let static_ty = expr_ir_type(builder, inner);
            if static_ty == IrType::I64 || static_ty == IrType::F64 || static_ty == IrType::Bool {
                let _val = lower_expr(builder, inner);
                let dest = builder.new_value();
                builder.emit(Inst::ConstBool { dest, value: false });
                return dest;
            }
        },
        _ => {},
    }
    let val = lower_expr(builder, inner);
    lower_is_check(builder, &val, ty)
}

/// Lowers `expr` and returns the value holding its result. Code is only
/// appended, and it has the shape that `expr_lowering_shape` gives for the
/// kind of `expr`.
#[verifier::rlimit(40)]
pub fn lower_expr(builder: &mut LowerBuilder, expr: &Expr) -> (r: Value)
    requires
        old(builder).wf(),
    ensures
        LowerBuilder::kept(old(builder), final(builder)),
        *expr is Ident ==> LowerBuilder::same_tables(old(builder), final(builder)),
        expr_lowering_shape(*old(builder), *final(builder), r, *expr),
        binary_operands_read(*old(builder), *final(builder), *expr),
        static_args_in_order(*old(builder), *final(builder), *expr),
    decreases old(builder).fda_len(), *expr, 2nat,
{
    reveal(expr_lowering_shape);
    match expr {
        Expr::Literal(lit, _) => lower_literal(builder, lit),
        Expr::Ident(name, _) => lower_ident(builder, name.as_str()),
        Expr::SelfExpr(_) | Expr::ParentExpr(_) => lower_self(builder),
        Expr::Field { .. } => lower_field(builder, expr),
        Expr::Call { callee, .. } => match &**callee {
            Expr::Field { .. } => lower_method_call(builder, expr),
            _ => lower_free_call(builder, expr),
        },
        Expr::StaticCall { .. } => lower_static_call(builder, expr),
        Expr::StaticConst { class, name, .. } => lower_static_const(builder, class.as_str(), name.as_str()),
        Expr::New { .. } => lower_new(builder, expr),
        Expr::Binary { .. } => lower_binary(builder, expr),
        Expr::Unary { op, operand, .. } => {
            let src = lower_expr(builder, operand);
            let dest = builder.new_value();
            match op {
                UnaryOp::Neg => builder.emit(Inst::Neg { dest, src, ty: IrType::I64 }),
                UnaryOp::Not => builder.emit(Inst::Not { dest, src }),
            }
            dest
        },
        Expr::Array { elements, .. } => lower_array_literal(builder, elements, LiteralElemKind::Mixed, Ghost(*expr)),
        Expr::Dict { entries, .. } => lower_map_literal(builder, entries, LiteralElemKind::Mixed, Ghost(*expr)),
        Expr::Index { .. } => lower_index(builder, expr),
        Expr::Range { start, end, .. } => {
            let sv = lower_expr(builder, start);
            let ev = lower_expr(builder, end);
            call_value(builder, "__range", vec2(sv, ev), IrType::Ptr)
        },
        Expr::Match { .. } => lower_match(builder, expr),
        Expr::Template { .. } => lower_template(builder, expr),
        Expr::Nameless { .. } => crate::nameless::lower_nameless_expr(builder, expr),
        Expr::Resolve { .. } => lower_resolve(builder, expr),
        Expr::IsCheck { .. } => lower_is_check_expr(builder, expr),
        Expr::IncDec { .. } => crate::assignments::lower_incdec_expr(builder, expr),
    }
}

} // verus!
