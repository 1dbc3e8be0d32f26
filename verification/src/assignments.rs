//! Lowering of assignments and of `++`/`--`.
use vstd::prelude::*;
use crate::ast::{Expr, IncDecOp, Stmt};
use crate::builder::{LowerBuilder, lemma_appended_twice, succ};
use crate::helpers::{field_ir_type, field_offset, is_map_target, resolve_chained_field_class};
use crate::ir::{Inst, InstV, IrFunction, IrType, Value};
use crate::lower::{call_value, emit_call, lower_expr};
use crate::ownership::{free_before_reassign, maybe_clone_escaping};
use crate::stmt_helpers::box_for_any;
use crate::typeinfer::expr_ir_type_pub;

verus! {

/// Class of the object of an assigned or incremented field.
fn target_owner_class(builder: &LowerBuilder, object: &Expr) -> (r: Option<String>)
{
    match object {
        Expr::Ident(n, _) => match builder.var_class.get(n.as_str()) {
            Some(c) => Some(c.clone()),
            None => None,
        },
        Expr::SelfExpr(_) => match &builder.current_class {
            Some(c) => Some(c.clone()),
            None => None,
        },
        Expr::Field { object: inner, field, .. } => resolve_chained_field_class(builder, inner, field.as_str()),
        _ => None,
    }
}

/// `target = value`. The value is lowered first (copied if it is an
/// escaping `scoped`/`consumed`); a variable receives it converted to its
/// type (the old value of an owned variable released first); a field is
/// written at its offset; an indexed element is set with `__map_set` or
/// `__array_set`. Any other target is ignored.
pub fn lower_assign(builder: &mut LowerBuilder, target: &Expr, value: &Expr)
    requires
        old(builder).wf(),
    ensures
        LowerBuilder::kept(old(builder), final(builder)),
        assign_tail(*final(builder), *target),
{
    let ghost node = Stmt::Assign { target: *target, value: *value, span: vstd::pervasive::arbitrary() };
    proof {
        assert(decreases_to!(node => node->Assign_target));
        assert(decreases_to!(node => node->Assign_value));
    }
    lower_assign_node(builder, target, value, Ghost(node))
}

/// The lowering behind `lower_assign`; `node` is the statement or expression being
/// lowered, which bounds the recursion.
pub(crate) fn lower_assign_node(builder: &mut LowerBuilder, target: &Expr, value: &Expr, Ghost(node): Ghost<Stmt>)
    requires
        old(builder).wf(),
        decreases_to!(node => *target),
        decreases_to!(node => *value),
    ensures
        LowerBuilder::kept(old(builder), final(builder)),
        assign_tail(*final(builder), *target),
    decreases old(builder).fda_len(), node, 1nat,
{
    let val_ty = expr_ir_type_pub(builder, value);
    let val0 = lower_expr(builder, value);
    let val = maybe_clone_escaping(builder, value, val0);
    match target {
        Expr::Ident(name, _) => {
            let target_ty = match builder.frame_vars.get(name.as_str()) {
                Some(e) => e.2,
                None => match builder.locals.get(name.as_str()) {
                    Some(e) => e.1,
                    None => IrType::I64,
                },
            };
            let v = box_for_any(builder, &target_ty, val_ty, val);
            free_before_reassign(builder, name.as_str());
            let ghost before_store = *builder;
            builder.store_local(name.as_str(), v);
            proof {
                assert(builder.locals@ == before_store.locals@);
            }
        },
        Expr::Field { object, field, .. } => {
            let class_name = target_owner_class(builder, object);
            let offset = match &class_name {
                Some(cls) => field_offset(&builder.module.class_layouts, cls.as_str(), field.as_str()),
                None => 0,
            };
            proof {
                assert(decreases_to!(*target => **object));
            }
            let obj_val = lower_expr(builder, object);
            builder.emit(Inst::SetField { obj: obj_val, field: field.clone(), src: val, offset });
        },
        Expr::Index { object, index, .. } => {
            proof {
                assert(decreases_to!(*target => **object));
                assert(decreases_to!(*target => **index));
            }
            let obj_val = lower_expr(builder, object);
            let idx_val = lower_expr(builder, index);
            let func = if is_map_target(builder, object) { "__map_set" } else { "__array_set" };
            let mut args: Vec<Value> = Vec::new();
            args.push(obj_val);
            args.push(idx_val);
            args.push(val);
            let ghost mid = *builder;
            emit_call(builder, None, func.to_owned(), args, IrType::Void);
            proof {
                crate::helpers::lemma_map_target_same_tables(mid, *builder, **object);
            }
        },
        _ => {},
    }
}

/// The code of `target = value` ends with the write: the store into the
/// slot of a plain local; the write of field `f` for `o.f`; the runtime's
/// map or array update (of object, index and value) for `o[i]`, chosen by
/// `is_map_target_spec`.
pub open spec fn assign_tail(after: LowerBuilder, target: Expr) -> bool {
    let last = crate::lower::last_inst(after.func);
    match target {
        Expr::Ident(n, _) => is_plain_local(after, n@)
            ==> (last matches InstV::Store { ptr, .. } && ptr == after.locals@[n@].0),
        Expr::Field { field, .. } => last matches InstV::SetField { field: f, .. } && f == field@,
        Expr::Index { object, .. } => last matches InstV::Call { dest, func, args, ret_ty }
            && dest is None && args.len() == 3 && ret_ty == IrType::Void
            && func == (if crate::helpers::is_map_target_spec(after, *object) { "__map_set"@ } else { "__array_set"@ }),
        _ => true,
    }
}

/// Bits of the IEEE-754 encoding of 1.0.
pub const ONE_F64_BITS: u64 = 4607182418800017408;

/// The constant one of type `ty` into `dest`.
pub open spec fn one_inst(ty: IrType, dest: Value) -> InstV {
    match ty {
        IrType::F64 => InstV::ConstFloat { dest, bits: ONE_F64_BITS },
        _ => InstV::ConstInt { dest, value: 1 },
    }
}

/// `dest = lhs + rhs` for an increment, `dest = lhs - rhs` for a decrement.
pub open spec fn step_inst(op: IncDecOp, dest: Value, lhs: Value, rhs: Value, ty: IrType) -> InstV {
    if op.spec_is_increment() {
        InstV::Add { dest, lhs, rhs, ty }
    } else {
        InstV::Sub { dest, lhs, rhs, ty }
    }
}

/// `name` is an ordinary local of the function (neither a generator frame
/// variable nor a captured one).
pub open spec fn is_plain_local(b: LowerBuilder, name: Seq<char>) -> bool {
    b.locals@.contains_key(name) && !b.frame_vars@.contains_key(name) && !b.captured_vars@.contains_key(name)
}

/// `++`/`--` on the plain local `name`: its slot is loaded, one is made,
/// added or subtracted, and the result stored back; `r` is the new value
/// for a prefix operator and the old one for a postfix one.
pub open spec fn incdec_local_code(before: LowerBuilder, after: LowerBuilder, op: IncDecOp, name: Seq<char>, r: Value) -> bool {
    let n = before.func.next_value;
    let (slot, t, _m) = before.locals@[name];
    let v0 = Value(n);
    let v1 = Value(succ(n));
    let v2 = Value(succ(succ(n)));
    &&& IrFunction::appended(&before.func, &after.func, seq![
        InstV::Load { dest: v0, ptr: slot, ty: t },
        one_inst(t, v1),
        step_inst(op, v2, v0, v1, t),
        InstV::Store { ptr: slot, src: v2 },
    ])
    &&& r == (if op.spec_is_prefix() { v2 } else { v0 })
}

/// `++`/`--` on `target`: on a plain local, exactly `incdec_local_code`.
pub open spec fn incdec_shape(before: LowerBuilder, after: LowerBuilder, op: IncDecOp, target: Expr, r: Value) -> bool {
    match target {
        Expr::Ident(n, _) => is_plain_local(before, n@) ==> incdec_local_code(before, after, op, n@, r),
        _ => true,
    }
}

/// Emits `old_val + 1` (or `- 1` for a decrement) in type `ty` and returns
/// the new value.
fn emit_incdec_step(builder: &mut LowerBuilder, op: &IncDecOp, old_val: Value, ty: &IrType) -> (r: Value)
    requires
        old(builder).wf(),
    ensures
        LowerBuilder::kept(old(builder), final(builder)),
        LowerBuilder::same_tables(old(builder), final(builder)),
        r == Value(succ(old(builder).func.next_value)),
        final(builder).func.next_value == succ(succ(old(builder).func.next_value)),
        IrFunction::appended(&old(builder).func, &final(builder).func, seq![
            one_inst(*ty, Value(old(builder).func.next_value)),
            step_inst(*op, r, old_val, Value(old(builder).func.next_value), *ty),
        ]),
{
    let ghost b0 = *builder;
    let one = builder.new_value();
    match ty {
        IrType::F64 => builder.emit(Inst::ConstFloat { dest: one, bits: ONE_F64_BITS }),
        _ => builder.emit(Inst::ConstInt { dest: one, value: 1 }),
    }
    let new_val = builder.new_value();
    let inst = if op.is_increment() {
        Inst::Add { dest: new_val, lhs: old_val, rhs: one, ty: *ty }
    } else {
        Inst::Sub { dest: new_val, lhs: old_val, rhs: one, ty: *ty }
    };
    let ghost b2 = *builder;
    builder.emit(inst);
    proof {
        lemma_appended_twice(b0.func, b2.func, builder.func, seq![one_inst(*ty, one)],
            seq![step_inst(*op, new_val, old_val, one, *ty)]);
        assert(seq![one_inst(*ty, one)] + seq![step_inst(*op, new_val, old_val, one, *ty)] =~= seq![
            one_inst(*ty, one), step_inst(*op, new_val, old_val, one, *ty)]);
    }
    new_val
}

/// `i++`, `++i`, `i--`, `--i` on a variable, a field or an indexed element:
/// reads the old value once, stores the stepped value, and returns the new
/// value (prefix) or the old one (postfix). The object and index are
/// evaluated once. Other targets (rejected before lowering) yield a `Nop`.
pub fn lower_incdec(builder: &mut LowerBuilder, op: &IncDecOp, target: &Expr) -> (r: Value)
    requires
        old(builder).wf(),
    ensures
        LowerBuilder::kept(old(builder), final(builder)),
        incdec_shape(*old(builder), *final(builder), *op, *target, r),
{
    let ghost node = Expr::IncDec { op: *op, target: Box::new(*target), span: vstd::pervasive::arbitrary() };
    proof {
        assert(decreases_to!(node => node->IncDec_target));
    }
    lower_incdec_node(builder, op, target, Ghost(node))
}

/// The lowering behind `lower_incdec`; `node` is the statement or expression being
/// lowered, which bounds the recursion.
pub(crate) fn lower_incdec_node(builder: &mut LowerBuilder, op: &IncDecOp, target: &Expr, Ghost(node): Ghost<Expr>) -> (r: Value)
    requires
        old(builder).wf(),
        decreases_to!(node => *target),
    ensures
        LowerBuilder::kept(old(builder), final(builder)),
        incdec_shape(*old(builder), *final(builder), *op, *target, r),
    decreases old(builder).fda_len(), node, 0nat,
{
    match target {
        Expr::Ident(name, _) => {
            let ghost b0 = *builder;
            let (old_val, ty) = match builder.load_local(name.as_str()) {
                Some(p) => p,
                None => {
                    let d = builder.new_value();
                    builder.emit(Inst::Nop);
                    (d, IrType::I64)
                },
            };
            let ghost b1 = *builder;
            let new_val = emit_incdec_step(builder, op, old_val, &ty);
            let ghost b2 = *builder;
            builder.store_local(name.as_str(), new_val);
            proof {
                if is_plain_local(b0, name@) {
                    let (slot, t, _m) = b0.locals@[name@];
                    let s1 = seq![InstV::Load { dest: old_val, ptr: slot, ty: t }];
                    let s2 = seq![one_inst(ty, Value(b1.func.next_value)), step_inst(*op, new_val, old_val, Value(b1.func.next_value), ty)];
                    let s3 = seq![InstV::Store { ptr: slot, src: new_val }];
                    lemma_appended_twice(b0.func, b1.func, b2.func, s1, s2);
                    lemma_appended_twice(b0.func, b2.func, builder.func, s1 + s2, s3);
                    assert(s1 + s2 + s3 =~= seq![
                        InstV::Load { dest: old_val, ptr: slot, ty: t },
                        one_inst(t, Value(succ(b0.func.next_value))),
                        step_inst(*op, new_val, old_val, Value(succ(b0.func.next_value)), t),
                        InstV::Store { ptr: slot, src: new_val },
                    ]);
                }
            }
            if op.is_prefix() { new_val } else { old_val }
        },
        Expr::Field { object, field, .. } => {
            let class_name = target_owner_class(builder, object);
            let (offset, ty) = match &class_name {
                Some(cls) => (
                    field_offset(&builder.module.class_layouts, cls.as_str(), field.as_str()),
                    field_ir_type(&builder.module.class_layouts, cls.as_str(), field.as_str()),
                ),
                None => (0i32, IrType::I64),
            };
            proof {
                assert(decreases_to!(*target => **object));
            }
            let obj_val = lower_expr(builder, object);
            let old_val = builder.new_value();
            builder.emit(Inst::GetField { dest: old_val, obj: obj_val, field: field.clone(), ty, offset });
            let new_val = emit_incdec_step(builder, op, old_val, &ty);
            builder.emit(Inst::SetField { obj: obj_val, field: field.clone(), src: new_val, offset });
            if op.is_prefix() { new_val } else { old_val }
        },
        Expr::Index { object, index, .. } => {
            proof {
                assert(decreases_to!(*target => **object));
                assert(decreases_to!(*target => **index));
            }
            let obj_val = lower_expr(builder, object);
            let idx_val = lower_expr(builder, index);
            let ty = expr_ir_type_pub(builder, target);
            let is_map = is_map_target(builder, object);
            let (get_func, set_func) = if is_map { ("__map_get", "__map_set") } else { ("__array_get", "__array_set") };
            let mut get_args: Vec<Value> = Vec::new();
            get_args.push(obj_val);
            get_args.push(idx_val);
            let old_val = call_value(builder, get_func, get_args, IrType::Ptr);
            let new_val = emit_incdec_step(builder, op, old_val, &ty);
            let mut set_args: Vec<Value> = Vec::new();
            set_args.push(obj_val);
            set_args.push(idx_val);
            set_args.push(new_val);
            emit_call(builder, None, set_func.to_owned(), set_args, IrType::Void);
            if op.is_prefix() { new_val } else { old_val }
        },
        _ => {
            let d = builder.new_value();
            builder.emit(Inst::Nop);
            d
        },
    }
}

/// `++`/`--` used as an expression.
pub fn lower_incdec_expr(builder: &mut LowerBuilder, expr: &Expr) -> (r: Value)
    requires
        old(builder).wf(),
        *expr is IncDec,
    ensures
        LowerBuilder::kept(old(builder), final(builder)),
        incdec_shape(*old(builder), *final(builder), expr->IncDec_op, *expr->IncDec_target, r),
    decreases old(builder).fda_len(), *expr, 1nat,
{
    match expr {
        Expr::IncDec { op, target, .. } => lower_incdec_node(builder, op, target, Ghost(*expr)),
        _ => {
            proof { assert(false); }
            Value(0)
        },
    }
}

} // verus!
