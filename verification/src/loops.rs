//! Lowering of `for` loops, `break` and `continue`.
use vstd::prelude::*;
use crate::ast::{Block, Expr, Stmt, Type};
use crate::block::lower_block;
use crate::builder::{LowerBuilder, lemma_extends_trans, succ};
use crate::captures::names_captured_by_nested_closures;
use crate::control_flow::{enter_loop, exit_loop};
use crate::ir::{BlockId, Inst, InstV, IrType, Value};
use crate::lower::{call_value, emit_call, lower_expr};
use crate::message_gen::{detect_message_call, lower_for_message};
use crate::ownership::emit_early_exit_drops;
use crate::scope::{union_named_class, union_named_class_spec};

verus! {

/// Moves local `name` to a locked heap cell (holding its current value) and
/// redirects the local to the cell, unless it already lives on the heap.
pub fn promote_to_heap(builder: &mut LowerBuilder, name: &str)
    requires
        old(builder).wf(),
    ensures
        LowerBuilder::kept(old(builder), final(builder)),
        final(builder).var_class == old(builder).var_class,
        final(builder).map_vars == old(builder).map_vars,
        final(builder).elem_ast_types == old(builder).elem_ast_types,
{
    if builder.heap_promoted.contains(name) {
        return;
    }
    let local = match builder.locals.get(name) {
        Some(e) => *e,
        None => {
            return;
        },
    };
    let (slot, ty, mutable) = local;
    let heap_ptr = call_value(builder, "__alloc_locked_cell", Vec::new(), IrType::Ptr);
    let cur_val = builder.new_value();
    builder.emit(Inst::Load { dest: cur_val, ptr: slot, ty });
    let mut args: Vec<Value> = Vec::new();
    args.push(heap_ptr);
    args.push(cur_val);
    emit_call(builder, None, "__locked_cell_set".to_owned(), args, IrType::Void);
    builder.locals.insert(name.to_owned(), (heap_ptr, ty, mutable));
    builder.heap_promoted.insert(name.to_owned());
}

/// Before a loop whose body creates closures, moves the variables those
/// closures capture to the heap, once, outside the loop (otherwise each
/// iteration would create a fresh cell and lose the shared state).
pub fn hoist_closure_promotions_before_loop(builder: &mut LowerBuilder, body: &Block)
    requires
        old(builder).wf(),
    ensures
        LowerBuilder::kept(old(builder), final(builder)),
        final(builder).var_class == old(builder).var_class,
        final(builder).map_vars == old(builder).map_vars,
        final(builder).elem_ast_types == old(builder).elem_ast_types,
{
    let names = names_captured_by_nested_closures(body, &builder.locals);
    let mut i: usize = 0;
    while i < names.len()
        invariant
            LowerBuilder::kept(old(builder), builder),
            builder.var_class == old(builder).var_class,
            builder.map_vars == old(builder).map_vars,
            builder.elem_ast_types == old(builder).elem_ast_types,
        decreases names@.len() - i,
    {
        promote_to_heap(builder, names[i].0.as_str());
        i = i + 1;
    }
}

/// What the loop variable of `for var in iter` is known to be: for an
/// iterated variable whose element type is recorded, a map element makes
/// the loop variable a map (with the map's value type), and a class element
/// (possibly `|null`) makes it an object of that class.
pub open spec fn loop_var_registration(b: LowerBuilder, iter: Expr, var: Seq<char>, after: LowerBuilder) -> bool {
    match iter {
        Expr::Ident(n, _) => if b.elem_ast_types@.contains_key(n@) {
            let t = b.elem_ast_types@[n@];
            match t {
                Type::Dict(_, v) => {
                    &&& after.map_vars@.contains(var)
                    &&& after.var_class@.contains_key(var)
                    &&& after.var_class@[var]@ == "Map"@
                },
                _ => match union_named_class_spec(t) {
                    Some(c) => after.var_class@.contains_key(var) && after.var_class@[var]@ == c,
                    None => after.var_class == b.var_class,
                },
            }
        } else {
            true
        },
        _ => true,
    }
}

/// `for var in iter { body }` over an array (or a range): an index from 0
/// to the array's length; each iteration binds `var` to the element (typed
/// by the recorded element type; raw for a variadic parameter); `continue`
/// goes to the increment and `break` leaves. A generator is consumed
/// instead (see `lower_for_message`). With an empty body, the loop variable
/// is registered as `loop_var_registration` says.
pub fn lower_for_in(builder: &mut LowerBuilder, var: &str, iter: &Expr, body: &Block)
    requires
        old(builder).wf(),
    ensures
        LowerBuilder::kept(old(builder), final(builder)),
        final(builder).func.current >= old(builder).func.code().len(),
        body.stmts@.len() == 0 && detect_message_none(*old(builder), *iter)
            ==> loop_var_registration(*old(builder), *iter, var@, *final(builder)),
        for_in_shape(*old(builder), *final(builder), *iter),
{
    let ghost node = Stmt::ForIn {
        var: vstd::pervasive::arbitrary(),
        iter: *iter,
        body: *body,
        span: vstd::pervasive::arbitrary(),
    };
    proof {
        assert(decreases_to!(node => node->ForIn_iter));
        assert(decreases_to!(node => node->ForIn_body));
    }
    lower_for_in_node(builder, var, iter, body, Ghost(node));
}

/// A `for` over `iter`: a loop over the values of a generator when `iter`
/// calls one (see `generator_loop_shape`), an index loop otherwise (see
/// `index_loop_shape`).
pub open spec fn for_in_shape(before: LowerBuilder, after: LowerBuilder, iter: Expr) -> bool {
    match crate::message_gen::message_call_spec(before, iter) {
        Some((m, _t)) => crate::message_gen::generator_loop_shape(after.func, m),
        None => index_loop_shape(after),
    }
}

/// `iter` is not a generator call.
pub open spec fn detect_message_none(b: LowerBuilder, iter: Expr) -> bool {
    crate::message_gen::message_call_spec(b, iter) is None
}

/// `for var in iter { body }` (see `lower_for_in`), inside statement `node`.
#[verifier::rlimit(80)]
pub fn lower_for_in_node(builder: &mut LowerBuilder, var: &str, iter: &Expr, body: &Block, Ghost(node): Ghost<Stmt>)
    requires
        old(builder).wf(),
        decreases_to!(node => *iter),
        decreases_to!(node => *body),
    ensures
        LowerBuilder::kept(old(builder), final(builder)),
        final(builder).func.current >= old(builder).func.code().len(),
        body.stmts@.len() == 0 && detect_message_none(*old(builder), *iter)
            ==> loop_var_registration(*old(builder), *iter, var@, *final(builder)),
        for_in_shape(*old(builder), *final(builder), *iter),
    decreases old(builder).fda_len(), node, 1nat,
{
    match detect_message_call(builder, iter) {
        Some((mangled, elem_ty)) => {
            lower_for_message(builder, var, iter, mangled.as_str(), elem_ty, body, Ghost(node));
            return;
        },
        None => {},
    }
    let registration: Option<(bool, IrType, String)> = match iter {
        Expr::Ident(iter_name, _) => match builder.elem_ast_types.get(iter_name.as_str()) {
            Some(t) => match t {
                Type::Dict(_, val_ty) => Some((true, IrType::from_ast(val_ty), "Map".to_owned())),
                _ => match union_named_class(t) {
                    Some(c) => Some((false, IrType::Ptr, c)),
                    None => None,
                },
            },
            None => None,
        },
        _ => None,
    };
    hoist_closure_promotions_before_loop(builder, body);
    let iter_val = lower_expr(builder, iter);
    let idx_slot = builder.declare_local("__for_idx", IrType::I64, true);
    let zero = builder.new_value();
    builder.emit(Inst::ConstInt { dest: zero, value: 0 });
    builder.emit(Inst::Store { ptr: idx_slot, src: zero });
    let elem_ty = match iter {
        Expr::Range { .. } => IrType::I64,
        Expr::Ident(name, _) => match builder.elem_types.get(name.as_str()) {
            Some(t) => *t,
            None => IrType::Ptr,
        },
        _ => IrType::Ptr,
    };
    let mut len_args: Vec<Value> = Vec::new();
    len_args.push(iter_val);
    let len_val = call_value(builder, "__array_len", len_args, IrType::I64);
    let cond_bb = builder.new_block();
    let body_bb = builder.new_block();
    let incr_bb = builder.new_block();
    let merge_bb = builder.new_block();
    builder.emit(Inst::Jump { target: cond_bb });
    builder.switch_to(&cond_bb);
    let idx = emit_index_condition(builder, idx_slot, len_val, body_bb, merge_bb);
    let ghost b_cond = *builder;
    builder.switch_to(&body_bb);
    let is_variadic = match iter {
        Expr::Ident(name, _) => builder.variadic_params.contains(name.as_str()),
        _ => false,
    };
    let mut get_args: Vec<Value> = Vec::new();
    get_args.push(iter_val);
    get_args.push(idx);
    let elem = call_value(builder, "__array_get", get_args, if is_variadic { IrType::I64 } else { elem_ty });
    let _ = builder.declare_local(var, elem_ty, false);
    builder.store_local(var, elem);
    match registration {
        Some((is_map, val_ir, cls)) => {
            if is_map {
                builder.map_vars.insert(var.to_owned());
                builder.elem_types.insert(var.to_owned(), val_ir);
            }
            builder.var_class.insert(var.to_owned(), cls);
        },
        None => {},
    }
    let depth = enter_loop(builder, incr_bb, merge_bb);
    lower_block(builder, body);
    exit_loop(builder, depth);
    proof {
        assert(builder.loop_stack@ =~= old(builder).loop_stack@);
    }
    if !builder.is_terminated() {
        builder.emit(Inst::Jump { target: incr_bb });
    }
    let ghost b_body = *builder;
    builder.switch_to(&incr_bb);
    let ghost b_incr0 = *builder;
    emit_index_increment(builder, idx_slot, cond_bb);
    let ghost b_incr = *builder;
    proof {
        lemma_extends_trans(b_cond.func, b_body.func, b_incr0.func);
        lemma_extends_trans(b_cond.func, b_incr0.func, b_incr.func);
        let c = cond_bb.0 as int;
        assert(b_incr.func.code()[c][0] == b_cond.func.code()[c][0]);
        assert(b_incr.func.code()[c][1] == b_cond.func.code()[c][1]);
        assert(b_incr.func.code()[c][2] == b_cond.func.code()[c][2]);
    }
    builder.switch_to(&merge_bb);
}

/// The test of an index loop, in the current (empty) block: the index is
/// loaded and compared with the length; the branch goes to the body or to
/// the exit. Returns the loaded index.
fn emit_index_condition(builder: &mut LowerBuilder, idx_slot: Value, len_val: Value, body_bb: BlockId, exit_bb: BlockId) -> (r: Value)
    requires
        old(builder).wf(),
    ensures
        LowerBuilder::kept(old(builder), final(builder)),
        LowerBuilder::same_tables(old(builder), final(builder)),
        final(builder).func.current == old(builder).func.current,
        final(builder).func.code().len() == old(builder).func.code().len(),
        ({
            let k = old(builder).func.current as int;
            let n = old(builder).func.code()[k].len() as int;
            &&& final(builder).func.code()[k].len() == n + 3
            &&& final(builder).func.code()[k][n] == (InstV::Load { dest: r, ptr: idx_slot, ty: IrType::I64 })
            &&& final(builder).func.code()[k][n + 1] == (InstV::CmpLt { dest: Value(succ(old(builder).func.next_value)),
                lhs: r, rhs: len_val, ty: IrType::I64 })
            &&& final(builder).func.code()[k][n + 2] == (InstV::Branch {
                cond: Value(succ(old(builder).func.next_value)), then_bb: body_bb, else_bb: exit_bb })
        }),
        r == Value(old(builder).func.next_value),
{
    let idx = builder.new_value();
    builder.emit(Inst::Load { dest: idx, ptr: idx_slot, ty: IrType::I64 });
    let cond = builder.new_value();
    builder.emit(Inst::CmpLt { dest: cond, lhs: idx, rhs: len_val, ty: IrType::I64 });
    builder.emit(Inst::Branch { cond, then_bb: body_bb, else_bb: exit_bb });
    idx
}

/// The increment of an index loop, at the end of the current block: one
/// is added to the index, the sum stored back, and control jumps to the
/// loop's condition block.
fn emit_index_increment(builder: &mut LowerBuilder, idx_slot: Value, cond_bb: BlockId)
    requires
        old(builder).wf(),
    ensures
        LowerBuilder::kept(old(builder), final(builder)),
        LowerBuilder::same_tables(old(builder), final(builder)),
        final(builder).func.current == old(builder).func.current,
        final(builder).func.code().len() == old(builder).func.code().len(),
        ({
            let k = old(builder).func.current as int;
            let n = old(builder).func.code()[k].len() as int;
            let v = old(builder).func.next_value;
            &&& final(builder).func.code()[k].len() == n + 5
            &&& final(builder).func.code()[k][n] == (InstV::ConstInt { dest: Value(v), value: 1 })
            &&& final(builder).func.code()[k][n + 1] == (InstV::Load { dest: Value(succ(v)), ptr: idx_slot, ty: IrType::I64 })
            &&& final(builder).func.code()[k][n + 2] == (InstV::Add { dest: Value(succ(succ(v))), lhs: Value(succ(v)),
                rhs: Value(v), ty: IrType::I64 })
            &&& final(builder).func.code()[k][n + 3] == (InstV::Store { ptr: idx_slot, src: Value(succ(succ(v))) })
            &&& final(builder).func.code()[k][n + 4] == (InstV::Jump { target: cond_bb })
        }),
{
    let one = builder.new_value();
    builder.emit(Inst::ConstInt { dest: one, value: 1 });
    let idx2 = builder.new_value();
    builder.emit(Inst::Load { dest: idx2, ptr: idx_slot, ty: IrType::I64 });
    let next_idx = builder.new_value();
    builder.emit(Inst::Add { dest: next_idx, lhs: idx2, rhs: one, ty: IrType::I64 });
    builder.emit(Inst::Store { ptr: idx_slot, src: next_idx });
    builder.emit(Inst::Jump { target: cond_bb });
}

/// The loop over the indices of an array (or of the keys of a map), with
/// lowering continuing in its
/// exit block `m` (the current block): the blocks `m - 3` (condition),
/// `m - 2` (body) and `m - 1` (increment) were made together with it. The
/// condition block compares the index with the length and branches to the
/// body or to the exit; the increment block ends with the sum of the index
/// and one, its store, and the jump back to the condition.
pub open spec fn index_loop_shape(after: LowerBuilder) -> bool {
    let m = after.func.current as int;
    let c = m - 3;
    let i = m - 1;
    let code = after.func.code();
    &&& m >= 3
    &&& code[c].len() >= 3
    &&& code[c][0] is Load && code[c][0]->Load_ty == IrType::I64
    &&& code[c][1] is CmpLt && code[c][1]->CmpLt_lhs == code[c][0]->Load_dest && code[c][1]->CmpLt_ty == IrType::I64
    &&& code[c][2] matches InstV::Branch { then_bb, else_bb, .. } && then_bb.0 == c + 1 && else_bb.0 == m
    &&& code[c][2]->Branch_cond == code[c][1]->CmpLt_dest
    &&& code[i].len() >= 5
    &&& code[i].len() >= 5
    &&& code[i][code[i].len() - 5] is ConstInt && code[i][code[i].len() - 5]->ConstInt_value == 1
    &&& code[i][code[i].len() - 4] is Load && code[i][code[i].len() - 4]->Load_ptr == code[c][0]->Load_ptr
    &&& code[i][code[i].len() - 3] is Add
    &&& code[i][code[i].len() - 3]->Add_lhs == code[i][code[i].len() - 4]->Load_dest
    &&& code[i][code[i].len() - 3]->Add_rhs == code[i][code[i].len() - 5]->ConstInt_dest
    &&& code[i][code[i].len() - 2] == (InstV::Store { ptr: code[c][0]->Load_ptr, src: code[i][code[i].len() - 3]->Add_dest })
    &&& code[i].last() == (InstV::Jump { target: BlockId(c as usize) })
}

/// What a comparison instruction decides on operands worth `a` and `b`.
pub open spec fn compares_true(i: InstV, a: int, b: int) -> bool {
    match i {
        InstV::CmpEq { .. } => a == b,
        InstV::CmpNe { .. } => a != b,
        InstV::CmpLt { .. } => a < b,
        InstV::CmpGt { .. } => a > b,
        InstV::CmpLe { .. } => a <= b,
        _ => a >= b,
    }
}

/// The operands of a comparison instruction, left then right.
pub open spec fn compared_operands(i: InstV) -> (Value, Value) {
    match i {
        InstV::CmpEq { lhs, rhs, .. } | InstV::CmpNe { lhs, rhs, .. } | InstV::CmpLt { lhs, rhs, .. }
            | InstV::CmpGt { lhs, rhs, .. } | InstV::CmpLe { lhs, rhs, .. } | InstV::CmpGe { lhs, rhs, .. } => (lhs, rhs),
        _ => (Value(0), Value(0)),
    }
}

/// Running a block that loads a value, compares and branches (`blk[0..3]`):
/// the load gives `loaded`, any other value `v` holds `env(v)`; the result
/// is the block the branch goes to.
pub open spec fn run_load_compare_branch(blk: Seq<InstV>, env: spec_fn(Value) -> int, loaded: int) -> int {
    let val = |v: Value| if v == blk[0]->Load_dest { loaded } else { env(v) };
    let (l, r) = compared_operands(blk[1]);
    if compares_true(blk[1], val(l), val(r)) {
        blk[2]->Branch_then_bb.0 as int
    } else {
        blk[2]->Branch_else_bb.0 as int
    }
}

/// Running the five instructions that end a block from position `n`, when
/// the load gives `loaded`: the value that the store writes (the sum of its
/// two operands when they are the loaded value and a constant).
pub open spec fn run_increment(blk: Seq<InstV>, n: int, loaded: int) -> int {
    let val = |v: Value| if v == blk[n + 1]->Load_dest { loaded } else if v == blk[n]->ConstInt_dest {
        blk[n]->ConstInt_value as int
    } else {
        0
    };
    if blk[n + 3]->Store_src == blk[n + 2]->Add_dest {
        val(blk[n + 2]->Add_lhs) + val(blk[n + 2]->Add_rhs)
    } else {
        0
    }
}

/// Law: an index loop (`for` over an array or a map) goes from its
/// condition block to its body exactly while the index read from the
/// index slot is below the bound it is compared with, and to the block
/// after the loop otherwise; each turn ends by storing the index plus one
/// into that same slot and going back to the condition.
pub proof fn law_index_loop_runs_while_below_bound(after: LowerBuilder, env: spec_fn(Value) -> int, index: int)
    requires
        index_loop_shape(after),
    ensures
        ({
            let m = after.func.current as int;
            let cond = after.func.code()[m - 3];
            let incr = after.func.code()[m - 1];
            let n = incr.len() - 5;
            let bound = compared_operands(cond[1]).1;
            &&& bound != cond[0]->Load_dest ==> (run_load_compare_branch(cond, env, index)
                == if index < env(bound) { m - 2 } else { m })
            &&& incr[n + 1]->Load_dest != incr[n]->ConstInt_dest ==> run_increment(incr, n, index) == index + 1
            &&& incr[n + 3]->Store_ptr == cond[0]->Load_ptr
            &&& incr[n + 1]->Load_ptr == cond[0]->Load_ptr
            &&& incr.last() == (InstV::Jump { target: BlockId((m - 3) as usize) })
        }),
{
    let m = after.func.current as int;
    let cond = after.func.code()[m - 3];
    let incr = after.func.code()[m - 1];
    let n = incr.len() - 5;
    let bound = compared_operands(cond[1]).1;
    assert(compared_operands(cond[1]).0 == cond[0]->Load_dest);
    assert(bound != cond[0]->Load_dest ==> (run_load_compare_branch(cond, env, index)
        == if index < env(bound) { m - 2 } else { m }));
}

/// What the value variable of `for key => value in iter` is known to be: an
/// object of the class of the recorded value type (possibly `|null`).
pub open spec fn map_value_registration(b: LowerBuilder, iter: Expr, value: Seq<char>, after: LowerBuilder) -> bool {
    match iter {
        Expr::Ident(n, _) => if b.elem_ast_types@.contains_key(n@) {
            match union_named_class_spec(b.elem_ast_types@[n@]) {
                Some(c) => after.var_class@.contains_key(value) && after.var_class@[value]@ == c,
                None => true,
            }
        } else {
            true
        },
        _ => true,
    }
}

/// `for key => value in map { body }`: iterates over the map's keys, binding
/// `key` to each key and `value` to the value stored under it; `continue`
/// goes to the increment and `break` leaves. With an empty body, `value` is
/// registered as `map_value_registration` says.
pub fn lower_for_map(builder: &mut LowerBuilder, key: &str, value: &str, iter: &Expr, body: &Block)
    requires
        old(builder).wf(),
    ensures
        LowerBuilder::kept(old(builder), final(builder)),
        final(builder).func.current >= old(builder).func.code().len(),
        body.stmts@.len() == 0 ==> map_value_registration(*old(builder), *iter, value@, *final(builder)),
        index_loop_shape(*final(builder)),
{
    let ghost node = Stmt::ForMap {
        key: vstd::pervasive::arbitrary(),
        value: vstd::pervasive::arbitrary(),
        iter: *iter,
        body: *body,
        span: vstd::pervasive::arbitrary(),
    };
    proof {
        assert(decreases_to!(node => node->ForMap_iter));
        assert(decreases_to!(node => node->ForMap_body));
    }
    lower_for_map_node(builder, key, value, iter, body, Ghost(node));
}

/// `for key => value in map { body }` (see `lower_for_map`), inside
/// statement `node`.
#[verifier::rlimit(80)]
pub fn lower_for_map_node(builder: &mut LowerBuilder, key: &str, value: &str, iter: &Expr, body: &Block, Ghost(node): Ghost<Stmt>)
    requires
        old(builder).wf(),
        decreases_to!(node => *iter),
        decreases_to!(node => *body),
    ensures
        LowerBuilder::kept(old(builder), final(builder)),
        final(builder).func.current >= old(builder).func.code().len(),
        body.stmts@.len() == 0 ==> map_value_registration(*old(builder), *iter, value@, *final(builder)),
        index_loop_shape(*final(builder)),
    decreases old(builder).fda_len(), node, 1nat,
{
    let registration: Option<String> = match iter {
        Expr::Ident(map_name, _) => match builder.elem_ast_types.get(map_name.as_str()) {
            Some(t) => union_named_class(t),
            None => None,
        },
        _ => None,
    };
    hoist_closure_promotions_before_loop(builder, body);
    let iter_val = lower_expr(builder, iter);
    let mut keys_args: Vec<Value> = Vec::new();
    keys_args.push(iter_val);
    let keys_arr = call_value(builder, "Map_keys", keys_args, IrType::Ptr);
    let mut len_args: Vec<Value> = Vec::new();
    len_args.push(keys_arr);
    let len_val = call_value(builder, "__array_len", len_args, IrType::I64);
    let idx_slot = builder.declare_local("__map_idx", IrType::I64, true);
    let zero = builder.new_value();
    builder.emit(Inst::ConstInt { dest: zero, value: 0 });
    builder.emit(Inst::Store { ptr: idx_slot, src: zero });
    let cond_bb = builder.new_block();
    let body_bb = builder.new_block();
    let incr_bb = builder.new_block();
    let merge_bb = builder.new_block();
    builder.emit(Inst::Jump { target: cond_bb });
    builder.switch_to(&cond_bb);
    let idx = emit_index_condition(builder, idx_slot, len_val, body_bb, merge_bb);
    let ghost b_cond = *builder;
    builder.switch_to(&body_bb);
    let mut k_args: Vec<Value> = Vec::new();
    k_args.push(keys_arr);
    k_args.push(idx);
    let k = call_value(builder, "__array_get", k_args, IrType::Ptr);
    let _ = builder.declare_local(key, IrType::Ptr, false);
    builder.store_local(key, k);
    let mut v_args: Vec<Value> = Vec::new();
    v_args.push(iter_val);
    v_args.push(k);
    let v = call_value(builder, "__map_get", v_args, IrType::I64);
    let _ = builder.declare_local(value, IrType::I64, false);
    builder.store_local(value, v);
    match registration {
        Some(cls) => {
            builder.var_class.insert(value.to_owned(), cls);
        },
        None => {},
    }
    let depth = enter_loop(builder, incr_bb, merge_bb);
    lower_block(builder, body);
    exit_loop(builder, depth);
    proof {
        assert(builder.loop_stack@ =~= old(builder).loop_stack@);
    }
    if !builder.is_terminated() {
        builder.emit(Inst::Jump { target: incr_bb });
    }
    let ghost b_body = *builder;
    builder.switch_to(&incr_bb);
    let ghost b_incr0 = *builder;
    emit_index_increment(builder, idx_slot, cond_bb);
    let ghost b_incr = *builder;
    proof {
        lemma_extends_trans(b_cond.func, b_body.func, b_incr0.func);
        lemma_extends_trans(b_cond.func, b_incr0.func, b_incr.func);
        let c = cond_bb.0 as int;
        assert(b_incr.func.code()[c][0] == b_cond.func.code()[c][0]);
        assert(b_incr.func.code()[c][1] == b_cond.func.code()[c][1]);
        assert(b_incr.func.code()[c][2] == b_cond.func.code()[c][2]);
    }
    builder.switch_to(&merge_bb);
}

/// Leaving the innermost loop of `before` released every owned local, that
/// can be released, of the blocks opened inside that loop.
pub open spec fn releases_loop_blocks(before: LowerBuilder, after: LowerBuilder) -> bool {
    let depth = before.loop_stack@.last().2 as int;
    let stack = before.block_scope_stack@;
    forall|d: int, k: int| depth <= d < stack.len() && 0 <= k < stack[d]@.len()
        && crate::ownership::releasable(before, (#[trigger] stack[d]@[k])@)
        ==> after.owned_locals@[stack[d]@[k]@].dropped
}

/// `break`: releases the owned locals of the blocks opened since the loop
/// was entered, then jumps out of the innermost loop (nothing outside a
/// loop); with no block opened since, the jump is all it emits.
pub fn lower_break(builder: &mut LowerBuilder)
    requires
        old(builder).wf(),
    ensures
        LowerBuilder::kept(old(builder), final(builder)),
        old(builder).loop_stack@.len() > 0 ==> final(builder).func.spec_terminated() && final(builder).func.code()[final(builder).func.current as int].last() == (crate::ir::InstV::Jump { target: old(builder).loop_stack@.last().1 }),
        old(builder).loop_stack@.len() > 0 ==> releases_loop_blocks(*old(builder), *final(builder)),
        old(builder).loop_stack@.len() == 0 ==> *final(builder) == *old(builder),
        old(builder).loop_stack@.len() > 0 && old(builder).loop_stack@.last().2 >= old(builder).block_scope_stack@.len()
            ==> crate::ir::IrFunction::appended(&old(builder).func, &final(builder).func,
                seq![crate::ir::InstV::Jump { target: old(builder).loop_stack@.last().1 }]),
{
    let n = builder.loop_stack.len();
    if n > 0 {
        let (_c, break_bb, depth) = builder.loop_stack[n - 1];
        emit_early_exit_drops(builder, depth);
        builder.emit(Inst::Jump { target: break_bb });
    }
}

/// `continue`: releases the owned locals of the blocks opened since the
/// loop was entered, then jumps to the loop's continuation.
pub fn lower_continue(builder: &mut LowerBuilder)
    requires
        old(builder).wf(),
    ensures
        LowerBuilder::kept(old(builder), final(builder)),
        old(builder).loop_stack@.len() > 0 ==> final(builder).func.spec_terminated() && final(builder).func.code()[final(builder).func.current as int].last() == (crate::ir::InstV::Jump { target: old(builder).loop_stack@.last().0 }),
        old(builder).loop_stack@.len() > 0 ==> releases_loop_blocks(*old(builder), *final(builder)),
        old(builder).loop_stack@.len() == 0 ==> *final(builder) == *old(builder),
        old(builder).loop_stack@.len() > 0 && old(builder).loop_stack@.last().2 >= old(builder).block_scope_stack@.len()
            ==> crate::ir::IrFunction::appended(&old(builder).func, &final(builder).func,
                seq![crate::ir::InstV::Jump { target: old(builder).loop_stack@.last().0 }]),
{
    let n = builder.loop_stack.len();
    if n > 0 {
        let (continue_bb, _b, depth) = builder.loop_stack[n - 1];
        emit_early_exit_drops(builder, depth);
        builder.emit(Inst::Jump { target: continue_bb });
    }
}

} // verus!
