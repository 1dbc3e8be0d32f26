//! Lowering of statements.
use vstd::prelude::*;
use crate::ast::{Expr, Stmt};
use crate::builder::LowerBuilder;
use crate::control_flow::{lower_if_node, lower_switch_node, lower_while_node};
use crate::exceptions::{lower_raise_node, lower_try_node};
use crate::ir::{Inst, InstV, IrFunction, IrType, Value};
use crate::loops::{lower_break, lower_continue, lower_for_in_node, lower_for_map_node};
use crate::lower::{emit_call, last_inst, lower_expr};
use crate::message_gen::emit_generator_exhausted;
use crate::ownership::{emit_early_exit_drops, maybe_clone_escaping};
use crate::text::{starts_with, starts_with_spec, str_eq};
use crate::variables::{lower_const_node, lower_var_node};
use crate::assignments::lower_assign_node;

verus! {

/// True in the handler function of a `try`.
fn in_try_handler(builder: &LowerBuilder) -> (r: bool)
    ensures
        r == is_try_handler_name(builder.func.name@),
{
    starts_with(builder.func.name.as_str(), "__try_handler_")
}

/// True in the resume function of a generator.
fn in_generator(builder: &LowerBuilder) -> (r: bool)
    ensures
        r == builder.frame_vars@.contains_key("__state"@),
{
    builder.frame_vars.contains_key("__state")
}

/// `name` is that of the handler function of a `try`.
pub open spec fn is_try_handler_name(name: Seq<char>) -> bool {
    starts_with_spec(name, "__try_handler_"@)
}

/// A `return` in an ordinary function (neither a generator's resume
/// function nor a `try` handler) ends with a `Return`, with a value exactly
/// when one is written.
pub open spec fn return_shape(before: LowerBuilder, after: LowerBuilder, value: Option<Expr>) -> bool {
    !before.frame_vars@.contains_key("__state"@) && !is_try_handler_name(before.func.name@)
        ==> (last_inst(after.func) matches InstV::Return { value: v } && (v is Some <==> value is Some)
            && (value matches Some(e) ==> returns_value_of(before, after, e, v.unwrap())))
}

/// `v` is what lowering `e` from `before` gave (or the copy of it made right
/// after, for a value that escapes), and that lowering stands in `after`.
pub open spec fn returns_value_of(before: LowerBuilder, after: LowerBuilder, e: Expr, v: Value) -> bool {
    exists|mid: LowerBuilder, val: Value| #[trigger] crate::lower::expr_lowering_shape(before, mid, val, e)
        && crate::builder::extends(before.func, mid.func) && crate::builder::extends(mid.func, after.func)
        && (v == val || v == Value(mid.func.next_value))
}

/// `result` gives success: written without a value or as `SUCCESS`.
pub open spec fn is_success_value(value: Option<Expr>) -> bool {
    match value {
        None => true,
        Some(Expr::Ident(n, _)) => n@ == "SUCCESS"@,
        Some(_) => false,
    }
}

/// A `result` in the `main` assembled from runtime blocks, while its exit
/// label is set and `ERROR` is a local, stores the result in `ERROR` and
/// jumps to that label; a success stores the constant 0 and emits nothing
/// else (`SUCCESS` is not read); in an ordinary function it is a return
/// with a value exactly when one is written.
pub open spec fn result_shape(before: LowerBuilder, after: LowerBuilder, value: Option<Expr>) -> bool {
    let in_main = !is_try_handler_name(before.func.name@) && before.func.name@ == "main"@
        && before.runtime_exit_bb is Some;
    let zero = Value(before.func.next_value);
    &&& in_main && before.locals@.contains_key("ERROR"@) && is_success_value(value)
        ==> IrFunction::appended(&before.func, &after.func, seq![
            InstV::ConstInt { dest: zero, value: 0 },
            InstV::Store { ptr: before.locals@["ERROR"@].0, src: zero },
            InstV::Jump { target: before.runtime_exit_bb.unwrap() },
        ])
    &&& in_main && after.locals@.contains_key("ERROR"@) && after.runtime_exit_bb is Some ==> {
        let blk = after.func.code()[after.func.current as int];
        &&& last_inst(after.func) == (InstV::Jump { target: after.runtime_exit_bb.unwrap() })
        &&& blk.len() >= 2 && blk[blk.len() - 2] is Store
        &&& blk[blk.len() - 2]->Store_ptr == after.locals@["ERROR"@].0
    }
    &&& !is_try_handler_name(before.func.name@) && !(before.func.name@ == "main"@ && before.runtime_exit_bb is Some)
        ==> (last_inst(after.func) matches InstV::Return { value: v } && (v is Some <==> value is Some))
}

/// Return from a `try` handler: hands the value (0 without one) to the
/// runtime, which propagates it to the enclosing function, then returns.
fn emit_handler_return(builder: &mut LowerBuilder, v: Option<Value>)
    requires
        old(builder).wf(),
    ensures
        LowerBuilder::kept(old(builder), final(builder)),
        final(builder).func.spec_terminated(),
{
    let return_val = match v {
        Some(x) => x,
        None => {
            let zero = builder.new_value();
            builder.emit(Inst::ConstInt { dest: zero, value: 0 });
            zero
        },
    };
    let mut args: Vec<Value> = Vec::new();
    args.push(return_val);
    emit_call(builder, None, "__ocara_handler_set_return".to_owned(), args, IrType::Void);
    builder.emit(Inst::Return { value: v });
}

/// `emit value` in a generator: stores the value, records a new resume
/// point whose number becomes the state, returns `true`, and continues
/// lowering at the resume point.
fn lower_emit(builder: &mut LowerBuilder, value: &Expr, Ghost(node): Ghost<Stmt>)
    requires
        old(builder).wf(),
        decreases_to!(node => *value),
    ensures
        LowerBuilder::kept(old(builder), final(builder)),
        final(builder).func.current >= old(builder).func.code().len(),
        final(builder).message_resume_blocks@.len() > 0,
        final(builder).message_resume_blocks@.last().0 == final(builder).func.current,
    decreases old(builder).fda_len(), node, 1nat,
{
    let val = lower_expr(builder, value);
    builder.store_local("__value", val);
    let resume_bb = builder.new_block();
    builder.message_resume_blocks.push(resume_bb);
    let n = builder.message_resume_blocks.len();
    let k: i64 = if n < 0x7fff_ffff { n as i64 } else { 0x7fff_ffff };
    let k_val = builder.new_value();
    builder.emit(Inst::ConstInt { dest: k_val, value: k });
    builder.store_local("__state", k_val);
    let t = builder.new_value();
    builder.emit(Inst::ConstBool { dest: t, value: true });
    builder.emit(Inst::Return { value: Some(t) });
    builder.switch_to(&resume_bb);
}

/// `return [value]`: the value is copied if it is an escaping
/// `scoped`/`consumed`; the owned locals of all open blocks are released;
/// a generator becomes exhausted; a `try` handler hands the value to the
/// runtime; otherwise a plain return.
fn lower_return(builder: &mut LowerBuilder, value: &Option<Expr>, Ghost(node): Ghost<Stmt>)
    requires
        old(builder).wf(),
        forall|e: Expr| *value == Some(e) ==> decreases_to!(node => e),
    ensures
        LowerBuilder::kept(old(builder), final(builder)),
        final(builder).func.spec_terminated(),
        return_shape(*old(builder), *final(builder), *value),
    decreases old(builder).fda_len(), node, 1nat,
{
    if in_generator(builder) {
        emit_early_exit_drops(builder, 0);
        emit_generator_exhausted(builder);
        return;
    }
    let ghost b0 = *builder;
    let ghost mut mid = *builder;
    let ghost mut raw = Value(0);
    let v = match value {
        Some(e) => {
            let val = lower_expr(builder, e);
            proof {
                mid = *builder;
                raw = val;
            }
            Some(maybe_clone_escaping(builder, e, val))
        },
        None => None,
    };
    let ghost b1 = *builder;
    emit_early_exit_drops(builder, 0);
    if in_try_handler(builder) {
        emit_handler_return(builder, v);
    } else {
        let ghost b2 = *builder;
        builder.emit(Inst::Return { value: v });
        proof {
            if value is Some {
                crate::builder::lemma_extends_trans(mid.func, b1.func, b2.func);
                crate::builder::lemma_extends_trans(mid.func, b2.func, builder.func);
                assert(returns_value_of(b0, *builder, value.unwrap(), v.unwrap()));
            }
        }
    }
}

/// `result [value]` in a runtime block: in a `try` handler, like a return
/// from the handler; in the `main` assembled from runtime blocks, sets
/// `ERROR` (`SUCCESS` or no value meaning 0) and jumps to the exit label;
/// otherwise a plain return.
fn lower_result(builder: &mut LowerBuilder, value: &Option<Expr>, Ghost(node): Ghost<Stmt>)
    requires
        old(builder).wf(),
        forall|e: Expr| *value == Some(e) ==> decreases_to!(node => e),
    ensures
        LowerBuilder::kept(old(builder), final(builder)),
        final(builder).func.spec_terminated(),
        result_shape(*old(builder), *final(builder), *value),
    decreases old(builder).fda_len(), node, 1nat,
{
    proof {
        reveal_strlit("main");
        reveal_strlit("ERROR");
    }
    if in_try_handler(builder) {
        let v = match value {
            Some(e) => Some(lower_expr(builder, e)),
            None => None,
        };
        emit_handler_return(builder, v);
        return;
    }
    if str_eq(builder.func.name.as_str(), "main") && builder.runtime_exit_bb.is_some() {
        let is_success = match value {
            Some(Expr::Ident(n, _)) => str_eq(n.as_str(), "SUCCESS"),
            Some(_) => false,
            None => true,
        };
        proof {
            reveal_strlit("SUCCESS");
            assert(is_success == is_success_value(*value));
        }
        let ghost b0 = *builder;
        let result_val = if is_success {
            let zero = builder.new_value();
            builder.emit(Inst::ConstInt { dest: zero, value: 0 });
            zero
        } else {
            match value {
                Some(e) => lower_expr(builder, e),
                None => {
                    let zero = builder.new_value();
                    builder.emit(Inst::ConstInt { dest: zero, value: 0 });
                    zero
                },
            }
        };
        let error_slot = match builder.locals.get("ERROR") {
            Some(e) => Some(e.0),
            None => None,
        };
        match error_slot {
            Some(slot) => {
                let ghost b1 = *builder;
                builder.emit(Inst::Store { ptr: slot, src: result_val });
                let ghost b2 = *builder;
                match builder.runtime_exit_bb {
                    Some(exit_bb) => {
                        builder.emit(Inst::Jump { target: exit_bb });
                        proof {
                            if is_success {
                                assert(IrFunction::appended(&b0.func, &b1.func, seq![InstV::ConstInt { dest: result_val, value: 0 }]));
                                crate::builder::lemma_appended_twice(b0.func, b1.func, b2.func,
                                    seq![InstV::ConstInt { dest: result_val, value: 0 }], seq![InstV::Store { ptr: slot, src: result_val }]);
                                crate::builder::lemma_appended_twice(b0.func, b2.func, builder.func,
                                    seq![InstV::ConstInt { dest: result_val, value: 0 }].add(seq![InstV::Store { ptr: slot, src: result_val }]),
                                    seq![InstV::Jump { target: exit_bb }]);
                                assert(seq![InstV::ConstInt { dest: result_val, value: 0 }].add(seq![InstV::Store { ptr: slot, src: result_val }])
                                    .add(seq![InstV::Jump { target: exit_bb }]) =~= seq![
                                    InstV::ConstInt { dest: result_val, value: 0 },
                                    InstV::Store { ptr: slot, src: result_val },
                                    InstV::Jump { target: exit_bb },
                                ]);
                            }
                            let blk = builder.func.code()[builder.func.current as int];
                            assert(blk[blk.len() - 2] == (InstV::Store { ptr: slot, src: result_val }));
                        }
                        return;
                    },
                    None => {},
                }
            },
            None => {},
        }
        builder.emit(Inst::Return { value: Some(result_val) });
        return;
    }
    let v = match value {
        Some(e) => Some(lower_expr(builder, e)),
        None => None,
    };
    builder.emit(Inst::Return { value: v });
}

/// The shape of the code of a statement, by kind: a declaration starts
/// with the slot of its variable (`declares_slot_first`); an assignment
/// ends with its write (`assign_tail`); `return`, `result`, `raise` end as
/// `return_shape`, `result_shape`, `raise_shape` say; a `try` adds its body
/// and handler functions and runs them (`try_shape`); a `for` is a loop over a
/// generator's values or over indices (`for_in_shape`, `index_loop_shape`);
/// a `while` first jumps to its condition block, the first block it
/// creates; an `if` branches to its `then` block (see `if_shape`); inside a loop, `break` and `continue` release the owned locals
/// of the blocks opened in the loop and jump to its exit or its next
/// iteration.
pub open spec fn stmt_shape(before: LowerBuilder, after: LowerBuilder, stmt: Stmt) -> bool {
    match stmt {
        Stmt::Var { ty, .. } => crate::variables::declares_slot_first(before, after, ty),
        Stmt::Const { ty, .. } => crate::variables::declares_slot_first(before, after, ty),
        Stmt::Assign { target, .. } => crate::assignments::assign_tail(after, target),
        Stmt::Return { value, .. } => return_shape(before, after, value),
        Stmt::Result { value, .. } => result_shape(before, after, value),
        Stmt::Raise { .. } => crate::exceptions::raise_shape(after.func),
        Stmt::If { .. } => crate::control_flow::if_shape(after.func),
        Stmt::Break { .. } => before.loop_stack@.len() > 0 ==> last_inst(after.func)
            == (InstV::Jump { target: before.loop_stack@.last().1 })
            && crate::loops::releases_loop_blocks(before, after),
        Stmt::Continue { .. } => before.loop_stack@.len() > 0 ==> last_inst(after.func)
            == (InstV::Jump { target: before.loop_stack@.last().0 })
            && crate::loops::releases_loop_blocks(before, after),
        Stmt::Try { body, .. } => crate::exceptions::try_shape(before, after, body),
        Stmt::ForIn { iter, .. } => crate::loops::for_in_shape(before, after, iter),
        Stmt::ForMap { .. } => crate::loops::index_loop_shape(after),
        Stmt::While { .. } => crate::lower::first_emitted(before, after)
            == (crate::ir::InstV::Jump { target: crate::ir::BlockId(before.func.code().len() as usize) }),
        _ => true,
    }
}

/// Lowers one statement. A `return`, `result` or `raise` (and a `break` or
/// `continue` inside a loop) ends the current basic block; after a
/// compound statement, lowering continues in a block it created.
pub fn lower_stmt(builder: &mut LowerBuilder, stmt: &Stmt)
    requires
        old(builder).wf(),
    ensures
        LowerBuilder::kept(old(builder), final(builder)),
        (*stmt is Return || *stmt is Result || *stmt is Raise) ==> final(builder).func.spec_terminated(),
        (*stmt is Break || *stmt is Continue) && old(builder).loop_stack@.len() > 0
            ==> final(builder).func.spec_terminated(),
        (*stmt is While || *stmt is If || *stmt is Switch || *stmt is ForIn || *stmt is ForMap || *stmt is Try)
            ==> final(builder).func.current >= old(builder).func.code().len(),
        stmt_shape(*old(builder), *final(builder), *stmt),
    decreases old(builder).fda_len(), *stmt, 3nat,
{
    match stmt {
        Stmt::Var { name, ty, value, mutable, kind, .. } =>
            lower_var_node(builder, name.as_str(), ty, value, *mutable, *kind, Ghost(*stmt)),
        Stmt::Const { name, ty, value, .. } => lower_const_node(builder, name.as_str(), ty, value, Ghost(*stmt)),
        Stmt::If { condition, then_block, elseif, else_block, .. } =>
            lower_if_node(builder, condition, then_block, elseif, else_block, Ghost(*stmt)),
        Stmt::Switch { subject, cases, default, .. } => lower_switch_node(builder, subject, cases, default, Ghost(*stmt)),
        Stmt::While { condition, body, .. } => lower_while_node(builder, condition, body, Ghost(*stmt)),
        Stmt::ForIn { var, iter, body, .. } => lower_for_in_node(builder, var.as_str(), iter, body, Ghost(*stmt)),
        Stmt::ForMap { key, value, iter, body, .. } =>
            lower_for_map_node(builder, key.as_str(), value.as_str(), iter, body, Ghost(*stmt)),
        Stmt::Break { .. } => lower_break(builder),
        Stmt::Continue { .. } => lower_continue(builder),
        Stmt::Assign { target, value, .. } => lower_assign_node(builder, target, value, Ghost(*stmt)),
        Stmt::Expr(e) => {
            let _ = lower_expr(builder, e);
        },
        Stmt::Return { value, .. } => {
            proof {
                assert forall|e: Expr| *value == Some(e) implies decreases_to!(*stmt => e) by {
                    assert(decreases_to!(*value => (*value)->0));
                }
            }
            lower_return(builder, value, Ghost(*stmt));
        },
        Stmt::Result { value, .. } => {
            proof {
                assert forall|e: Expr| *value == Some(e) implies decreases_to!(*stmt => e) by {
                    assert(decreases_to!(*value => (*value)->0));
                }
            }
            lower_result(builder, value, Ghost(*stmt));
        },
        Stmt::Raise { value, .. } => lower_raise_node(builder, value, Ghost(*stmt)),
        Stmt::Try { body, handlers, .. } => lower_try_node(builder, body, handlers, Ghost(*stmt)),
        Stmt::Emit { value, .. } => lower_emit(builder, value, Ghost(*stmt)),
    }
}

} // verus!
