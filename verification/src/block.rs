//! Lowering of blocks.
use vstd::prelude::*;
use crate::ast::Block;
use crate::builder::LowerBuilder;
use crate::names::Duplicate;
use crate::ownership::{drop_consumed_used_in, emit_scope_drops};
use crate::statements::lower_stmt;

verus! {

/// Lowers the statements of `block` until one terminates the current basic
/// block. Each `consumed` local is released right after its single use; at
/// a normal end of the block, its owned locals are released. The bindings
/// of locals are restored as they were before the block (names declared in
/// it disappear, shadowed names come back), and the block's scope frame is
/// removed.
pub fn lower_block(builder: &mut LowerBuilder, block: &Block)
    requires
        old(builder).wf(),
    ensures
        LowerBuilder::kept(old(builder), final(builder)),
        final(builder).block_scope_stack@ == old(builder).block_scope_stack@,
        final(builder).locals.deep_view() == old(builder).locals.deep_view(),
        block.stmts@.len() == 0 ==> final(builder).var_class == old(builder).var_class
            && final(builder).map_vars == old(builder).map_vars
            && final(builder).func == old(builder).func,
        block.stmts@.len() > 0 && !old(builder).func.spec_terminated() ==> first_stmt_lowered(*old(builder),
            *final(builder), block.stmts@[0]),
    decreases old(builder).fda_len(), *block, 2nat,
{
    let ghost stack0 = builder.block_scope_stack@;
    builder.block_scope_stack.push(Vec::new());
    let ghost b1 = *builder;
    assert(b1.block_scope_stack@.drop_last() =~= stack0);
    let locals_snapshot = builder.locals.duplicate();
    let mut i: usize = 0;
    let ghost mut started = false;
    let ghost mut t0 = *builder;
    let ghost mut t1 = *builder;
    while i < block.stmts.len()
        invariant
            !started ==> i == 0 && builder.func == old(builder).func && builder.frame_vars == old(builder).frame_vars,
            started ==> crate::statements::stmt_shape(t0, t1, block.stmts@[0]) && t0.func == old(builder).func
                && t0.frame_vars == old(builder).frame_vars
                && crate::builder::extends(t1.func, builder.func),
            builder.wf(),
            builder.func_default_args == old(builder).func_default_args,
            builder.fda_len() == old(builder).fda_len(),
            LowerBuilder::same_scopes(&b1, builder),
            LowerBuilder::same_signature(old(builder), builder),
            crate::builder::functions_grow(old(builder).module, builder.module),
                crate::builder::extends(old(builder).func, builder.func),
            b1.block_scope_stack@.drop_last() == stack0,
            b1.block_scope_stack@.len() == stack0.len() + 1,
            stack0 == old(builder).block_scope_stack@,
            block.stmts@.len() == 0 ==> builder.var_class == old(builder).var_class
                && builder.map_vars == old(builder).map_vars
                && builder.func == old(builder).func,
        ensures
            started || old(builder).func.spec_terminated() || block.stmts@.len() == 0,
        decreases block.stmts@.len() - i,
    {
        if builder.is_terminated() {
            break;
        }
        let ghost s0 = *builder;
        proof {
            assert(decreases_to!(*block => block.stmts));
            assert(decreases_to!(block.stmts => block.stmts@));
            assert(decreases_to!(block.stmts@ => block.stmts@[i as int]));
        }
        lower_stmt(builder, &block.stmts[i]);
        let ghost s1 = *builder;
        if !builder.is_terminated() {
            drop_consumed_used_in(builder, &block.stmts[i]);
        }
        proof {
            if !started {
                t0 = s0;
                t1 = s1;
                started = true;
            } else {
                crate::builder::lemma_extends_trans(t1.func, s0.func, s1.func);
            }
            crate::builder::lemma_extends_trans(t1.func, s1.func, builder.func);
        }
        i = i + 1;
    }
    let ghost b_end = *builder;
    if !builder.is_terminated() {
        emit_scope_drops(builder, block);
    }
    builder.locals = locals_snapshot;
    let _ = builder.block_scope_stack.pop();
    proof {
        assert(builder.block_scope_stack@ =~= stack0);
        if started {
            crate::builder::lemma_extends_trans(t1.func, b_end.func, builder.func);
            assert(first_stmt_lowered(*old(builder), *builder, block.stmts@[0]));
        }
    }
}

/// The first statement of a block was lowered from a builder on the same
/// function as `before`, and that code stands in `after`.
pub open spec fn first_stmt_lowered(before: LowerBuilder, after: LowerBuilder, stmt: crate::ast::Stmt) -> bool {
    exists|t0: LowerBuilder, t1: LowerBuilder| #[trigger] crate::statements::stmt_shape(t0, t1, stmt)
        && t0.func == before.func && t0.frame_vars == before.frame_vars && crate::builder::extends(t1.func, after.func)
}

} // verus!
