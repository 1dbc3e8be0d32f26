//! Lowering of `if`, `switch` and `while`.
use vstd::prelude::*;
use crate::ast::{Block, Expr, Stmt, SwitchCase};
use crate::block::lower_block;
use crate::builder::{LowerBuilder, OwnedLocalInfo, lemma_extends_refl};
use crate::ir::{BlockId, Inst, InstV, IrFunction, IrType, Value};
use crate::literals::lower_literal;
use crate::lower::{first_emitted, lower_expr};
use crate::names::{Duplicate, NameMap};

verus! {

/// The `elseif` arms of an `if` from position 0, then its `else`: each arm
/// tests its condition and runs its block; every path joins at `merge_bb`.
/// Arms are mutually exclusive, so each one starts from the owned locals as
/// they were before the whole `if` (`outer`), and they are restored after
/// the last arm.
fn lower_elseif_chain(
    builder: &mut LowerBuilder,
    elseif: &Vec<(Expr, Block)>,
    else_block: &Option<Block>,
    merge_bb: &BlockId,
    outer: &NameMap<OwnedLocalInfo>,
    Ghost(node): Ghost<Stmt>,
)
    requires
        old(builder).wf(),
        decreases_to!(node => *elseif),
        decreases_to!(node => *else_block),
    ensures
        LowerBuilder::kept(old(builder), final(builder)),
        final(builder).owned_locals.deep_view() == outer.deep_view(),
        elseif@.len() > 0 ==> cond_lowered_from(*old(builder), *final(builder), elseif@[0].0),
    decreases old(builder).fda_len(), node, 0nat,
{
    let mut i: usize = 0;
    let ghost mut m0 = *builder;
    let ghost mut v0 = Value(0);
    while i < elseif.len()
        invariant
            LowerBuilder::kept(old(builder), builder),
            builder.fda_len() == old(builder).fda_len(),
            decreases_to!(node => *elseif),
            i > 0 ==> crate::lower::expr_lowering_shape(*old(builder), m0, v0, elseif@[0].0)
                && crate::builder::extends(old(builder).func, m0.func)
                && crate::builder::extends(m0.func, builder.func),
            i == 0 ==> *builder == *old(builder),
        decreases elseif@.len() - i,
    {
        proof {
            assert(decreases_to!(*elseif => elseif@));
            assert(decreases_to!(elseif@ => elseif@[i as int]));
            assert(decreases_to!(elseif@[i as int] => elseif@[i as int].0));
            assert(decreases_to!(elseif@[i as int] => elseif@[i as int].1));
        }
        let ghost sb = *builder;
        let cond_val = lower_expr(builder, &elseif[i].0);
        let ghost c1 = *builder;
        let then_bb = builder.new_block();
        let next_bb = builder.new_block();
        builder.emit(Inst::Branch { cond: cond_val, then_bb, else_bb: next_bb });
        let ghost c2 = *builder;
        builder.switch_to(&then_bb);
        let ghost c3 = *builder;
        lower_block(builder, &elseif[i].1);
        let ghost c4 = *builder;
        if !builder.is_terminated() {
            builder.emit(Inst::Jump { target: *merge_bb });
        }
        builder.owned_locals = outer.duplicate();
        let ghost c5 = *builder;
        builder.switch_to(&next_bb);
        proof {
            assert(crate::builder::extends(c2.func, c3.func));
            assert(crate::builder::extends(c5.func, builder.func));
            crate::builder::lemma_extends_trans(c1.func, c2.func, c3.func);
            crate::builder::lemma_extends_trans(c1.func, c3.func, c4.func);
            crate::builder::lemma_extends_trans(c1.func, c4.func, c5.func);
            crate::builder::lemma_extends_trans(c1.func, c5.func, builder.func);
            if i == 0 {
                m0 = c1;
                v0 = cond_val;
            } else {
                crate::builder::lemma_extends_trans(m0.func, sb.func, c1.func);
                crate::builder::lemma_extends_trans(m0.func, c1.func, builder.func);
            }
        }
        i = i + 1;
    }
    let ghost e0 = *builder;
    match else_block {
        Some(blk) => {
            proof {
                assert(decreases_to!(*else_block => (*else_block)->0));
            }
            lower_block(builder, blk);
        },
        None => {},
    }
    if !builder.is_terminated() {
        builder.emit(Inst::Jump { target: *merge_bb });
    }
    builder.owned_locals = outer.duplicate();
    proof {
        if elseif@.len() > 0 {
            crate::builder::lemma_extends_trans(m0.func, e0.func, builder.func);
            assert(cond_lowered_from(*old(builder), *builder, elseif@[0].0));
        }
    }
}

/// The condition `cond` was lowered from `before` (into some `mid`), and
/// that code stands in `after`.
pub open spec fn cond_lowered_from(before: LowerBuilder, after: LowerBuilder, cond: Expr) -> bool {
    exists|mid: LowerBuilder, v: Value| #[trigger] crate::lower::expr_lowering_shape(before, mid, v, cond)
        && crate::builder::extends(before.func, mid.func) && crate::builder::extends(mid.func, after.func)
}

/// `stmt` was lowered into block `blk` of `after`, from a builder standing
/// on that block in the function and frame of `before`; its code stands in
/// `after`.
pub open spec fn stmt_opens_block(before: LowerBuilder, after: LowerBuilder, stmt: Stmt, blk: int) -> bool {
    exists|t0: LowerBuilder, t1: LowerBuilder| #[trigger] crate::statements::stmt_shape(t0, t1, stmt)
        && t0.func.current == blk && t0.func.wf() && t0.func.name == before.func.name
        && t0.frame_vars == before.frame_vars && crate::builder::extends(t1.func, after.func)
}

/// `stmt` was lowered into block `blk` of `after`: from a builder standing
/// on that block, and its code stands in `after`.
pub open spec fn stmt_lowered_into_block(after: LowerBuilder, stmt: Stmt, blk: int) -> bool {
    exists|t0: LowerBuilder, t1: LowerBuilder| #[trigger] crate::statements::stmt_shape(t0, t1, stmt)
        && t0.func.current == blk && crate::builder::extends(t1.func, after.func)
}

/// Law: for `if c { return n ... } ...` with an integer literal `n`, in an
/// ordinary function (neither a generator's resume function nor a `try`
/// handler), the block that the branch on `c` goes to when `c` holds (the
/// first block made for the `if`) is the one that sets the constant `n`,
/// the value the `then` branch returns.
pub proof fn law_then_target_holds_then_branch(before: LowerBuilder, after: LowerBuilder, cond_val: Value,
    stmt: Stmt, n: i64)
    requires
        first_emitted(before, after) == (InstV::Branch { cond: cond_val,
            then_bb: BlockId(before.func.code().len() as usize),
            else_bb: BlockId((before.func.code().len() + 1) as usize) }),
        stmt_opens_block(before, after, stmt, before.func.code().len() as int),
        stmt matches Stmt::Return { value: Some(Expr::Literal(crate::ast::Literal::Int(k), _)), .. } && k == n,
        !before.frame_vars@.contains_key("__state"@),
        !crate::statements::is_try_handler_name(before.func.name@),
    ensures
        ({
            let l = before.func.code().len() as int;
            exists|j: int| 0 <= j < after.func.code()[l].len() && (#[trigger] after.func.code()[l][j]) is ConstInt
                && after.func.code()[l][j]->ConstInt_value == n
        }),
{
    reveal(crate::lower::expr_lowering_shape);
    let l = before.func.code().len() as int;
    let (t0, t1) = choose|t0: LowerBuilder, t1: LowerBuilder| #[trigger] crate::statements::stmt_shape(t0, t1, stmt)
        && t0.func.current == l && t0.func.wf() && t0.func.name == before.func.name
        && t0.frame_vars == before.frame_vars && crate::builder::extends(t1.func, after.func);
    let e = stmt->Return_value.unwrap();
    let v = (crate::lower::last_inst(t1.func))->Return_value.unwrap();
    assert(crate::statements::returns_value_of(t0, t1, e, v));
    let (mid, val) = choose|mid: LowerBuilder, val: Value| #[trigger] crate::lower::expr_lowering_shape(t0, mid, val, e)
        && crate::builder::extends(t0.func, mid.func) && crate::builder::extends(mid.func, t1.func)
        && (v == val || v == Value(mid.func.next_value));
    let idx = choose|idx: usize| IrFunction::appended(&t0.func, &mid.func,
        seq![crate::literals::literal_inst(e->Literal_0, val, idx)]);
    assert(crate::literals::literal_inst(e->Literal_0, val, idx) == (InstV::ConstInt { dest: val, value: n }));
    let j = t0.func.code()[l].len() as int;
    assert(mid.func.code()[l][j] == (InstV::ConstInt { dest: val, value: n }));
    crate::builder::lemma_extends_trans(mid.func, t1.func, after.func);
    assert(after.func.code()[l][j] == mid.func.code()[l][j]);
    assert(after.func.code()[l][j] is ConstInt && after.func.code()[l][j]->ConstInt_value == n);
}

/// The condition `cond` was lowered into block `blk` of `after`, from a
/// builder standing on that block.
pub open spec fn cond_opens_block(after: LowerBuilder, cond: Expr, blk: int) -> bool {
    exists|t0: LowerBuilder| #[trigger] cond_lowered_from(t0, after, cond) && t0.func.current == blk
}

/// `if cond { then } elseif ... else { ... }`: the condition, then the
/// branches (see `lower_if_branches`), after which the owned locals are
/// as the condition left them.
pub fn lower_if(
    builder: &mut LowerBuilder,
    condition: &Expr,
    then_block: &Block,
    elseif: &Vec<(Expr, Block)>,
    else_block: &Option<Block>
)
    requires
        old(builder).wf(),
    ensures
        LowerBuilder::kept(old(builder), final(builder)),
        final(builder).func.current >= old(builder).func.code().len(),
        if_shape(final(builder).func),
        *condition is Ident ==> final(builder).owned_locals.deep_view() == old(builder).owned_locals.deep_view(),
{
    let ghost node = Stmt::If { condition: *condition, then_block: *then_block, elseif: *elseif, else_block: *else_block, span: vstd::pervasive::arbitrary() };
    proof {
        assert(decreases_to!(node => node->If_condition));
        assert(decreases_to!(node => node->If_then_block));
        assert(decreases_to!(node => node->If_elseif));
        assert(decreases_to!(node => node->If_else_block));
    }
    lower_if_node(builder, condition, then_block, elseif, else_block, Ghost(node))
}

/// The lowering behind `lower_if`; `node` is the statement or expression being
/// lowered, which bounds the recursion.
pub(crate) fn lower_if_node(
    builder: &mut LowerBuilder,
    condition: &Expr,
    then_block: &Block,
    elseif: &Vec<(Expr, Block)>,
    else_block: &Option<Block>,
    Ghost(node): Ghost<Stmt>,
)
    requires
        old(builder).wf(),
        decreases_to!(node => *condition),
        decreases_to!(node => *then_block),
        decreases_to!(node => *elseif),
        decreases_to!(node => *else_block),
    ensures
        LowerBuilder::kept(old(builder), final(builder)),
        final(builder).func.current >= old(builder).func.code().len(),
        if_shape(final(builder).func),
        *condition is Ident ==> final(builder).owned_locals.deep_view() == old(builder).owned_locals.deep_view(),
    decreases old(builder).fda_len(), node, 2nat,
{
    let cond_val = lower_expr(builder, condition);
    let ghost mid = builder.func;
    lower_if_branches(builder, cond_val, then_block, elseif, else_block, Ghost(node));
    proof {
        let k = mid.current as int;
        let j = mid.code()[k].len() as int;
        let f = builder.func;
        assert(0 <= k < f.current - 2);
        assert(0 <= j < f.code()[k].len());
        assert(f.code()[k][j] is Branch);
        assert(f.code()[k][j]->Branch_then_bb.0 == f.current - 2);
    }
}

/// An `if` whose lowering continues in its join block `m` (the current
/// block): an earlier block branches on the condition to the blocks
/// `m - 2` (the `then` branch) and `m - 1` (the rest), made together with
/// the join block.
pub open spec fn if_shape(f: crate::ir::IrFunction) -> bool {
    let m = f.current as int;
    exists|k: int, j: int| 0 <= k < m - 2 && 0 <= j < f.code()[k].len()
        && (#[trigger] f.code()[k][j]) is Branch
        && f.code()[k][j]->Branch_then_bb.0 == m - 2 && f.code()[k][j]->Branch_else_bb.0 == m - 1
}

/// The branches of an `if` whose condition is `cond_val`: they are mutually
/// exclusive; each starts from the owned locals as they were before the
/// branches, and after the `if` they are exactly as before them (up to
/// their deep view): a release done on one path never hides the value from
/// the others.
pub fn lower_if_branches(
    builder: &mut LowerBuilder,
    cond_val: crate::ir::Value,
    then_block: &Block,
    elseif: &Vec<(Expr, Block)>,
    else_block: &Option<Block>,
    Ghost(node): Ghost<Stmt>,
)
    requires
        old(builder).wf(),
        decreases_to!(node => *then_block),
        decreases_to!(node => *elseif),
        decreases_to!(node => *else_block),
    ensures
        LowerBuilder::kept(old(builder), final(builder)),
        final(builder).func.current == old(builder).func.code().len() + 2,
        final(builder).owned_locals.deep_view() == old(builder).owned_locals.deep_view(),
        first_emitted(*old(builder), *final(builder)) == (InstV::Branch { cond: cond_val,
            then_bb: BlockId(old(builder).func.code().len() as usize),
            else_bb: BlockId((old(builder).func.code().len() + 1) as usize) }),
        final(builder).func.code()[old(builder).func.current as int].len()
            > old(builder).func.code()[old(builder).func.current as int].len(),
        then_block.stmts@.len() > 0 ==> stmt_opens_block(*old(builder), *final(builder), then_block.stmts@[0],
            old(builder).func.code().len() as int),
        elseif@.len() > 0 ==> cond_opens_block(*final(builder), elseif@[0].0, old(builder).func.code().len() + 1int),
        elseif@.len() == 0 && then_block.stmts@.len() == 0 ==> (*else_block matches Some(eb) ==> (eb.stmts@.len() > 0 ==> stmt_lowered_into_block(
            *final(builder), eb.stmts@[0], old(builder).func.code().len() + 1int))),
    decreases old(builder).fda_len(), node, 1nat,
{
    let then_bb = builder.new_block();
    let else_bb = builder.new_block();
    let merge_bb = builder.new_block();
    builder.emit(Inst::Branch { cond: cond_val, then_bb, else_bb });
    let ghost b_branch = *builder;
    proof {
        lemma_extends_refl(b_branch.func);
    }
    let outer = builder.owned_locals.duplicate();
    assert(outer.deep_view() == builder.owned_locals.deep_view());
    builder.switch_to(&then_bb);
    let ghost t_start = *builder;
    lower_block(builder, then_block);
    let ghost t_end = *builder;
    if !builder.is_terminated() {
        builder.emit(Inst::Jump { target: merge_bb });
    }
    builder.owned_locals = outer.duplicate();
    let ghost t_out = *builder;
    builder.switch_to(&else_bb);
    let ghost e_start = *builder;
    let ghost mut e_first = *builder;
    let ghost mut e_mid = *builder;
    if elseif.len() > 0 {
        lower_elseif_chain(builder, elseif, else_block, &merge_bb, &outer, Ghost(node));
    } else {
        match else_block {
            Some(blk) => {
                proof {
                    assert(decreases_to!(*else_block => (*else_block)->0));
                }
                lower_block(builder, blk);
                proof {
                    e_mid = *builder;
                }
                if !builder.is_terminated() {
                    builder.emit(Inst::Jump { target: merge_bb });
                }
                proof {
                    crate::builder::lemma_extends_trans(e_mid.func, e_mid.func, builder.func);
                }
            },
            None => {
                builder.emit(Inst::Jump { target: merge_bb });
            },
        }
        builder.owned_locals = outer.duplicate();
    }
    let ghost e_end = *builder;
    builder.switch_to(&merge_bb);
    proof {
        let l = old(builder).func.code().len() as int;
        assert(crate::builder::extends(t_out.func, e_start.func));
        assert(crate::builder::extends(e_end.func, builder.func));
        crate::builder::lemma_extends_trans(t_end.func, t_out.func, e_start.func);
        crate::builder::lemma_extends_trans(t_end.func, e_start.func, e_end.func);
        crate::builder::lemma_extends_trans(t_end.func, e_end.func, builder.func);
        assert(t_start.func.current == l);
        assert(t_start.func.code()[l].len() == 0);
        assert(!t_start.func.spec_terminated());
        if then_block.stmts@.len() > 0 {
            let (t0, t1) = choose|t0: LowerBuilder, t1: LowerBuilder| #[trigger] crate::statements::stmt_shape(t0, t1,
                then_block.stmts@[0]) && t0.func == t_start.func && t0.frame_vars == t_start.frame_vars
                && crate::builder::extends(t1.func, t_end.func);
            crate::builder::lemma_extends_trans(t1.func, t_end.func, builder.func);
            assert(stmt_opens_block(*old(builder), *builder, then_block.stmts@[0], l));
        }
        assert(e_start.func.current == l + 1);
        if elseif@.len() > 0 {
            let (mid, v) = choose|mid: LowerBuilder, v: Value| #[trigger] crate::lower::expr_lowering_shape(e_start, mid, v,
                elseif@[0].0) && crate::builder::extends(e_start.func, mid.func)
                && crate::builder::extends(mid.func, e_end.func);
            crate::builder::lemma_extends_trans(mid.func, e_end.func, builder.func);
            assert(cond_lowered_from(e_start, *builder, elseif@[0].0));
            assert(cond_opens_block(*builder, elseif@[0].0, l + 1));
        } else if else_block is Some && then_block.stmts@.len() == 0 {
            let eb = else_block->0;
            assert(t_end.func == t_start.func);
            assert(!e_start.func.spec_terminated());
            if eb.stmts@.len() > 0 {
                let (t0, t1) = choose|t0: LowerBuilder, t1: LowerBuilder| #[trigger] crate::statements::stmt_shape(t0, t1,
                    eb.stmts@[0]) && t0.func == e_start.func && t0.frame_vars == e_start.frame_vars
                    && crate::builder::extends(t1.func, e_mid.func);
                crate::builder::lemma_extends_trans(t1.func, e_mid.func, e_end.func);
                crate::builder::lemma_extends_trans(t1.func, e_end.func, builder.func);
                assert(stmt_lowered_into_block(*builder, eb.stmts@[0], l + 1));
            }
        }
    }
}

/// `switch subject { case literal { ... } ... default { ... } }`: the
/// subject, then the cases: each compares the subject with its pattern
/// and branches to its body or to the next test (see `switch_tests`).
pub fn lower_switch(
    builder: &mut LowerBuilder,
    subject: &Expr,
    cases: &Vec<SwitchCase>,
    default: &Option<Block>
)
    requires
        old(builder).wf(),
    ensures
        LowerBuilder::kept(old(builder), final(builder)),
        final(builder).func.current >= old(builder).func.code().len(),
        exists|subj: Value, l: int, t: Seq<int>, j: Seq<int>| l >= old(builder).func.code().len()
            && #[trigger] switch_tests(final(builder).func, l, subj, cases@, t, j),
{
    let ghost node = Stmt::Switch { subject: *subject, cases: *cases, default: *default, span: vstd::pervasive::arbitrary() };
    proof {
        assert(decreases_to!(node => node->Switch_subject));
        assert(decreases_to!(node => node->Switch_cases));
        assert(decreases_to!(node => node->Switch_default));
    }
    lower_switch_node(builder, subject, cases, default, Ghost(node))
}

/// The lowering behind `lower_switch`; `node` is the statement or expression being
/// lowered, which bounds the recursion.
pub(crate) fn lower_switch_node(
    builder: &mut LowerBuilder,
    subject: &Expr,
    cases: &Vec<SwitchCase>,
    default: &Option<Block>,
    Ghost(node): Ghost<Stmt>,
)
    requires
        old(builder).wf(),
        decreases_to!(node => *subject),
        decreases_to!(node => *cases),
        decreases_to!(node => *default),
    ensures
        LowerBuilder::kept(old(builder), final(builder)),
        final(builder).func.current >= old(builder).func.code().len(),
        exists|subj: Value, l: int, t: Seq<int>, j: Seq<int>| l >= old(builder).func.code().len()
            && #[trigger] switch_tests(final(builder).func, l, subj, cases@, t, j),
    decreases old(builder).fda_len(), node, 2nat,
{
    let subj = lower_expr(builder, subject);
    let ghost mid = builder.func;
    lower_switch_cases(builder, subj, cases, default, Ghost(node));
    proof {
        let (t, j) = choose|t: Seq<int>, j: Seq<int>| t[0] == mid.current
            && #[trigger] switch_tests(builder.func, mid.code().len() as int, subj, cases@, t, j);
        assert(switch_tests(builder.func, mid.code().len() as int, subj, cases@, t, j));
    }
}

/// The tests of a `switch` on `subj` with `cases` in `f`: test `i` sits in
/// block `t[i]` at position `j[i]`, right after the constant of the
/// pattern of case `i`: it compares the subject with that constant as
/// integers and branches to a new block (the case's body) when equal, else
/// to block `t[i + 1]`, the next test (the default after the last one).
pub open spec fn switch_tests(f: IrFunction, before_len: int, subj: Value, cases: Seq<SwitchCase>, t: Seq<int>, j: Seq<int>) -> bool {
    &&& t.len() == cases.len() + 1
    &&& j.len() == cases.len()
    &&& forall|i: int| 0 <= i < cases.len() ==> #[trigger] switch_test_at(f, before_len, subj, cases[i], t[i], j[i], t[i + 1])
}

/// Test of one case: see `switch_tests`.
pub open spec fn switch_test_at(f: IrFunction, before_len: int, subj: Value, case: SwitchCase, t: int, j: int, next: int) -> bool {
    let blk = f.code()[t];
    let test = blk[j];
    let branch = blk[j + 1];
    &&& 0 <= t < f.code().len()
    &&& 1 <= j && j + 1 < blk.len()
    &&& exists|idx: usize| blk[j - 1] == crate::literals::literal_inst(case.pattern, test->CmpEq_rhs, idx)
    &&& test is CmpEq && test->CmpEq_lhs == subj && test->CmpEq_ty == IrType::I64
    &&& branch is Branch && branch->Branch_cond == test->CmpEq_dest
    &&& branch->Branch_then_bb.0 >= before_len
    &&& branch->Branch_else_bb.0 == next
}

/// A test of one case stays when code is only added.
proof fn lemma_switch_test_kept(f: IrFunction, g: IrFunction, before_len: int, subj: Value, case: SwitchCase, t: int, j: int, next: int)
    requires
        switch_test_at(f, before_len, subj, case, t, j, next),
        crate::builder::extends(f, g),
    ensures
        switch_test_at(g, before_len, subj, case, t, j, next),
{
    assert(g.code()[t][j] == f.code()[t][j]);
    assert(g.code()[t][j + 1] == f.code()[t][j + 1]);
    assert(g.code()[t][j - 1] == f.code()[t][j - 1]);
}

/// The cases of a `switch` on value `subj`: each case compares the subject
/// with its literal; cases are mutually exclusive and each starts from the
/// owned locals as they were before the cases, which are restored after
/// the `switch`.
pub fn lower_switch_cases(
    builder: &mut LowerBuilder,
    subj: crate::ir::Value,
    cases: &Vec<SwitchCase>,
    default: &Option<Block>,
    Ghost(node): Ghost<Stmt>,
)
    requires
        old(builder).wf(),
        decreases_to!(node => *cases),
        decreases_to!(node => *default),
    ensures
        LowerBuilder::kept(old(builder), final(builder)),
        final(builder).func.current == old(builder).func.code().len(),
        final(builder).owned_locals.deep_view() == old(builder).owned_locals.deep_view(),
        exists|t: Seq<int>, j: Seq<int>| t[0] == old(builder).func.current
            && #[trigger] switch_tests(final(builder).func, old(builder).func.code().len() as int, subj, cases@, t, j),
    decreases old(builder).fda_len(), node, 1nat,
{
    let merge_bb = builder.new_block();
    let outer = builder.owned_locals.duplicate();
    let mut i: usize = 0;
    let ghost mut t: Seq<int> = seq![old(builder).func.current as int];
    let ghost mut j: Seq<int> = Seq::empty();
    while i < cases.len()
        invariant
            LowerBuilder::kept(old(builder), builder),
            builder.fda_len() == old(builder).fda_len(),
            decreases_to!(node => *cases),
            merge_bb.0 == old(builder).func.code().len(),
            merge_bb.0 < builder.func.code().len(),
            i <= cases@.len(),
            t.len() == i + 1,
            j.len() == i,
            t[0] == old(builder).func.current,
            builder.func.current == t[i as int],
            forall|k: int| 0 <= k < i ==> #[trigger] switch_test_at(builder.func, old(builder).func.code().len() as int,
                subj, cases@[k], t[k], j[k], t[k + 1]),
        decreases cases@.len() - i,
    {
        let ghost b_start = builder.func;
        proof {
            assert(decreases_to!(*cases => cases@));
            assert(decreases_to!(cases@ => cases@[i as int]));
            assert(decreases_to!(cases@[i as int] => cases@[i as int].body));
        }
        let body_bb = builder.new_block();
        let next_bb = builder.new_block();
        let ghost pos = builder.func.code()[builder.func.current as int].len() as int;
        let ghost b_start_lit = builder.func;
        let pat_val = lower_literal(builder, &cases[i].pattern);
        let ghost b_lit = builder.func;
        let test = builder.new_value();
        builder.emit(Inst::CmpEq { dest: test, lhs: subj, rhs: pat_val, ty: IrType::I64 });
        builder.emit(Inst::Branch { cond: test, then_bb: body_bb, else_bb: next_bb });
        let ghost b_tested = builder.func;
        proof {
            let cur = t[i as int];
            let blk = b_tested.code()[cur];
            assert(blk[pos + 1] == (InstV::CmpEq { dest: test, lhs: subj, rhs: pat_val, ty: IrType::I64 }));
            assert(blk[pos + 2] == (InstV::Branch { cond: test, then_bb: body_bb, else_bb: next_bb }));
            let idx = choose|idx: usize| IrFunction::appended(&b_start_lit, &b_lit, seq![crate::literals::literal_inst(cases@[i as int].pattern, pat_val, idx)]);
            assert(blk[pos] == crate::literals::literal_inst(cases@[i as int].pattern, pat_val, idx));
            assert(switch_test_at(b_tested, old(builder).func.code().len() as int, subj, cases@[i as int], cur, pos + 1, next_bb.0 as int));
        }
        builder.switch_to(&body_bb);
        lower_block(builder, &cases[i].body);
        if !builder.is_terminated() {
            builder.emit(Inst::Jump { target: merge_bb });
        }
        builder.owned_locals = outer.duplicate();
        builder.switch_to(&next_bb);
        proof {
            assert(crate::builder::extends(b_tested, builder.func));
            assert(crate::builder::extends(b_start, builder.func));
            lemma_switch_test_kept(b_tested, builder.func, old(builder).func.code().len() as int, subj, cases@[i as int],
                t[i as int], pos + 1, next_bb.0 as int);
            let t2 = t.push(next_bb.0 as int);
            let j2 = j.push(pos + 1);
            assert forall|k: int| 0 <= k < i + 1 implies #[trigger] switch_test_at(builder.func, old(builder).func.code().len() as int,
                subj, cases@[k], t2[k], j2[k], t2[k + 1]) by {
                if k < i {
                    assert(t2[k] == t[k] && j2[k] == j[k] && t2[k + 1] == t[k + 1]);
                    lemma_switch_test_kept(b_start, builder.func, old(builder).func.code().len() as int, subj, cases@[k],
                        t[k], j[k], t[k + 1]);
                }
            }
            t = t2;
            j = j2;
        }
        i = i + 1;
    }
    let ghost b_cases = builder.func;
    match default {
        Some(blk) => {
            proof {
                assert(decreases_to!(*default => (*default)->0));
            }
            lower_block(builder, blk);
        },
        None => {},
    }
    if !builder.is_terminated() {
        builder.emit(Inst::Jump { target: merge_bb });
    }
    builder.owned_locals = outer.duplicate();
    builder.switch_to(&merge_bb);
    proof {
        assert(crate::builder::extends(b_cases, builder.func));
        assert forall|k: int| 0 <= k < cases@.len() implies #[trigger] switch_test_at(builder.func, old(builder).func.code().len() as int,
            subj, cases@[k], t[k], j[k], t[k + 1]) by {
            lemma_switch_test_kept(b_cases, builder.func, old(builder).func.code().len() as int, subj, cases@[k],
                t[k], j[k], t[k + 1]);
        }
        assert(switch_tests(builder.func, old(builder).func.code().len() as int, subj, cases@, t, j));
    }
}

/// Enters a loop whose `continue` goes to `continue_bb` and `break` to
/// `break_bb`; returns the loop depth to restore on exit.
pub fn enter_loop(builder: &mut LowerBuilder, continue_bb: BlockId, break_bb: BlockId) -> (r: usize)
    ensures
        r == old(builder).loop_depth,
        final(builder).loop_stack@ == old(builder).loop_stack@.push(
            (continue_bb, break_bb, old(builder).block_scope_stack@.len() as usize)),
        final(builder).func == old(builder).func,
        final(builder).func_default_args == old(builder).func_default_args,
        final(builder).block_scope_stack == old(builder).block_scope_stack,
        final(builder).loop_depth >= old(builder).loop_depth,
        final(builder).var_class == old(builder).var_class,
        final(builder).map_vars == old(builder).map_vars,
        final(builder).module == old(builder).module,
{
    let depth = builder.loop_depth;
    let n = builder.block_scope_stack.len();
    builder.loop_stack.push((continue_bb, break_bb, n));
    if depth < usize::MAX {
        builder.loop_depth = depth + 1;
    }
    depth
}

/// Leaves the loop entered by `enter_loop`.
pub fn exit_loop(builder: &mut LowerBuilder, depth: usize)
    requires
        old(builder).loop_stack@.len() > 0,
    ensures
        final(builder).loop_depth == depth,
        final(builder).loop_stack@ == old(builder).loop_stack@.drop_last(),
        final(builder).func == old(builder).func,
        final(builder).func_default_args == old(builder).func_default_args,
        final(builder).block_scope_stack == old(builder).block_scope_stack,
        final(builder).var_class == old(builder).var_class,
        final(builder).map_vars == old(builder).map_vars,
        final(builder).module == old(builder).module,
{
    builder.loop_depth = depth;
    let _ = builder.loop_stack.pop();
}

/// `while cond { body }`: the condition is evaluated at the head of the
/// loop; `continue` re-evaluates it and `break` leaves the loop.
pub fn lower_while(builder: &mut LowerBuilder, condition: &Expr, body: &Block)
    requires
        old(builder).wf(),
    ensures
        LowerBuilder::kept(old(builder), final(builder)),
        final(builder).func.current == old(builder).func.code().len() + 2,
        first_emitted(*old(builder), *final(builder))
            == (InstV::Jump { target: BlockId(old(builder).func.code().len() as usize) }),
{
    let ghost node = Stmt::While { condition: *condition, body: *body, span: vstd::pervasive::arbitrary() };
    proof {
        assert(decreases_to!(node => node->While_condition));
        assert(decreases_to!(node => node->While_body));
    }
    lower_while_node(builder, condition, body, Ghost(node))
}

/// The lowering behind `lower_while`; `node` is the statement or expression being
/// lowered, which bounds the recursion.
pub(crate) fn lower_while_node(builder: &mut LowerBuilder, condition: &Expr, body: &Block, Ghost(node): Ghost<Stmt>)
    requires
        old(builder).wf(),
        decreases_to!(node => *condition),
        decreases_to!(node => *body),
    ensures
        LowerBuilder::kept(old(builder), final(builder)),
        final(builder).func.current == old(builder).func.code().len() + 2,
        first_emitted(*old(builder), *final(builder))
            == (InstV::Jump { target: BlockId(old(builder).func.code().len() as usize) }),
    decreases old(builder).fda_len(), node, 1nat,
{
    let cond_bb = builder.new_block();
    let body_bb = builder.new_block();
    let merge_bb = builder.new_block();
    builder.emit(Inst::Jump { target: cond_bb });
    let ghost b_jump = *builder;
    proof {
        lemma_extends_refl(b_jump.func);
    }
    builder.switch_to(&cond_bb);
    let cond_val = lower_expr(builder, condition);
    builder.emit(Inst::Branch { cond: cond_val, then_bb: body_bb, else_bb: merge_bb });
    builder.switch_to(&body_bb);
    let depth = enter_loop(builder, cond_bb, merge_bb);
    lower_block(builder, body);
    exit_loop(builder, depth);
    proof {
        assert(builder.loop_stack@ =~= old(builder).loop_stack@);
    }
    if !builder.is_terminated() {
        builder.emit(Inst::Jump { target: cond_bb });
    }
    builder.switch_to(&merge_bb);
}

} // verus!
