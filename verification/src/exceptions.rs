//! Lowering of `raise` and `try`/`on`.
use vstd::prelude::*;
use crate::ast::{Block, Expr, OnClause, Stmt};
use crate::block::lower_block;
use crate::builder::{lemma_extends_refl, lemma_extends_trans, succ, LowerBuilder};
use crate::captures::{block_caps, collect_captures, lemma_names_of_empty_iff};
use crate::ir::{BlockId, Inst, InstV, IrFunction, IrModule, IrParam, IrType, Value};
use crate::lower::{call_value, emit_call, lower_expr};
use crate::names::{Duplicate, NameSet};
use crate::text::{decimal_spec, str_eq, with_number};

verus! {

/// `raise value`: fails with the value and, for `raise use Class(...)`, the
/// class name (0 otherwise), then terminates the block (a dummy return).
pub fn lower_raise(builder: &mut LowerBuilder, value: &Expr)
    requires
        old(builder).wf(),
    ensures
        LowerBuilder::kept(old(builder), final(builder)),
        final(builder).func.spec_terminated(),
        raise_shape(final(builder).func),
{
    let ghost node = Stmt::Raise { value: *value, span: vstd::pervasive::arbitrary() };
    proof {
        assert(decreases_to!(node => node->Raise_value));
    }
    lower_raise_node(builder, value, Ghost(node))
}

/// The lowering behind `lower_raise`; `node` is the statement or expression being
/// lowered, which bounds the recursion.
pub(crate) fn lower_raise_node(builder: &mut LowerBuilder, value: &Expr, Ghost(node): Ghost<Stmt>)
    requires
        old(builder).wf(),
        decreases_to!(node => *value),
    ensures
        LowerBuilder::kept(old(builder), final(builder)),
        final(builder).func.spec_terminated(),
        raise_shape(final(builder).func),
    decreases old(builder).fda_len(), node, 1nat,
{
    let val = lower_expr(builder, value);
    let type_name_val = match value {
        Expr::New { class, .. } => {
            let idx = builder.module.intern_string(class.as_str());
            let d = builder.new_value();
            builder.emit(Inst::ConstStr { dest: d, idx });
            d
        },
        _ => {
            let d = builder.new_value();
            builder.emit(Inst::ConstInt { dest: d, value: 0 });
            d
        },
    };
    let mut args: Vec<Value> = Vec::new();
    args.push(val);
    args.push(type_name_val);
    emit_call(builder, None, "__ocara_fail".to_owned(), args, IrType::Void);
    let ghost b_fail = builder.func;
    let ghost k = b_fail.code()[b_fail.current as int].len() - 1;
    let dummy = if builder.func.ret_ty != IrType::Void {
        let z = builder.new_value();
        builder.emit(Inst::ConstInt { dest: z, value: 0 });
        Some(z)
    } else {
        None
    };
    builder.emit(Inst::Return { value: dummy });
    proof {
        let cur = b_fail.current as int;
        assert(builder.func.code()[cur][k] == b_fail.code()[cur][k]);
    }
}

/// The current block of `f` ends with the runtime's failure call (on the
/// raised value and its class name) and a dummy return (with a 0 when the
/// function returns a value).
pub open spec fn raise_shape(f: crate::ir::IrFunction) -> bool {
    let b = f.code()[f.current as int];
    let n = b.len() as int;
    let k = if f.ret_ty == IrType::Void { n - 2 } else { n - 3 };
    &&& k >= 0
    &&& b[k] is Call && b[k]->Call_func == "__ocara_fail"@ && b[k]->Call_args.len() == 2
    &&& b.last() is Return
}

/// A dummy return value for a function of type `ret_ty` (none for void).
fn dummy_return(b: &mut LowerBuilder, ret_ty: IrType)
    requires
        old(b).wf(),
    ensures
        LowerBuilder::kept(old(b), final(b)),
{
    let v = if ret_ty != IrType::Void {
        let d = b.new_value();
        b.emit(Inst::ConstInt { dest: d, value: 0 });
        Some(d)
    } else {
        None
    };
    b.emit(Inst::Return { value: v });
}

/// The function of the body of a `try`: it receives the captured variables
/// (from a heap array) when there are any, runs the body, and returns.
fn lower_try_body(builder: &mut LowerBuilder, body: &Block, body_fn_name: String, captures: &Vec<(String, IrType)>, Ghost(node): Ghost<Stmt>)
    requires
        old(builder).wf(),
        decreases_to!(node => *body),
    ensures
        LowerBuilder::kept(old(builder), final(builder)),
        final(builder).module.functions@.len() > old(builder).module.functions@.len(),
        final(builder).module.functions@.last().name@ == body_fn_name@,
        final(builder).func == old(builder).func,
        final(builder).module.functions@.last().ret_ty == IrType::Void,
        captures@.len() == 0 ==> final(builder).module.functions@.last().params@.len() == 0,
        captures@.len() > 0 ==> {
            let ps = final(builder).module.functions@.last().params@;
            &&& ps.len() == 1
            &&& ps[0].name@ == "__captures_ptr"@
            &&& ps[0].ty == IrType::Ptr
        },
    decreases old(builder).fda_len(), node, 0nat,
{
    let ghost fname = body_fn_name@;
    let mut ir_params: Vec<IrParam> = Vec::new();
    if captures.len() > 0 {
        ir_params.push(IrParam { name: "__captures_ptr".to_owned(), ty: IrType::Ptr, slot: Value(0) });
    }
    let mut bb = LowerBuilder::new(IrModule::new(""), body_fn_name, ir_params, IrType::Void);
    std::mem::swap(&mut bb.module, &mut builder.module);
    let ghost m0 = bb.module;
    bb.fn_ret_types = builder.fn_ret_types.duplicate();
    bb.var_class = builder.var_class.duplicate();
    bb.elem_types = builder.elem_types.duplicate();
    bb.map_vars = builder.map_vars.duplicate();
    bb.current_class = builder.current_class.clone();
    bb.parent_class = builder.parent_class.clone();
    if captures.len() > 0 {
        let captures_ptr = bb.new_value();
        let mut params: Vec<IrParam> = Vec::new();
        params.push(IrParam { name: "__captures_ptr".to_owned(), ty: IrType::Ptr, slot: captures_ptr });
        bb.func.params = params;
        let mut idx: usize = 0;
        while idx < captures.len()
            invariant
                bb.wf(),
                bb.fda_len() == 0,
                bb.module == m0,
                bb.func.name@ == fname,
                bb.func.ret_ty == IrType::Void,
                bb.func.params@.len() == 1,
                bb.func.params@[0].name@ == "__captures_ptr"@,
                bb.func.params@[0].ty == IrType::Ptr,
            decreases captures@.len() - idx,
        {
            let name = &captures[idx].0;
            let ty = captures[idx].1;
            let offset_bytes: i64 = if idx < 0x1000_0000 { (idx * 8) as i64 } else { 0x8000_0000 };
            let offset_val = bb.new_value();
            bb.emit(Inst::ConstInt { dest: offset_val, value: offset_bytes });
            let elem_addr = bb.new_value();
            bb.emit(Inst::Add { dest: elem_addr, lhs: captures_ptr, rhs: offset_val, ty: IrType::I64 });
            let val = bb.new_value();
            bb.emit(Inst::Load { dest: val, ptr: elem_addr, ty });
            let slot = bb.declare_local(name.as_str(), ty, false);
            bb.emit(Inst::Store { ptr: slot, src: val });
            if str_eq(name.as_str(), "self") {
                match &bb.current_class {
                    Some(cls) => {
                        let c = cls.clone();
                        bb.var_class.insert("self".to_owned(), c);
                    },
                    None => {},
                }
            }
            idx = idx + 1;
        }
    }
    proof {
        reveal_strlit("__captures_ptr");
    }
    lower_block(&mut bb, body);
    if !bb.is_terminated() {
        bb.emit(Inst::Return { value: None });
    }
    std::mem::swap(&mut bb.module, &mut builder.module);
    builder.module.add_function(bb.func);
}

/// The handler function of a `try`: receives the error value and type; each
/// `on` clause (filtered by class name or catching everything) binds the
/// error and runs its block; when no clause matches, the error is raised
/// again.
fn lower_try_handler(builder: &mut LowerBuilder, handlers: &Vec<OnClause>, handler_fn_name: String, Ghost(node): Ghost<Stmt>)
    requires
        old(builder).wf(),
        decreases_to!(node => *handlers),
    ensures
        LowerBuilder::kept(old(builder), final(builder)),
        final(builder).module.functions@.len() > old(builder).module.functions@.len(),
        final(builder).module.functions@.last().name@ == handler_fn_name@,
        final(builder).func == old(builder).func,
        final(builder).module.functions@.last().ret_ty == old(builder).func.ret_ty,
        ({
            let ps = final(builder).module.functions@.last().params@;
            &&& ps.len() == 2
            &&& ps[0].name@ == "err_val"@ && ps[0].ty == IrType::I64
            &&& ps[1].name@ == "err_type"@ && ps[1].ty == IrType::I64
        }),
    decreases old(builder).fda_len(), node, 0nat,
{
    let ghost fname = handler_fn_name@;
    let handler_ret_ty = builder.func.ret_ty;
    let mut hb = LowerBuilder::new(IrModule::new(""), handler_fn_name, Vec::new(), handler_ret_ty);
    std::mem::swap(&mut hb.module, &mut builder.module);
    let ghost m0 = hb.module;
    hb.fn_ret_types = builder.fn_ret_types.duplicate();
    hb.var_class = builder.var_class.duplicate();
    hb.elem_types = builder.elem_types.duplicate();
    hb.map_vars = builder.map_vars.duplicate();
    hb.current_class = builder.current_class.clone();
    let ev_slot = hb.declare_local("__err_val", IrType::I64, false);
    let ev_recv = hb.new_value();
    hb.emit(Inst::Store { ptr: ev_slot, src: ev_recv });
    let et_slot = hb.declare_local("__err_type", IrType::I64, false);
    let et_recv = hb.new_value();
    hb.emit(Inst::Store { ptr: et_slot, src: et_recv });
    let mut params: Vec<IrParam> = Vec::new();
    params.push(IrParam { name: "err_val".to_owned(), ty: IrType::I64, slot: ev_recv });
    params.push(IrParam { name: "err_type".to_owned(), ty: IrType::I64, slot: et_recv });
    hb.func.params = params;
    proof {
        reveal_strlit("err_val");
        reveal_strlit("err_type");
    }
    let end_bb = hb.new_block();
    let mut i: usize = 0;
    while i < handlers.len()
        invariant
            hb.wf(),
            hb.fda_len() == 0,
            hb.func.name@ == fname,
            hb.func.ret_ty == handler_ret_ty,
            hb.func.params@.len() == 2,
            hb.func.params@[0].name@ == "err_val"@ && hb.func.params@[0].ty == IrType::I64,
            hb.func.params@[1].name@ == "err_type"@ && hb.func.params@[1].ty == IrType::I64,
            crate::builder::functions_grow(m0, hb.module),
            decreases_to!(node => *handlers),
        decreases handlers@.len() - i,
    {
        proof {
            assert(decreases_to!(*handlers => handlers@));
            assert(decreases_to!(handlers@ => handlers@[i as int]));
            assert(decreases_to!(handlers@[i as int] => handlers@[i as int].body));
        }
        let handler = &handlers[i];
        let handler_bb = hb.new_block();
        let next_bb = hb.new_block();
        match &handler.class_filter {
            Some(class_filter) => {
                let et = hb.new_value();
                hb.emit(Inst::Load { dest: et, ptr: et_slot, ty: IrType::I64 });
                let filter_idx = hb.module.intern_string(class_filter.as_str());
                let filter_val = hb.new_value();
                hb.emit(Inst::ConstStr { dest: filter_val, idx: filter_idx });
                let mut args: Vec<Value> = Vec::new();
                args.push(et);
                args.push(filter_val);
                let m = call_value(&mut hb, "__ocara_type_matches", args, IrType::I64);
                hb.emit(Inst::Branch { cond: m, then_bb: handler_bb, else_bb: next_bb });
            },
            None => {
                hb.emit(Inst::Jump { target: handler_bb });
            },
        }
        hb.switch_to(&handler_bb);
        let ev = hb.new_value();
        hb.emit(Inst::Load { dest: ev, ptr: ev_slot, ty: IrType::I64 });
        let e_slot = hb.declare_local(handler.binding.as_str(), IrType::I64, false);
        hb.emit(Inst::Store { ptr: e_slot, src: ev });
        let exception_class = match &handler.class_filter {
            Some(c) => c.clone(),
            None => "Exception".to_owned(),
        };
        hb.var_class.insert(handler.binding.clone(), exception_class);
        lower_block(&mut hb, &handler.body);
        if !hb.is_terminated() {
            hb.emit(Inst::Jump { target: end_bb });
        }
        hb.switch_to(&next_bb);
        i = i + 1;
    }
    let ev = hb.new_value();
    hb.emit(Inst::Load { dest: ev, ptr: ev_slot, ty: IrType::I64 });
    let et = hb.new_value();
    hb.emit(Inst::Load { dest: et, ptr: et_slot, ty: IrType::I64 });
    let mut args: Vec<Value> = Vec::new();
    args.push(ev);
    args.push(et);
    emit_call(&mut hb, None, "__ocara_fail".to_owned(), args, IrType::Void);
    dummy_return(&mut hb, handler_ret_ty);
    hb.switch_to(&end_bb);
    dummy_return(&mut hb, handler_ret_ty);
    std::mem::swap(&mut hb.module, &mut builder.module);
    builder.module.add_function(hb.func);
}

/// `f` is the body function `name` of a `try`: it returns nothing and takes
/// no parameter when the body captures nothing (`plain`), else the pointer
/// `__captures_ptr` to the captured values.
pub open spec fn is_try_body_fn(f: IrFunction, name: Seq<char>, plain: bool) -> bool {
    &&& f.name@ == name
    &&& f.ret_ty == IrType::Void
    &&& plain ==> f.params@.len() == 0
    &&& !plain ==> f.params@.len() == 1 && f.params@[0].name@ == "__captures_ptr"@ && f.params@[0].ty == IrType::Ptr
}

/// `f` is the handler function `name` of a `try` in a function returning
/// `ret_ty`: it takes the error value and the error type and returns what
/// that function returns.
pub open spec fn is_try_handler_fn(f: IrFunction, name: Seq<char>, ret_ty: IrType) -> bool {
    &&& f.name@ == name
    &&& f.ret_ty == ret_ty
    &&& f.params@.len() == 2
    &&& f.params@[0].name@ == "err_val"@ && f.params@[0].ty == IrType::I64
    &&& f.params@[1].name@ == "err_type"@ && f.params@[1].ty == IrType::I64
}

/// Names of the body and handler functions of the `try` numbered `k`.
pub open spec fn try_body_name(k: nat) -> Seq<char> {
    "__try_body_"@ + decimal_spec(k)
}

pub open spec fn try_handler_name(k: nat) -> Seq<char> {
    "__try_handler_"@ + decimal_spec(k)
}

/// A `try` body captures nothing of the function `b` is filling.
pub open spec fn try_plain(b: LowerBuilder, body: Block) -> bool {
    block_caps(body, true, Set::<Seq<char>>::empty(), b.locals@.dom()) == Set::<Seq<char>>::empty()
}

/// The `try` lowered from module `before` to module `after`, in a function
/// returning `ret_ty`, left its body and its handler as new functions
/// `__try_body_<k>` and `__try_handler_<k>`, `k` being the `try` counter of
/// `before`; the counter moved past `k`, so the `try` statements lowered
/// later, those nested in this one included, get other numbers.
pub open spec fn try_functions_added(before: IrModule, after: IrModule, ret_ty: IrType, plain: bool) -> bool {
    let n = before.functions@.len() as int;
    let k = before.try_counter;
    &&& exists|j: int| n <= j < after.functions@.len()
        && is_try_body_fn(#[trigger] after.functions@[j], try_body_name(k as nat), plain)
    &&& exists|j: int| n <= j < after.functions@.len()
        && is_try_handler_fn(#[trigger] after.functions@[j], try_handler_name(k as nat), ret_ty)
    &&& (k < usize::MAX ==> k < after.try_counter)
}

/// All a `try` does, seen from the builder `before` it starts from.
pub open spec fn try_shape(before: LowerBuilder, after: LowerBuilder, body: Block) -> bool {
    let k = before.module.try_counter as nat;
    &&& try_functions_added(before.module, after.module, before.func.ret_ty, try_plain(before, body))
    &&& try_run_shape(before.func, after.func, try_body_name(k), try_handler_name(k), try_plain(before, body))
}

/// `try { body } on e [is Class] { ... } ...`: the body and the handlers
/// become functions `__try_body_N`/`__try_handler_N` (N taken from the
/// module's `try` counter, which then moves on); the runtime runs the body and calls the
/// handler on failure, passing the body's captured variables in a heap
/// array when there are any. A non-zero result means that a handler
/// returned `result - 1`: the enclosing function returns it (in the `main`
/// assembled from runtime blocks, it becomes `ERROR` and control goes to
/// the exit label); otherwise execution continues after the `try`.
pub fn lower_try(builder: &mut LowerBuilder, body: &Block, handlers: &Vec<OnClause>)
    requires
        old(builder).wf(),
    ensures
        LowerBuilder::kept(old(builder), final(builder)),
        final(builder).func.current >= old(builder).func.code().len(),
        try_shape(*old(builder), *final(builder), *body),
{
    let ghost node = Stmt::Try { body: *body, handlers: *handlers, span: vstd::pervasive::arbitrary() };
    proof {
        assert(decreases_to!(node => node->Try_body));
        assert(decreases_to!(node => node->Try_handlers));
    }
    lower_try_node(builder, body, handlers, Ghost(node))
}

/// The lowering behind `lower_try`; `node` is the statement or expression being
/// lowered, which bounds the recursion.
#[verifier::rlimit(80)]
#[verifier::spinoff_prover]
pub(crate) fn lower_try_node(builder: &mut LowerBuilder, body: &Block, handlers: &Vec<OnClause>, Ghost(node): Ghost<Stmt>)
    requires
        old(builder).wf(),
        decreases_to!(node => *body),
        decreases_to!(node => *handlers),
    ensures
        LowerBuilder::kept(old(builder), final(builder)),
        final(builder).func.current >= old(builder).func.code().len(),
        try_shape(*old(builder), *final(builder), *body),
    decreases old(builder).fda_len(), node, 1nat,
{
    let try_id = builder.module.try_counter;
    if try_id < usize::MAX {
        builder.module.try_counter = try_id + 1;
    }
    let body_fn_name = with_number("__try_body_", try_id);
    let handler_fn_name = with_number("__try_handler_", try_id);
    let no_params = NameSet::new();
    let captures = collect_captures(body, &no_params, &builder.locals);
    lower_try_body(builder, body, body_fn_name.clone(), &captures, Ghost(node));
    let ghost after_body = builder.module;
    proof {
        assert(after_body.functions@[after_body.functions@.len() - 1].name@ == body_fn_name@);
    }
    lower_try_handler(builder, handlers, handler_fn_name.clone(), Ghost(node));
    let ghost after_handler = builder.module;
    proof {
        let jb = after_body.functions@.len() - 1;
        assert(after_handler.functions@[jb] == after_body.functions@[jb]);
        assert(is_try_body_fn(after_handler.functions@[jb], body_fn_name@, captures@.len() == 0));
        let jh = after_handler.functions@.len() - 1;
        assert(after_handler.functions@[jh].name@ == handler_fn_name@);
        assert(is_try_handler_fn(after_handler.functions@[jh], handler_fn_name@, old(builder).func.ret_ty));
    }
    let ghost before_run = *builder;
    emit_try_run(builder, body_fn_name, handler_fn_name, &captures);
    proof {
        lemma_names_of_empty_iff(captures@);
        let jb = after_body.functions@.len() - 1;
        let jh = after_handler.functions@.len() - 1;
        assert(builder.module.functions@[jb] == after_handler.functions@[jb]);
        assert(builder.module.functions@[jh] == after_handler.functions@[jh]);
        lemma_extends_trans(old(builder).func, before_run.func, builder.func);
    }
}

/// What running a `try` leaves in the function that holds it: from the
/// current block of `before`, the addresses of the body function `body`
/// and of the handler `handler` are taken into the next two values, the
/// runtime runs them (`__ocara_try_exec`, or `__ocara_try_exec_with_captures`
/// with the array of captured values when `plain` is false), the result is
/// compared with 0 and the block branches to a new block that returns or
/// leaves (result non-zero) or to a new empty block where lowering goes on.
pub open spec fn try_run_shape(before: IrFunction, after: IrFunction, body: Seq<char>, handler: Seq<char>, plain: bool) -> bool {
    let k = before.current as int;
    let j = before.code()[k].len() as int;
    let blk = after.code()[k];
    let n = blk.len() as int;
    let a = Value(before.next_value);
    let h = Value(succ(before.next_value));
    let go_on = before.code().len() as int;
    let call = blk[n - 4];
    let zero = blk[n - 3];
    let test = blk[n - 2];
    &&& j + 6 <= n
    &&& blk[j] == (InstV::FuncAddr { dest: a, func: body })
    &&& blk[j + 1] == (InstV::FuncAddr { dest: h, func: handler })
    &&& call is Call && call->Call_dest is Some
    &&& call->Call_func == (if plain { "__ocara_try_exec"@ } else { "__ocara_try_exec_with_captures"@ })
    &&& call->Call_args.len() == (if plain { 2int } else { 3int })
    &&& call->Call_args[0] == a && call->Call_args[1] == h
    &&& call->Call_ret_ty == IrType::I64
    &&& zero is ConstInt && zero->ConstInt_value == 0
    &&& test is CmpNe && test->CmpNe_lhs == call->Call_dest->0 && test->CmpNe_rhs == zero->ConstInt_dest
    &&& test->CmpNe_ty == IrType::I64
    &&& blk[n - 1] == (InstV::Branch { cond: test->CmpNe_dest, then_bb: BlockId((go_on + 1) as usize), else_bb: BlockId(go_on as usize) })
    &&& after.current == go_on
    &&& after.code()[go_on].len() == 0
}

/// Runs a `try` whose functions are `body_fn_name` and `handler_fn_name`
/// (see `try_run_shape`); `captures` are the variables its body captures.
#[verifier::rlimit(60)]
fn emit_try_run(builder: &mut LowerBuilder, body_fn_name: String, handler_fn_name: String, captures: &Vec<(String, IrType)>)
    requires
        old(builder).wf(),
    ensures
        LowerBuilder::kept(old(builder), final(builder)),
        final(builder).module == old(builder).module,
        try_run_shape(old(builder).func, final(builder).func, body_fn_name@, handler_fn_name@, captures@.len() == 0),
{
    let ghost f0 = builder.func;
    let ghost k = f0.current as int;
    let ghost j = f0.code()[k].len() as int;
    let ghost fa1 = InstV::FuncAddr { dest: Value(f0.next_value), func: body_fn_name@ };
    let ghost fa2 = InstV::FuncAddr { dest: Value(succ(f0.next_value)), func: handler_fn_name@ };
    let body_addr = builder.new_value();
    builder.emit(Inst::FuncAddr { dest: body_addr, func: body_fn_name });
    let handler_addr = builder.new_value();
    builder.emit(Inst::FuncAddr { dest: handler_addr, func: handler_fn_name });
    let try_result = builder.new_value();
    proof {
        lemma_extends_refl(builder.func);
        assert(builder.func.code()[k][j] == fa1);
        assert(builder.func.code()[k][j + 1] == fa2);
    }
    let ghost f_pre = builder.func;
    if captures.len() == 0 {
        let mut args: Vec<Value> = Vec::new();
        args.push(body_addr);
        args.push(handler_addr);
        emit_call(builder, Some(try_result), "__ocara_try_exec".to_owned(), args, IrType::I64);
    } else {
        let n = captures.len();
        let size_bytes: i64 = if n < 0x1000_0000 { (n * 8) as i64 } else { 0x8000_0000 };
        let size_val = builder.new_value();
        builder.emit(Inst::ConstInt { dest: size_val, value: size_bytes });
        let mut alloc_args: Vec<Value> = Vec::new();
        alloc_args.push(size_val);
        let array_ptr = call_value(builder, "__alloc_obj", alloc_args, IrType::Ptr);
        let mut idx: usize = 0;
        while idx < captures.len()
            invariant
                LowerBuilder::kept(old(builder), builder),
                builder.module == old(builder).module,
                builder.func.current == k,
                builder.func.code().len() == f0.code().len(),
                crate::builder::extends(f_pre, builder.func),
                f_pre.current == k,
                f_pre.code().len() == f0.code().len(),
                f_pre.code()[k].len() >= j + 2,
                f_pre.code()[k][j] == fa1,
                f_pre.code()[k][j + 1] == fa2,
            decreases captures@.len() - idx,
        {
            let local = match builder.locals.get(captures[idx].0.as_str()) {
                Some(e) => Some(*e),
                None => None,
            };
            let val = match local {
                Some((slot, slot_ty, _m)) => {
                    let v = builder.new_value();
                    builder.emit(Inst::Load { dest: v, ptr: slot, ty: slot_ty });
                    v
                },
                None => {
                    let v = builder.new_value();
                    builder.emit(Inst::ConstInt { dest: v, value: 0 });
                    v
                },
            };
            let off: i64 = if idx < 0x1000_0000 { (idx * 8) as i64 } else { 0x8000_0000 };
            let offset = builder.new_value();
            builder.emit(Inst::ConstInt { dest: offset, value: off });
            let elem_addr = builder.new_value();
            builder.emit(Inst::Add { dest: elem_addr, lhs: array_ptr, rhs: offset, ty: IrType::I64 });
            builder.emit(Inst::Store { ptr: elem_addr, src: val });
            idx = idx + 1;
        }
        let mut args: Vec<Value> = Vec::new();
        args.push(body_addr);
        args.push(handler_addr);
        args.push(array_ptr);
        emit_call(builder, Some(try_result), "__ocara_try_exec_with_captures".to_owned(), args, IrType::I64);
    }
    let ghost f_call = builder.func;
    proof {
        assert(f_call.code()[k][j] == fa1);
        assert(f_call.code()[k][j + 1] == fa2);
        assert(f_call.code().len() == f0.code().len());
        assert(f_call.current == k);
    }
    let continue_bb = builder.new_block();
    let return_bb = builder.new_block();
    let zero = builder.new_value();
    builder.emit(Inst::ConstInt { dest: zero, value: 0 });
    let has_return = builder.new_value();
    builder.emit(Inst::CmpNe { dest: has_return, lhs: try_result, rhs: zero, ty: IrType::I64 });
    builder.emit(Inst::Branch { cond: has_return, then_bb: return_bb, else_bb: continue_bb });
    let ghost f_br = builder.func;
    builder.switch_to(&return_bb);
    let one = builder.new_value();
    builder.emit(Inst::ConstInt { dest: one, value: 1 });
    let return_value = builder.new_value();
    builder.emit(Inst::Sub { dest: return_value, lhs: try_result, rhs: one, ty: IrType::I64 });
    if str_eq(builder.func.name.as_str(), "main") {
        let error_slot = match builder.locals.get("ERROR") {
            Some(e) => Some(e.0),
            None => None,
        };
        match error_slot {
            Some(slot) => {
                builder.emit(Inst::Store { ptr: slot, src: return_value });
                match builder.runtime_exit_bb {
                    Some(exit_bb) => builder.emit(Inst::Jump { target: exit_bb }),
                    None => builder.emit(Inst::Jump { target: continue_bb }),
                }
            },
            None => builder.emit(Inst::Return { value: Some(return_value) }),
        }
    } else {
        builder.emit(Inst::Return { value: Some(return_value) });
    }
    builder.switch_to(&continue_bb);
    proof {
        assert(builder.func.code()[k] == f_br.code()[k]);
        assert(builder.func.code()[f0.code().len() as int] == f_br.code()[f0.code().len() as int]);
    }
}

} // verus!
