//! Generators (`message<T>` functions that `emit` values): the frame layout,
//! the names of the functions a generator becomes, and the recognition of
//! calls that consume one.
use vstd::prelude::*;
use crate::ast::{Block, ClassMember, Expr, FuncDecl, OnClause, Param, Program, Stmt, SwitchCase, Type};
use crate::block::lower_block;
use crate::builder::LowerBuilder;
use crate::control_flow::{enter_loop, exit_loop};
use crate::helpers::opt_view;
use crate::ir::{BlockId, Inst, InstV, IrModule, IrParam, IrType, Value, ir_type_of};
use crate::builder::slot_offset;
use crate::functions::FunctionTables;
use crate::names::Duplicate;
use crate::lower::{call_value, emit_call, lower_expr};
use crate::text::{concat, str_eq, mangle, mangle_spec};

verus! {

/// Field holding the generator's state.
pub open spec fn state_field_spec() -> Seq<char> {
    "__state"@
}

/// Field holding the last emitted value.
pub open spec fn value_field_spec() -> Seq<char> {
    "__value"@
}

/// State of an exhausted generator.
pub const STATE_DONE: i64 = -1;

/// True for a `message<T>` return type.
pub fn is_message_func(ret_ty: &Type) -> (r: bool)
    ensures
        r == (*ret_ty is Message),
{
    match ret_ty {
        Type::Message(_) => true,
        _ => false,
    }
}

/// Name of the frame class of generator `f`.
pub fn frame_class_name(mangled_func_name: &str) -> (r: String)
    ensures
        r@ == "__gen_"@ + mangled_func_name@,
{
    concat("__gen_", mangled_func_name)
}

/// Name of the function allocating a frame of generator `f`.
pub fn new_func_name(mangled_func_name: &str) -> (r: String)
    ensures
        r@ == mangled_func_name@ + "__new"@,
{
    concat(mangled_func_name, "__new")
}

/// Name of the function resuming generator `f`.
pub fn resume_func_name(mangled_func_name: &str) -> (r: String)
    ensures
        r@ == mangled_func_name@ + "__resume"@,
{
    concat(mangled_func_name, "__resume")
}

/// The generator consumed by `expr`, with the IR type of its values: a call
/// of a registered generator function, of a generator method of a variable
/// of known class or of `self`, or a static call of a generator method.
pub open spec fn message_call_spec(b: LowerBuilder, e: Expr) -> Option<(Seq<char>, IrType)> {
    match e {
        Expr::Call { callee, .. } => match *callee {
            Expr::Ident(n, _) => if b.module.message_funcs@.contains_key(n@) {
                Some((n@, b.module.message_funcs@[n@]))
            } else {
                None
            },
            Expr::Field { object, field, .. } => {
                let cls = match *object {
                    Expr::Ident(n, _) => if b.var_class@.contains_key(n@) { Some(b.var_class@[n@]@) } else { None },
                    Expr::SelfExpr(_) => opt_view(b.current_class),
                    _ => None,
                };
                match cls {
                    Some(c) => {
                        let m = mangle_spec(c, field@);
                        if b.module.message_funcs@.contains_key(m) { Some((m, b.module.message_funcs@[m])) } else { None }
                    },
                    None => None,
                }
            },
            _ => None,
        },
        Expr::StaticCall { class, method, .. } => {
            let resolved = if class@ == "<self>"@ {
                match b.current_class { Some(c) => c@, None => Seq::empty() }
            } else {
                class@
            };
            let m = mangle_spec(resolved, method@);
            if b.module.message_funcs@.contains_key(m) { Some((m, b.module.message_funcs@[m])) } else { None }
        },
        _ => None,
    }
}

/// Recognises a call consuming a generator (see `message_call_spec`).
pub fn detect_message_call(builder: &LowerBuilder, expr: &Expr) -> (r: Option<(String, IrType)>)
    ensures
        match r {
            Some((m, t)) => message_call_spec(*builder, *expr) == Some((m@, t)),
            None => message_call_spec(*builder, *expr) is None,
        },
{
    match expr {
        Expr::Call { callee, .. } => match &**callee {
            Expr::Ident(n, _) => match builder.module.message_funcs.get(n.as_str()) {
                Some(t) => Some((n.clone(), *t)),
                None => None,
            },
            Expr::Field { object, field, .. } => {
                let cls = match &**object {
                    Expr::Ident(n, _) => match builder.var_class.get(n.as_str()) {
                        Some(c) => Some(c.clone()),
                        None => None,
                    },
                    Expr::SelfExpr(_) => match &builder.current_class {
                        Some(c) => Some(c.clone()),
                        None => None,
                    },
                    _ => None,
                };
                match cls {
                    Some(c) => {
                        let m = mangle(c.as_str(), field.as_str());
                        match builder.module.message_funcs.get(m.as_str()) {
                            Some(t) => Some((m, *t)),
                            None => None,
                        }
                    },
                    None => None,
                }
            },
            _ => None,
        },
        Expr::StaticCall { class, method, .. } => {
            let resolved = if str_eq(class.as_str(), "<self>") {
                match &builder.current_class {
                    Some(c) => c.clone(),
                    None => String::new(),
                }
            } else {
                class.clone()
            };
            let m = mangle(resolved.as_str(), method.as_str());
            match builder.module.message_funcs.get(m.as_str()) {
                Some(t) => Some((m, *t)),
                None => None,
            }
        },
        _ => None,
    }
}

/// Position of the first field named `name` (0 when absent).
pub fn field_index(fields: &Vec<(String, IrType)>, name: &str) -> (r: usize)
    ensures
        match crate::helpers::field_lookup(fields@, name@) {
            Some((i, _t)) => r == i,
            None => r == 0,
        },
{
    match crate::helpers::find_field(fields, name) {
        Some((i, _t)) => i,
        None => 0,
    }
}

/// The names listed in `out`.
pub open spec fn pair_names(out: Seq<(String, IrType)>) -> Set<Seq<char>> {
    Set::new(|n: Seq<char>| exists|i: int| 0 <= i < out.len() && (#[trigger] out[i]).0@ == n)
}

/// Names declared anywhere in block `b`: `var`, `const` and loop variables.
pub open spec fn block_decls(b: Block) -> Set<Seq<char>>
    decreases b, 0int,
{
    proof {
        assert(decreases_to!(b => b.stmts));
        assert(decreases_to!(b.stmts => b.stmts@));
    }
    stmts_decls(b.stmts@, b.stmts@.len() as int)
}

/// `stmt_decls` of the first `k` statements of `ss`.
pub open spec fn stmts_decls(ss: Seq<Stmt>, k: int) -> Set<Seq<char>>
    decreases ss, k,
{
    if 0 < k <= ss.len() {
        stmts_decls(ss, k - 1).union(stmt_decls(ss[k - 1]))
    } else {
        Set::empty()
    }
}

/// Names declared by statement `s` or anywhere inside it.
pub open spec fn stmt_decls(s: Stmt) -> Set<Seq<char>>
    decreases s, 0int,
{
    match s {
        Stmt::Var { name, .. } | Stmt::Const { name, .. } => set![name@],
        Stmt::ForIn { var, body, .. } => set![var@].union(block_decls(body)),
        Stmt::ForMap { key, value, body, .. } => set![key@, value@].union(block_decls(body)),
        Stmt::If { then_block, elseif, else_block, .. } => {
            proof {
                assert(decreases_to!(s => elseif));
                assert(decreases_to!(elseif => elseif@));
            }
            block_decls(then_block).union(elseif_decls(elseif@, elseif@.len() as int)).union(match else_block {
                Some(b) => block_decls(b),
                None => Set::empty(),
            })
        },
        Stmt::Switch { cases, default, .. } => {
            proof {
                assert(decreases_to!(s => cases));
                assert(decreases_to!(cases => cases@));
            }
            cases_decls(cases@, cases@.len() as int).union(match default {
                Some(b) => block_decls(b),
                None => Set::empty(),
            })
        },
        Stmt::While { body, .. } => block_decls(body),
        Stmt::Try { body, handlers, .. } => {
            proof {
                assert(decreases_to!(s => handlers));
                assert(decreases_to!(handlers => handlers@));
            }
            block_decls(body).union(handlers_decls(handlers@, handlers@.len() as int))
        },
        _ => Set::empty(),
    }
}

/// `block_decls` of the blocks of the first `k` `elseif` branches.
pub open spec fn elseif_decls(es: Seq<(Expr, Block)>, k: int) -> Set<Seq<char>>
    decreases es, k,
{
    if 0 < k <= es.len() {
        proof {
            assert(decreases_to!(es => es[k - 1]));
        }
        elseif_decls(es, k - 1).union(block_decls(es[k - 1].1))
    } else {
        Set::empty()
    }
}

/// `block_decls` of the bodies of the first `k` cases.
pub open spec fn cases_decls(cs: Seq<SwitchCase>, k: int) -> Set<Seq<char>>
    decreases cs, k,
{
    if 0 < k <= cs.len() {
        proof {
            assert(decreases_to!(cs => cs[k - 1]));
        }
        cases_decls(cs, k - 1).union(block_decls(cs[k - 1].body))
    } else {
        Set::empty()
    }
}

/// `block_decls` of the bodies of the first `k` handlers.
pub open spec fn handlers_decls(hs: Seq<OnClause>, k: int) -> Set<Seq<char>>
    decreases hs, k,
{
    if 0 < k <= hs.len() {
        proof {
            assert(decreases_to!(hs => hs[k - 1]));
        }
        handlers_decls(hs, k - 1).union(block_decls(hs[k - 1].body))
    } else {
        Set::empty()
    }
}

/// Field names are distinct.
pub open spec fn distinct_names(out: Seq<(String, IrType)>) -> bool {
    forall|i: int, j: int| 0 <= i < j < out.len() ==> (#[trigger] out[i]).0@ != (#[trigger] out[j]).0@
}

/// Appends `(name, ty)` unless a field with that name is already listed.
pub fn push_unique(out: &mut Vec<(String, IrType)>, name: String, ty: IrType)
    requires
        distinct_names(old(out)@),
    ensures
        distinct_names(final(out)@),
        (exists|i: int| 0 <= i < old(out)@.len() && (#[trigger] old(out)@[i]).0@ == name@) ==> final(out)@ == old(out)@,
        !(exists|i: int| 0 <= i < old(out)@.len() && (#[trigger] old(out)@[i]).0@ == name@) ==> final(out)@ == old(out)@.push((name, ty)),
        pair_names(final(out)@) == pair_names(old(out)@).insert(name@),
{
    let ghost o0 = out@;
    let ghost nm = name@;
    match crate::helpers::find_field(out, name.as_str()) {
        Some(_) => {
            proof {
                lemma_lookup_some_exists(out@, name@);
                assert(pair_names(out@) =~= pair_names(o0).insert(nm));
            }
        },
        None => {
            proof {
                lemma_lookup_none_forall(out@, name@);
            }
            let ghost before = out@;
            out.push((name, ty));
            proof {
                assert forall|i: int, j: int| 0 <= i < j < out@.len() implies (#[trigger] out@[i]).0@ != (#[trigger] out@[j]).0@ by {
                    if j == before.len() {
                        assert(out@[i] == before[i]);
                    }
                }
                assert forall|n: Seq<char>| pair_names(o0).insert(nm).contains(n) implies pair_names(out@).contains(n) by {
                    if n == nm {
                        assert(out@[before.len() as int].0@ == n);
                    } else {
                        let i = choose|i: int| 0 <= i < o0.len() && (#[trigger] o0[i]).0@ == n;
                        assert(out@[i] == o0[i]);
                    }
                }
                assert forall|n: Seq<char>| pair_names(out@).contains(n) implies pair_names(o0).insert(nm).contains(n) by {
                    let i = choose|i: int| 0 <= i < out@.len() && (#[trigger] out@[i]).0@ == n;
                    if i < o0.len() {
                        assert(out@[i] == o0[i]);
                    }
                }
                assert(pair_names(out@) =~= pair_names(o0).insert(nm));
            }
        },
    }
}

proof fn lemma_lookup_some_exists(s: Seq<(String, IrType)>, n: Seq<char>)
    requires
        crate::helpers::field_lookup(s, n) is Some,
    ensures
        exists|i: int| 0 <= i < s.len() && (#[trigger] s[i]).0@ == n,
    decreases s.len(),
{
    if s.len() > 0 && s[0].0@ != n {
        lemma_lookup_some_exists(s.drop_first(), n);
        let i = choose|i: int| 0 <= i < s.drop_first().len() && (#[trigger] s.drop_first()[i]).0@ == n;
        assert(s[i + 1] == s.drop_first()[i]);
    }
}

proof fn lemma_lookup_none_forall(s: Seq<(String, IrType)>, n: Seq<char>)
    requires
        crate::helpers::field_lookup(s, n) is None,
    ensures
        forall|i: int| 0 <= i < s.len() ==> (#[trigger] s[i]).0@ != n,
    decreases s.len(),
{
    if s.len() > 0 {
        lemma_lookup_none_forall(s.drop_first(), n);
        assert forall|i: int| 0 <= i < s.len() implies (#[trigger] s[i]).0@ != n by {
            if i > 0 {
                assert(s[i] == s.drop_first()[i - 1]);
            }
        }
    }
}

fn walk_block(block: &Block, out: &mut Vec<(String, IrType)>)
    requires
        distinct_names(old(out)@),
    ensures
        distinct_names(final(out)@),
        pair_names(final(out)@) == pair_names(old(out)@).union(block_decls(*block)),
    decreases block, 1nat,
{
    walk_stmts(&block.stmts, out);
}

/// Collects (name, IR type) of every variable declared in `stmts` at any
/// depth (`var`, `const`, loop variables), each name once: a range loop
/// variable is an integer, any other loop variable a pointer, a map value
/// an integer.
fn walk_stmts(stmts: &Vec<Stmt>, out: &mut Vec<(String, IrType)>)
    requires
        distinct_names(old(out)@),
    ensures
        distinct_names(final(out)@),
        pair_names(final(out)@) == pair_names(old(out)@).union(stmts_decls(stmts@, stmts@.len() as int)),
    decreases stmts, 0nat,
{
    let mut i: usize = 0;
    proof {
        assert(pair_names(out@) =~= pair_names(old(out)@).union(stmts_decls(stmts@, 0)));
    }
    while i < stmts.len()
        invariant
            i <= stmts@.len(),
            distinct_names(out@),
            pair_names(out@) == pair_names(old(out)@).union(stmts_decls(stmts@, i as int)),
        decreases stmts@.len() - i,
    {
        let ghost o_i = out@;
        proof {
            assert(decreases_to!(*stmts => stmts@));
            assert(decreases_to!(stmts@ => stmts@[i as int]));
        }
        let stmt = &stmts[i];
        match stmt {
            Stmt::Var { name, ty, .. } => push_unique(out, name.clone(), crate::ir::IrType::from_ast(ty)),
            Stmt::Const { name, ty, .. } => push_unique(out, name.clone(), crate::ir::IrType::from_ast(ty)),
            Stmt::ForIn { var, iter, body, .. } => {
                let ty = match iter {
                    Expr::Range { .. } => IrType::I64,
                    _ => IrType::Ptr,
                };
                push_unique(out, var.clone(), ty);
                walk_block(body, out);
            },
            Stmt::ForMap { key, value, body, .. } => {
                push_unique(out, key.clone(), IrType::Ptr);
                push_unique(out, value.clone(), IrType::I64);
                walk_block(body, out);
            },
            Stmt::If { then_block, elseif, else_block, .. } => {
                walk_block(then_block, out);
                let ghost o_then = out@;
                let mut k: usize = 0;
                proof {
                    assert(decreases_to!(*stmt => *elseif));
                    assert(pair_names(out@) =~= pair_names(o_then).union(elseif_decls(elseif@, 0)));
                }
                while k < elseif.len()
                    invariant
                        k <= elseif@.len(),
                        decreases_to!(*stmt => *elseif),
                        decreases_to!(*stmts => *stmt),
                        distinct_names(out@),
                        pair_names(out@) == pair_names(o_then).union(elseif_decls(elseif@, k as int)),
                    decreases elseif@.len() - k,
                {
                    proof {
                        assert(decreases_to!(*elseif => elseif@));
                        assert(decreases_to!(elseif@ => elseif@[k as int]));
                        assert(decreases_to!(elseif@[k as int] => elseif@[k as int].1));
                    }
                    walk_block(&elseif[k].1, out);
                    proof {
                        assert(pair_names(out@) =~= pair_names(o_then).union(elseif_decls(elseif@, k + 1)));
                    }
                    k = k + 1;
                }
                match else_block {
                    Some(b) => walk_block(b, out),
                    None => {},
                }
                proof {
                    assert(pair_names(out@) =~= pair_names(o_i).union(stmt_decls(*stmt)));
                }
            },
            Stmt::Switch { cases, default, .. } => {
                let mut k: usize = 0;
                proof {
                    assert(decreases_to!(*stmt => *cases));
                    assert(pair_names(out@) =~= pair_names(o_i).union(cases_decls(cases@, 0)));
                }
                while k < cases.len()
                    invariant
                        k <= cases@.len(),
                        decreases_to!(*stmt => *cases),
                        decreases_to!(*stmts => *stmt),
                        distinct_names(out@),
                        pair_names(out@) == pair_names(o_i).union(cases_decls(cases@, k as int)),
                    decreases cases@.len() - k,
                {
                    proof {
                        assert(decreases_to!(*cases => cases@));
                        assert(decreases_to!(cases@ => cases@[k as int]));
                        assert(decreases_to!(cases@[k as int] => cases@[k as int].body));
                    }
                    walk_block(&cases[k].body, out);
                    proof {
                        assert(pair_names(out@) =~= pair_names(o_i).union(cases_decls(cases@, k + 1)));
                    }
                    k = k + 1;
                }
                match default {
                    Some(b) => walk_block(b, out),
                    None => {},
                }
                proof {
                    assert(pair_names(out@) =~= pair_names(o_i).union(stmt_decls(*stmt)));
                }
            },
            Stmt::While { body, .. } => walk_block(body, out),
            Stmt::Try { body, handlers, .. } => {
                walk_block(body, out);
                let ghost o_body = out@;
                let mut k: usize = 0;
                proof {
                    assert(decreases_to!(*stmt => *handlers));
                    assert(pair_names(out@) =~= pair_names(o_body).union(handlers_decls(handlers@, 0)));
                }
                while k < handlers.len()
                    invariant
                        k <= handlers@.len(),
                        decreases_to!(*stmt => *handlers),
                        decreases_to!(*stmts => *stmt),
                        distinct_names(out@),
                        pair_names(out@) == pair_names(o_body).union(handlers_decls(handlers@, k as int)),
                    decreases handlers@.len() - k,
                {
                    proof {
                        assert(decreases_to!(*handlers => handlers@));
                        assert(decreases_to!(handlers@ => handlers@[k as int]));
                        assert(decreases_to!(handlers@[k as int] => handlers@[k as int].body));
                    }
                    walk_block(&handlers[k].body, out);
                    proof {
                        assert(pair_names(out@) =~= pair_names(o_body).union(handlers_decls(handlers@, k + 1)));
                    }
                    k = k + 1;
                }
                proof {
                    assert(pair_names(out@) =~= pair_names(o_i).union(stmt_decls(*stmt)));
                }
            },
            _ => {},
        }
        proof {
            assert(pair_names(out@) =~= pair_names(o_i).union(stmt_decls(stmts@[i as int])));
            assert(pair_names(out@) =~= pair_names(old(out)@).union(stmts_decls(stmts@, i + 1)));
        }
        i = i + 1;
    }
}

/// Every variable declared anywhere in `body`, each name once.
pub fn collect_local_decls(body: &Block) -> (r: Vec<(String, IrType)>)
    ensures
        distinct_names(r@),
        pair_names(r@) == block_decls(*body),
{
    let mut out: Vec<(String, IrType)> = Vec::new();
    proof {
        assert(pair_names(out@) =~= Set::<Seq<char>>::empty());
    }
    walk_block(body, &mut out);
    proof {
        assert(pair_names(out@) =~= block_decls(*body));
    }
    out
}

/// Records the frame layout of generator `name` (returning `message<T>`):
/// `__state` (I64), `__value` (T), then each parameter (after `self` for
/// methods) and each local variable, names once; and records the
/// generator with the IR type of its values. Anything else is left alone.
pub fn register_message_func_parts(module: &mut IrModule, name: &str, ret_ty: &Type, with_self: bool, params: &Vec<Param>, body: &Block)
    ensures
        match *ret_ty {
            Type::Message(elem) => {
                &&& final(module).message_funcs@ == old(module).message_funcs@.insert(name@, ir_type_of(*elem))
                &&& final(module).class_layouts@.contains_key("__gen_"@ + name@)
                &&& distinct_names(final(module).class_layouts@["__gen_"@ + name@]@)
                &&& final(module).class_layouts@["__gen_"@ + name@]@.len() >= 2
                &&& final(module).class_layouts@["__gen_"@ + name@]@[0].0@ == state_field_spec()
                &&& final(module).class_layouts@["__gen_"@ + name@]@[0].1 == IrType::I64
                &&& final(module).class_layouts@["__gen_"@ + name@]@[1].0@ == value_field_spec()
                &&& final(module).class_layouts@["__gen_"@ + name@]@[1].1 == ir_type_of(*elem)
            },
            _ => *final(module) == *old(module),
        },
        forall|k: Seq<char>| #[trigger] old(module).message_funcs@.contains_key(k) ==> final(module).message_funcs@.contains_key(k),
        final(module).functions == old(module).functions,
        final(module).try_counter == old(module).try_counter,
        final(module).source_file == old(module).source_file,
        final(module).class_consts == old(module).class_consts,
        final(module).strings == old(module).strings,
{
    let elem = match ret_ty {
        Type::Message(e) => &**e,
        _ => {
            return;
        },
    };
    proof {
        reveal_strlit("__state");
        reveal_strlit("__value");
    }
    let elem_ty = crate::ir::IrType::from_ast(elem);
    let frame_class = frame_class_name(name);
    let mut fields: Vec<(String, IrType)> = Vec::new();
    fields.push(("__state".to_owned(), IrType::I64));
    fields.push(("__value".to_owned(), elem_ty));
    assert("__state"@[2] != "__value"@[2]);
    assert(fields@[0].0@ != fields@[1].0@);
    if with_self {
        push_unique(&mut fields, "self".to_owned(), IrType::Ptr);
    }
    let mut i: usize = 0;
    while i < params.len()
        invariant
            i <= params@.len(),
            distinct_names(fields@),
            fields@.len() >= 2,
            fields@[0].0@ == "__state"@ && fields@[0].1 == IrType::I64,
            fields@[1].0@ == "__value"@ && fields@[1].1 == elem_ty,
        decreases params@.len() - i,
    {
        push_unique(&mut fields, params[i].name.clone(), crate::ir::IrType::from_ast(&params[i].ty));
        i = i + 1;
    }
    let locals = collect_local_decls(body);
    let mut k: usize = 0;
    while k < locals.len()
        invariant
            k <= locals@.len(),
            distinct_names(fields@),
            fields@.len() >= 2,
            fields@[0].0@ == "__state"@ && fields@[0].1 == IrType::I64,
            fields@[1].0@ == "__value"@ && fields@[1].1 == elem_ty,
        decreases locals@.len() - k,
    {
        push_unique(&mut fields, locals[k].0.clone(), locals[k].1);
        k = k + 1;
    }
    module.class_layouts.insert(frame_class, fields);
    module.message_funcs.insert(name.to_owned(), elem_ty);
}

/// Records generator function `func` (see `register_message_func_parts`).
pub fn register_message_func(module: &mut IrModule, func: &FuncDecl)
    ensures
        func.ret_ty is Message ==> final(module).message_funcs@.contains_key(func.name@),
        match func.ret_ty {
            Type::Message(elem) => {
                let layout = final(module).class_layouts@["__gen_"@ + func.name@]@;
                &&& final(module).message_funcs@ == old(module).message_funcs@.insert(func.name@, ir_type_of(*elem))
                &&& final(module).class_layouts@.contains_key("__gen_"@ + func.name@)
                &&& distinct_names(layout)
                &&& layout.len() >= 2
                &&& layout[0].0@ == state_field_spec() && layout[0].1 == IrType::I64
                &&& layout[1].0@ == value_field_spec() && layout[1].1 == ir_type_of(*elem)
            },
            _ => true,
        },
        final(module).functions == old(module).functions,
        final(module).try_counter == old(module).try_counter,
        final(module).source_file == old(module).source_file,
        final(module).class_consts == old(module).class_consts,
        !(func.ret_ty is Message) ==> *final(module) == *old(module),
        forall|k: Seq<char>| #[trigger] old(module).message_funcs@.contains_key(k) ==> final(module).message_funcs@.contains_key(k),
{
    register_message_func_parts(module, func.name.as_str(), &func.ret_ty, false, &func.params, &func.body);
}

/// Records every generator of the program: free functions, and methods of
/// classes under their mangled names (`Class_method`, instance methods
/// taking `self` first).
pub fn register_all_message_funcs(module: &mut IrModule, program: &Program)
    ensures
        final(module).functions == old(module).functions,
        final(module).try_counter == old(module).try_counter,
        final(module).source_file == old(module).source_file,
        final(module).class_consts == old(module).class_consts,
        forall|i: int| 0 <= i < program.functions@.len() && (#[trigger] program.functions@[i]).ret_ty is Message
            ==> final(module).message_funcs@.contains_key(program.functions@[i].name@),
{
    let mut i: usize = 0;
    while i < program.functions.len()
        invariant
            module.functions == old(module).functions,
            module.try_counter == old(module).try_counter,
            module.source_file == old(module).source_file,
            module.class_consts == old(module).class_consts,
            i <= program.functions@.len(),
            forall|j: int| 0 <= j < i && (#[trigger] program.functions@[j]).ret_ty is Message
                ==> module.message_funcs@.contains_key(program.functions@[j].name@),
        decreases program.functions@.len() - i,
    {
        register_message_func(module, &program.functions[i]);
        i = i + 1;
    }
    let mut c: usize = 0;
    while c < program.classes.len()
        invariant
            module.functions == old(module).functions,
            module.try_counter == old(module).try_counter,
            module.source_file == old(module).source_file,
            module.class_consts == old(module).class_consts,
            c <= program.classes@.len(),
            forall|j: int| 0 <= j < program.functions@.len() && (#[trigger] program.functions@[j]).ret_ty is Message
                ==> module.message_funcs@.contains_key(program.functions@[j].name@),
        decreases program.classes@.len() - c,
    {
        let class = &program.classes[c];
        let mut m: usize = 0;
        while m < class.members.len()
            invariant
                module.functions == old(module).functions,
                module.try_counter == old(module).try_counter,
                module.source_file == old(module).source_file,
                module.class_consts == old(module).class_consts,
            module.functions == old(module).functions,
            module.try_counter == old(module).try_counter,
            module.source_file == old(module).source_file,
            module.class_consts == old(module).class_consts,
                m <= class.members@.len(),
                forall|j: int| 0 <= j < program.functions@.len() && (#[trigger] program.functions@[j]).ret_ty is Message
                    ==> module.message_funcs@.contains_key(program.functions@[j].name@),
            decreases class.members@.len() - m,
        {
            match &class.members[m] {
                ClassMember::Method { decl, is_static, .. } => {
                    let mangled = mangle(class.name.as_str(), decl.name.as_str());
                    register_message_func_parts(module, mangled.as_str(), &decl.ret_ty, !*is_static, &decl.params, &decl.body);
                },
                _ => {},
            }
            m = m + 1;
        }
        c = c + 1;
    }
}


/// End of a generator: the state becomes `STATE_DONE` and the resume
/// function answers `false`. Used at the natural end of the body and by an
/// early `return`.
pub fn emit_generator_exhausted(builder: &mut LowerBuilder)
    requires
        old(builder).wf(),
    ensures
        LowerBuilder::kept(old(builder), final(builder)),
        LowerBuilder::same_tables(old(builder), final(builder)),
        final(builder).func.spec_terminated(),
{
    let done = builder.new_value();
    builder.emit(Inst::ConstInt { dest: done, value: STATE_DONE });
    builder.store_local("__state", done);
    let false_val = builder.new_value();
    builder.emit(Inst::ConstBool { dest: false_val, value: false });
    builder.emit(Inst::Return { value: Some(false_val) });
}

/// Evaluates the arguments that `<generator>__new` takes for call `expr`:
/// the receiver first for a method call `obj.m(...)`, then the arguments in
/// order.
fn collect_call_args(builder: &mut LowerBuilder, expr: &Expr) -> (r: Vec<Value>)
    requires
        old(builder).wf(),
    ensures
        LowerBuilder::kept(old(builder), final(builder)),
    decreases old(builder).fda_len(), *expr, 0nat,
{
    let mut vals: Vec<Value> = Vec::new();
    match expr {
        Expr::Call { callee, args, .. } => {
            match &**callee {
                Expr::Field { object, .. } => {
                    proof {
                        assert(decreases_to!(*expr => *callee));
                        assert(decreases_to!(**callee => **object));
                    }
                    let v = lower_expr(builder, object);
                    vals.push(v);
                },
                _ => {},
            }
            let mut i: usize = 0;
            while i < args.len()
                invariant
                    LowerBuilder::kept(old(builder), builder),
                    builder.fda_len() == old(builder).fda_len(),
                    decreases_to!(*expr => *args),
                decreases args@.len() - i,
            {
                proof {
                    assert(decreases_to!(*args => args@));
                    assert(decreases_to!(args@ => args@[i as int]));
                }
                let v = lower_expr(builder, &args[i]);
                vals.push(v);
                i = i + 1;
            }
        },
        Expr::StaticCall { args, .. } => {
            let mut i: usize = 0;
            while i < args.len()
                invariant
                    LowerBuilder::kept(old(builder), builder),
                    builder.fda_len() == old(builder).fda_len(),
                    decreases_to!(*expr => *args),
                decreases args@.len() - i,
            {
                proof {
                    assert(decreases_to!(*args => args@));
                    assert(decreases_to!(args@ => args@[i as int]));
                }
                let v = lower_expr(builder, &args[i]);
                vals.push(v);
                i = i + 1;
            }
        },
        _ => {},
    }
    vals
}

/// `<generator>__new(args)`: a fresh frame.
fn call_new(builder: &mut LowerBuilder, mangled: &str, args: Vec<Value>) -> (r: Value)
    requires
        old(builder).wf(),
    ensures
        LowerBuilder::kept(old(builder), final(builder)),
        LowerBuilder::same_tables(old(builder), final(builder)),
        r == Value(old(builder).func.next_value),
        crate::ir::IrFunction::appended(&old(builder).func, &final(builder).func, seq![
            InstV::Call { dest: Some(r), func: mangled@ + "__new"@, args: args@, ret_ty: IrType::Ptr },
        ]),
        final(builder).func.next_value == crate::builder::succ(old(builder).func.next_value),
{
    let name = new_func_name(mangled);
    call_value(builder, name.as_str(), args, IrType::Ptr)
}

/// `<generator>__resume(frame)`: runs to the next `emit` (`true`) or to the
/// end (`false`).
fn call_resume(builder: &mut LowerBuilder, mangled: &str, frame: Value) -> (r: Value)
    requires
        old(builder).wf(),
    ensures
        LowerBuilder::kept(old(builder), final(builder)),
        LowerBuilder::same_tables(old(builder), final(builder)),
        r == Value(old(builder).func.next_value),
        crate::ir::IrFunction::appended(&old(builder).func, &final(builder).func, seq![
            InstV::Call { dest: Some(r), func: mangled@ + "__resume"@, args: seq![frame], ret_ty: IrType::Bool },
        ]),
        final(builder).func.next_value == crate::builder::succ(old(builder).func.next_value),
{
    let name = resume_func_name(mangled);
    let mut args: Vec<Value> = Vec::new();
    args.push(frame);
    proof {
        assert(args@ =~= seq![frame]);
    }
    call_value(builder, name.as_str(), args, IrType::Bool)
}

/// The current block of `f` ends with one direct consumption of generator
/// `mangled` into `r`: a new frame from `<mangled>__new`, one call of
/// `<mangled>__resume` on it, the read of its `__value` field (of type
/// `elem_ty`) into `r`, then the frame's size and its release.
pub open spec fn consumes_one_value(f: crate::ir::IrFunction, mangled: Seq<char>, elem_ty: IrType, r: Value) -> bool {
    let b = f.code()[f.current as int];
    let n = b.len() as int;
    let frame = b[n - 5]->Call_dest->0;
    &&& n >= 5
    &&& b[n - 5] is Call && b[n - 5]->Call_dest is Some && b[n - 5]->Call_func == mangled + "__new"@
    &&& b[n - 4] is Call && b[n - 4]->Call_func == mangled + "__resume"@ && b[n - 4]->Call_args == seq![frame]
    &&& b[n - 3] == (InstV::GetField { dest: r, obj: frame, field: value_field_spec(), ty: elem_ty, offset: 8 })
    &&& b[n - 2] is ConstInt
    &&& b[n - 1] is Call && b[n - 1]->Call_func == "__free_obj"@ && b[n - 1]->Call_args == seq![frame, b[n - 2]->ConstInt_dest]
}

/// Reads the last emitted value: `__value` is always the second 8-byte
/// field of a frame.
fn get_value_field(builder: &mut LowerBuilder, frame: Value, elem_ty: IrType) -> (r: Value)
    requires
        old(builder).wf(),
    ensures
        LowerBuilder::kept(old(builder), final(builder)),
        LowerBuilder::same_tables(old(builder), final(builder)),
        r == Value(old(builder).func.next_value),
        crate::ir::IrFunction::appended(&old(builder).func, &final(builder).func, seq![
            crate::ir::InstV::GetField { dest: r, obj: frame, field: value_field_spec(), ty: elem_ty, offset: 8 },
        ]),
{
    proof {
        reveal_strlit("__value");
    }
    let dest = builder.new_value();
    builder.emit(Inst::GetField { dest, obj: frame, field: "__value".to_owned(), ty: elem_ty, offset: 8 });
    dest
}

/// Size in bytes of the frame of generator `f`: 8 per field of its layout
/// (0 for an unknown generator, saturated far beyond any real layout).
pub open spec fn frame_size_spec(m: IrModule, f: Seq<char>) -> i64 {
    let cls = "__gen_"@ + f;
    if m.class_layouts@.contains_key(cls) {
        let n = m.class_layouts@[cls]@.len();
        if n < 0x1000_0000 { (n * 8) as i64 } else { i64::MAX }
    } else {
        0
    }
}

/// Releases a frame of generator `f` (its size is 8 bytes per field).
fn free_frame(builder: &mut LowerBuilder, mangled: &str, frame: Value)
    requires
        old(builder).wf(),
    ensures
        LowerBuilder::kept(old(builder), final(builder)),
        LowerBuilder::same_tables(old(builder), final(builder)),
        ({
            let size = Value(old(builder).func.next_value);
            crate::ir::IrFunction::appended(&old(builder).func, &final(builder).func, seq![
                crate::ir::InstV::ConstInt { dest: size, value: frame_size_spec(old(builder).module, mangled@) },
                crate::ir::InstV::Call { dest: None, func: "__free_obj"@, args: seq![frame, size], ret_ty: IrType::Void },
            ])
        }),
{
    let cls = frame_class_name(mangled);
    let n_fields: usize = match builder.module.class_layouts.get(cls.as_str()) {
        Some(f) => f.len(),
        None => 0,
    };
    let bytes: i64 = match builder.module.class_layouts.get(cls.as_str()) {
        Some(_) => if n_fields < 0x1000_0000 { (n_fields * 8) as i64 } else { i64::MAX },
        None => 0,
    };
    let size = builder.new_value();
    let ghost f0 = builder.func;
    assert(f0.wf());
    builder.emit(Inst::ConstInt { dest: size, value: bytes });
    let ghost f1 = builder.func;
    let mut args: Vec<Value> = Vec::new();
    args.push(frame);
    args.push(size);
    assert(args@ =~= seq![frame, size]);
    emit_call(builder, None, "__free_obj".to_owned(), args, IrType::Void);
    proof {
        crate::builder::lemma_appended_twice(f0, f1, builder.func,
            seq![crate::ir::InstV::ConstInt { dest: size, value: bytes }],
            seq![crate::ir::InstV::Call { dest: None, func: "__free_obj"@, args: seq![frame, size], ret_ty: IrType::Void }]);
        assert(seq![crate::ir::InstV::ConstInt { dest: size, value: bytes }]
            + seq![crate::ir::InstV::Call { dest: None, func: "__free_obj"@, args: seq![frame, size], ret_ty: IrType::Void }]
            =~= seq![crate::ir::InstV::ConstInt { dest: size, value: bytes },
                crate::ir::InstV::Call { dest: None, func: "__free_obj"@, args: seq![frame, size], ret_ty: IrType::Void }]);
    }
}

/// Direct consumption of one value of generator `mangled` by call `expr`
/// (the language lets at most one `emit` run outside a loop there): a new
/// frame, one resume, the value read from the frame, and the frame
/// released at once.
pub fn lower_message_scalar(builder: &mut LowerBuilder, expr: &Expr, mangled: &str, elem_ty: IrType) -> (r: Value)
    requires
        old(builder).wf(),
    ensures
        LowerBuilder::kept(old(builder), final(builder)),
        consumes_one_value(final(builder).func, mangled@, elem_ty, r),
    decreases old(builder).fda_len(), *expr, 1nat,
{
    let args = collect_call_args(builder, expr);
    let ghost b0 = builder.func;
    let ghost args_v = args@;
    let frame = call_new(builder, mangled, args);
    let ghost b1 = builder.func;
    let has_val = call_resume(builder, mangled, frame);
    let ghost b2 = builder.func;
    let val = get_value_field(builder, frame, elem_ty);
    let ghost b3 = builder.func;
    let ghost size = Value(b3.next_value);
    let ghost bytes = frame_size_spec(builder.module, mangled@);
    free_frame(builder, mangled, frame);
    proof {
        let s1 = seq![InstV::Call { dest: Some(frame), func: mangled@ + "__new"@, args: args_v, ret_ty: IrType::Ptr }];
        let s2 = seq![InstV::Call { dest: Some(has_val), func: mangled@ + "__resume"@, args: seq![frame], ret_ty: IrType::Bool }];
        let s3 = seq![InstV::GetField { dest: val, obj: frame, field: value_field_spec(), ty: elem_ty, offset: 8 }];
        let s4 = seq![InstV::ConstInt { dest: size, value: bytes },
            InstV::Call { dest: None, func: "__free_obj"@, args: seq![frame, size], ret_ty: IrType::Void }];
        crate::builder::lemma_appended_twice(b0, b1, b2, s1, s2);
        crate::builder::lemma_appended_twice(b0, b2, b3, s1 + s2, s3);
        crate::builder::lemma_appended_twice(b0, b3, builder.func, s1 + s2 + s3, s4);
        let k = b0.current as int;
        let n0 = b0.code()[k].len() as int;
        let blk = builder.func.code()[k];
        assert(blk == b0.code()[k] + (s1 + s2 + s3 + s4));
        assert(blk[n0] == s1[0]);
        assert(blk[n0 + 1] == s2[0]);
        assert(blk[n0 + 2] == s3[0]);
        assert(blk[n0 + 3] == s4[0]);
        assert(blk[n0 + 4] == s4[1]);
    }
    val
}

/// A call argument that may consume a generator directly (see
/// `lower_message_scalar`); any other expression is lowered as usual.
pub fn lower_arg_or_message(builder: &mut LowerBuilder, expr: &Expr) -> (r: Value)
    requires
        old(builder).wf(),
    ensures
        LowerBuilder::kept(old(builder), final(builder)),
        match message_call_spec(*old(builder), *expr) {
            Some((m, t)) => consumes_one_value(final(builder).func, m, t, r),
            None => true,
        },
{
    match detect_message_call(builder, expr) {
        Some((mangled, elem_ty)) => lower_message_scalar(builder, expr, mangled.as_str(), elem_ty),
        None => lower_expr(builder, expr),
    }
}

/// `for var in g(...) { body }` over generator `mangled`: a new frame, then
/// a loop that resumes it and runs the body with `var` bound to the emitted
/// value while it answers `true`; `continue` resumes again and `break`
/// leaves. The frame is released where the loop ends (after exhaustion or
/// a `break`).
pub fn lower_for_message(
    builder: &mut LowerBuilder,
    var: &str,
    expr: &Expr,
    mangled: &str,
    elem_ty: IrType,
    body: &Block,
    Ghost(node): Ghost<Stmt>,
)
    requires
        old(builder).wf(),
        decreases_to!(node => *expr),
        decreases_to!(node => *body),
    ensures
        LowerBuilder::kept(old(builder), final(builder)),
        final(builder).func.current >= old(builder).func.code().len(),
        generator_loop_shape(final(builder).func, mangled@),
    decreases old(builder).fda_len(), node, 0nat,
{
    let args = collect_call_args(builder, expr);
    let frame = call_new(builder, mangled, args);
    let cond_bb = builder.new_block();
    let body_bb = builder.new_block();
    let merge_bb = builder.new_block();
    builder.emit(Inst::Jump { target: cond_bb });
    builder.switch_to(&cond_bb);
    let has_val = call_resume(builder, mangled, frame);
    builder.emit(Inst::Branch { cond: has_val, then_bb: body_bb, else_bb: merge_bb });
    let ghost b_cond = builder.func;
    proof {
        assert(b_cond.code()[cond_bb.0 as int].len() == 2);
        assert(b_cond.code()[cond_bb.0 as int][0]->Call_args == seq![frame]);
    }
    builder.switch_to(&body_bb);
    let val = get_value_field(builder, frame, elem_ty);
    let _ = builder.declare_local(var, elem_ty, false);
    builder.store_local(var, val);
    let depth = enter_loop(builder, cond_bb, merge_bb);
    lower_block(builder, body);
    exit_loop(builder, depth);
    proof {
        assert(builder.loop_stack@ =~= old(builder).loop_stack@);
    }
    if !builder.is_terminated() {
        builder.emit(Inst::Jump { target: cond_bb });
    }
    let ghost b_body = builder.func;
    builder.switch_to(&merge_bb);
    free_frame(builder, mangled, frame);
    proof {
        crate::builder::lemma_extends_trans(b_cond, b_body, builder.func);
        let c = cond_bb.0 as int;
        assert(builder.func.code()[c][0] == b_cond.code()[c][0]);
        assert(builder.func.code()[c][1] == b_cond.code()[c][1]);
    }
}

/// The loop over the values of generator `mangled`, with lowering
/// continuing in its exit block `m` (the current block), made together with
/// the condition block `m - 2` and the body block `m - 1`: the condition
/// block resumes the frame and branches to the body or to the exit; the
/// exit block ends by releasing that same frame.
pub open spec fn generator_loop_shape(f: crate::ir::IrFunction, mangled: Seq<char>) -> bool {
    let m = f.current as int;
    let c = m - 2;
    let code = f.code();
    &&& m >= 2
    &&& code[c].len() >= 2
    &&& code[c][0] is Call && code[c][0]->Call_func == mangled + "__resume"@ && code[c][0]->Call_args.len() == 1
    &&& code[c][1] matches InstV::Branch { then_bb, else_bb, .. } && then_bb.0 == c + 1 && else_bb.0 == m
    &&& code[m].len() >= 2
    &&& code[m].last() is Call && code[m].last()->Call_func == "__free_obj"@
    &&& code[m].last()->Call_args.len() == 2 && code[m].last()->Call_args[0] == code[c][0]->Call_args[0]
}


/// The frame layout of generator `name`, recorded first when it is not yet
/// known (empty when `ret_ty` is not a generator type).
fn frame_fields(module: &mut IrModule, name: &str, ret_ty: &Type, with_self: bool, params: &Vec<Param>, body: &Block) -> (r: Vec<(String, IrType)>)
    ensures
        final(module).functions == old(module).functions,
        final(module).try_counter == old(module).try_counter,
        final(module).source_file == old(module).source_file,
        final(module).class_consts == old(module).class_consts,
        final(module).strings == old(module).strings,
{
    let frame_class = frame_class_name(name);
    if !module.class_layouts.contains_key(frame_class.as_str()) {
        register_message_func_parts(module, name, ret_ty, with_self, params, body);
    }
    match module.class_layouts.get(frame_class.as_str()) {
        Some(f) => f.duplicate(),
        None => Vec::new(),
    }
}

/// `<name>__new(params...) -> ptr`: receives the parameters (`self` first
/// when `with_self`), allocates a frame of class `frame_class`, sets its
/// state to 0, stores each argument in its field, and returns the frame.
fn generate_new_fn(module: &mut IrModule, name: &str, with_self: bool, params: &Vec<Param>, frame_class: &str, fields: &Vec<(String, IrType)>)
    ensures
        final(module).functions@.len() == old(module).functions@.len() + 1,
        final(module).functions@.drop_last() == old(module).functions@,
        final(module).functions@.last().name@ == name@ + "__new"@,
        final(module).try_counter == old(module).try_counter,
        final(module).source_file == old(module).source_file,
        final(module).class_consts == old(module).class_consts,
        final(module).functions@.last().ret_ty == IrType::Ptr,
        final(module).functions@.last().params@.len() == params@.len() + (if with_self { 1int } else { 0int }),
{
    let mut names: Vec<String> = Vec::new();
    let mut tys: Vec<IrType> = Vec::new();
    if with_self {
        names.push("self".to_owned());
        tys.push(IrType::from_ast(&Type::Mixed));
    }
    let mut i: usize = 0;
    while i < params.len()
        invariant
            i <= params@.len(),
            names@.len() == tys@.len(),
            names@.len() == i + (if with_self { 1int } else { 0int }),
        decreases params@.len() - i,
    {
        names.push(params[i].name.clone());
        tys.push(IrType::from_ast(&params[i].ty));
        i = i + 1;
    }
    let mut ir_params: Vec<IrParam> = Vec::new();
    let mut k: usize = 0;
    while k < names.len()
        invariant
            k <= names@.len(),
            names@.len() == tys@.len(),
            ir_params@.len() == k,
        decreases names@.len() - k,
    {
        let slot: u32 = if k < 0xffff_ffff { k as u32 } else { 0xffff_ffff };
        ir_params.push(IrParam { name: names[k].clone(), ty: tys[k], slot: Value(slot) });
        k = k + 1;
    }
    let mut placeholder = IrModule::new("");
    std::mem::swap(module, &mut placeholder);
    let ghost m0 = placeholder;
    let mut builder = LowerBuilder::new(placeholder, new_func_name(name), ir_params, IrType::Ptr);
    let ghost name0 = builder.func.name;
    let mut updated: Vec<IrParam> = Vec::new();
    let mut j: usize = 0;
    while j < names.len()
        invariant
            j <= names@.len(),
            names@.len() == tys@.len(),
            builder.wf(),
            builder.module == m0,
            builder.func.name == name0,
            builder.func.ret_ty == IrType::Ptr,
            updated@.len() == j,
        decreases names@.len() - j,
    {
        let slot = builder.declare_local(names[j].as_str(), tys[j], false);
        let recv = builder.new_value();
        builder.emit(Inst::Store { ptr: slot, src: recv });
        updated.push(IrParam { name: names[j].clone(), ty: tys[j], slot: recv });
        j = j + 1;
    }
    builder.func.params = updated;
    let ghost params0 = builder.func.params;
    let frame = builder.new_value();
    builder.emit(Inst::Alloc { dest: frame, class: frame_class.to_owned() });
    let zero = builder.new_value();
    builder.emit(Inst::ConstInt { dest: zero, value: 0 });
    let state_off = slot_offset(field_index(fields, "__state"));
    builder.emit(Inst::SetField { obj: frame, field: "__state".to_owned(), src: zero, offset: state_off });
    let mut m: usize = 0;
    while m < names.len()
        invariant
            builder.wf(),
            builder.module == m0,
            builder.func.name == name0,
            builder.func.ret_ty == IrType::Ptr,
            builder.func.params == params0,
        decreases names@.len() - m,
    {
        match builder.load_local(names[m].as_str()) {
            Some((val, _t)) => {
                let off = slot_offset(field_index(fields, names[m].as_str()));
                builder.emit(Inst::SetField { obj: frame, field: names[m].clone(), src: val, offset: off });
            },
            None => {},
        }
        m = m + 1;
    }
    builder.emit(Inst::Return { value: Some(frame) });
    std::mem::swap(module, &mut builder.module);
    module.add_function(builder.func);
    proof {
        assert(module.functions@.drop_last() =~= old(module).functions@);
    }
}

/// `<name>__resume(frame: ptr) -> bool`, the state machine: every field of
/// the frame is a variable of the body; the body runs from its start in
/// state 0 and from the resume point of its `k`-th `emit` in state `k`; an
/// `emit` stores the value, records the next state and answers `true`; the
/// end of the body (or a `return`) makes the generator exhausted and
/// answers `false`, as does any other state.
fn generate_resume_fn(module: &mut IrModule, name: &str, body: &Block, fields: &Vec<(String, IrType)>, tables: &FunctionTables)
    ensures
        crate::builder::functions_grow(*old(module), *final(module)),
        final(module).functions@.len() > 0,
        final(module).functions@.last().name@ == name@ + "__resume"@,
        final(module).functions@.last().ret_ty == IrType::Bool,
        final(module).functions@.last().params@.len() == 1,
        final(module).functions@.last().params@[0].name@ == "__frame"@,
        final(module).functions@.last().params@[0].ty == IrType::Ptr,
{
    let mut ir_params: Vec<IrParam> = Vec::new();
    ir_params.push(IrParam { name: "__frame".to_owned(), ty: IrType::Ptr, slot: Value(0) });
    let mut placeholder = IrModule::new("");
    std::mem::swap(module, &mut placeholder);
    let ghost m0 = placeholder;
    let mut builder = LowerBuilder::new(placeholder, resume_func_name(name), ir_params, IrType::Bool);
    builder.fn_ret_types = tables.fn_ret_types.duplicate();
    builder.fn_param_types = tables.fn_param_types.duplicate();
    builder.fn_param_names = tables.fn_param_names.duplicate();
    let frame_slot = builder.declare_local("__frame", IrType::Ptr, false);
    let frame_recv = builder.new_value();
    builder.emit(Inst::Store { ptr: frame_slot, src: frame_recv });
    let mut params: Vec<IrParam> = Vec::new();
    params.push(IrParam { name: "__frame".to_owned(), ty: IrType::Ptr, slot: frame_recv });
    builder.func.params = params;
    let ghost sig = builder.func.params;
    let frame_val = match builder.load_local("__frame") {
        Some((v, _t)) => v,
        None => frame_recv,
    };
    let ghost name0 = builder.func.name;
    let mut idx: usize = 0;
    while idx < fields.len()
        invariant
            builder.wf(),
            builder.func.name == name0,
            builder.func.ret_ty == IrType::Bool,
            builder.func.params == sig,
            builder.fda_len() == 0,
            builder.module == m0,
        decreases fields@.len() - idx,
    {
        builder.frame_vars.insert(fields[idx].0.clone(), (frame_val, idx, fields[idx].1));
        idx = idx + 1;
    }
    let start_bb = builder.new_block();
    builder.switch_to(&start_bb);
    lower_block(&mut builder, body);
    if !builder.is_terminated() {
        emit_generator_exhausted(&mut builder);
    }
    let entry = BlockId(0);
    builder.switch_to(&entry);
    let state_val = match builder.load_local("__state") {
        Some((v, _t)) => v,
        None => {
            let z = builder.new_value();
            builder.emit(Inst::ConstInt { dest: z, value: 0 });
            z
        },
    };
    let zero = builder.new_value();
    builder.emit(Inst::ConstInt { dest: zero, value: 0 });
    let is_zero = builder.new_value();
    builder.emit(Inst::CmpEq { dest: is_zero, lhs: state_val, rhs: zero, ty: IrType::I64 });
    let mut next_check = builder.new_block();
    builder.emit(Inst::Branch { cond: is_zero, then_bb: start_bb, else_bb: next_check });
    let resume_blocks = builder.message_resume_blocks.duplicate();
    let mut i: usize = 0;
    while i < resume_blocks.len()
        invariant
            builder.wf(),
            builder.func.name == name0,
            builder.func.ret_ty == IrType::Bool,
            builder.func.params == sig,
            crate::builder::functions_grow(m0, builder.module),
            next_check.0 < builder.func.code().len(),
        decreases resume_blocks@.len() - i,
    {
        builder.switch_to(&next_check);
        let k: i64 = if i < 0x7fff_fff0 { (i + 1) as i64 } else { 0x7fff_fff0 };
        let k_val = builder.new_value();
        builder.emit(Inst::ConstInt { dest: k_val, value: k });
        let is_k = builder.new_value();
        builder.emit(Inst::CmpEq { dest: is_k, lhs: state_val, rhs: k_val, ty: IrType::I64 });
        let after = builder.new_block();
        builder.emit(Inst::Branch { cond: is_k, then_bb: resume_blocks[i], else_bb: after });
        next_check = after;
        i = i + 1;
    }
    builder.switch_to(&next_check);
    let false_val = builder.new_value();
    builder.emit(Inst::ConstBool { dest: false_val, value: false });
    builder.emit(Inst::Return { value: Some(false_val) });
    std::mem::swap(module, &mut builder.module);
    module.add_function(builder.func);
}

/// Lowers generator `name` (returning `message<T>`, parameters after `self`
/// when `with_self`) into `<name>__new`, which creates its frame, followed
/// (after the functions its body creates) by `<name>__resume`, the state
/// machine. Anything that is not a generator is left alone.
pub fn lower_message_func_parts(
    module: &mut IrModule,
    name: &str,
    with_self: bool,
    params: &Vec<Param>,
    ret_ty: &Type,
    body: &Block,
    tables: &FunctionTables,
)
    ensures
        crate::builder::functions_grow(*old(module), *final(module)),
        !(*ret_ty is Message) ==> *final(module) == *old(module),
        *ret_ty is Message ==> {
            &&& final(module).functions@.len() >= old(module).functions@.len() + 2
            &&& final(module).functions@[old(module).functions@.len() as int].name@ == name@ + "__new"@
            &&& final(module).functions@.last().name@ == name@ + "__resume"@
            &&& final(module).functions@.last().ret_ty == IrType::Bool
        },
{
    if !is_message_func(ret_ty) {
        return;
    }
    let frame_class = frame_class_name(name);
    let fields = frame_fields(module, name, ret_ty, with_self, params, body);
    generate_new_fn(module, name, with_self, params, frame_class.as_str(), &fields);
    generate_resume_fn(module, name, body, &fields, tables);
}

/// Lowers generator function `func` (see `lower_message_func_parts`).
pub fn lower_message_func(module: &mut IrModule, func: &FuncDecl, tables: &FunctionTables)
    ensures
        crate::builder::functions_grow(*old(module), *final(module)),
        !(func.ret_ty is Message) ==> *final(module) == *old(module),
        func.ret_ty is Message ==> final(module).functions@.len() > 0
            && final(module).functions@.last().name@ == func.name@ + "__resume"@,
{
    lower_message_func_parts(module, func.name.as_str(), false, &func.params, &func.ret_ty, &func.body, tables);
}

} // verus!
