//! Release and copy of `scoped`/`consumed` values: which runtime function
//! releases or copies a value of a given type, and where the lowering emits
//! those calls (end of block, early exits, reassignment, single use of a
//! `consumed`, escape through an assignment or a return).
use vstd::prelude::*;
use crate::ast::{Block, Expr, MatchArm, OnClause, Stmt, SwitchCase, TemplatePartExpr, Type, VarKind, BinOp};
use crate::captures::stmts_caps;
use crate::astcopy::{copy_type, type_view};
use crate::builder::{LowerBuilder, OwnedLocalInfo, lemma_extends_refl, lemma_extends_trans, drops_only, lemma_drops_only_refl, lemma_drops_only_trans};
use crate::class_ownership::{has_generated_destructor, has_destructor_spec};
use crate::ir::{Inst, InstV, IrFunction, IrModule, IrType, Value};
use crate::names::{NameMap, NameSet};
use crate::scope::{ownership_class, ownership_class_spec, OwnershipClass};
use crate::text::{concat, str_eq};

verus! {

/// `int`, `float` and `bool` own no memory.
pub open spec fn is_concrete_primitive_spec(t: Type) -> bool {
    t is Int || t is Float || t is Bool
}

/// True for `int`, `float` and `bool` only.
pub fn is_concrete_primitive_elem(ty: &Type) -> (r: bool)
    ensures
        r == is_concrete_primitive_spec(*ty),
{
    match ty {
        Type::Int | Type::Float | Type::Bool => true,
        _ => false,
    }
}

/// Shape of a fully concrete nested type: one character per container level
/// (`A` array, `M` map) down to a primitive leaf; `None` as soon as any level
/// holds something else.
pub open spec fn shape_spec(t: Type) -> Option<Seq<char>>
    decreases t,
{
    match t {
        Type::Int | Type::Float | Type::Bool => Some(Seq::empty()),
        Type::Array(inner) => match shape_spec(*inner) {
            Some(rest) => Some(seq!['A'] + rest),
            None => None,
        },
        Type::Dict(_, inner) => match shape_spec(*inner) {
            Some(rest) => Some(seq!['M'] + rest),
            None => None,
        },
        _ => None,
    }
}

/// Shape of the elements of a container type (see `shape_spec`); `None` for
/// a type that is not an array or a map.
pub open spec fn concrete_elem_shape_spec(t: Type) -> Option<Seq<char>> {
    match t {
        Type::Array(inner) => shape_spec(*inner),
        Type::Dict(_, inner) => shape_spec(*inner),
        _ => None,
    }
}

fn serialize_concrete_shape(ty: &Type) -> (r: Option<String>)
    ensures
        match r {
            Some(s) => shape_spec(*ty) == Some(s@),
            None => shape_spec(*ty) is None,
        },
    decreases ty,
{
    proof {
        reveal_strlit("A");
        reveal_strlit("M");
    }
    match ty {
        Type::Int | Type::Float | Type::Bool => Some(String::new()),
        Type::Array(inner) => match serialize_concrete_shape(inner) {
            Some(rest) => Some(concat("A", rest.as_str())),
            None => None,
        },
        Type::Dict(_, inner) => match serialize_concrete_shape(inner) {
            Some(rest) => Some(concat("M", rest.as_str())),
            None => None,
        },
        _ => None,
    }
}

/// Shape of the elements of an array or map type whose every level is
/// concrete: `""` for primitive elements, `"AAAA"` for
/// `array<array<array<array<array<int>>>>>`, `None` when a string, `mixed`,
/// object (at any depth) or a non-container is involved.
pub fn concrete_elem_shape(container_ty: &Type) -> (r: Option<String>)
    ensures
        match r {
            Some(s) => concrete_elem_shape_spec(*container_ty) == Some(s@),
            None => concrete_elem_shape_spec(*container_ty) is None,
        },
{
    match container_ty {
        Type::Array(inner) => serialize_concrete_shape(inner),
        Type::Dict(_, inner) => serialize_concrete_shape(inner),
        _ => None,
    }
}

/// How to release or copy a value: a one-argument runtime call, or a call
/// taking the value, the shape of its concrete nesting and a start offset.
#[derive(Debug)]
pub enum OwnershipFunc {
    Simple(String),
    ConcreteRecursive(String, String),
}

/// Function name and optional shape of a strategy.
pub open spec fn ofunc_view(o: OwnershipFunc) -> (Seq<char>, Option<Seq<char>>) {
    match o {
        OwnershipFunc::Simple(n) => (n@, None),
        OwnershipFunc::ConcreteRecursive(n, s) => (n@, Some(s@)),
    }
}

/// Runtime function closing a resource class.
pub open spec fn resource_closer_spec(n: Seq<char>) -> Option<Seq<char>> {
    if n == "Mutex"@ { Some("Mutex_destroy"@) }
    else if n == "SQLite"@ { Some("SQLite_close"@) }
    else if n == "MySQL"@ { Some("MySQL_close"@) }
    else if n == "MariaDB"@ { Some("MariaDB_close"@) }
    else if n == "HTTPRequest"@ { Some("HTTPRequest_close"@) }
    else if n == "HTTPResponse"@ { Some("HTTPRequest_closeResponse"@) }
    else { None }
}

/// Runtime function closing resource class `n`.
pub fn resource_closer_symbol(n: &str) -> (r: Option<String>)
    ensures
        opt_str(r) == resource_closer_spec(n@),
{
    if str_eq(n, "Mutex") { Some("Mutex_destroy".to_owned()) }
    else if str_eq(n, "SQLite") { Some("SQLite_close".to_owned()) }
    else if str_eq(n, "MySQL") { Some("MySQL_close".to_owned()) }
    else if str_eq(n, "MariaDB") { Some("MariaDB_close".to_owned()) }
    else if str_eq(n, "HTTPRequest") { Some("HTTPRequest_close".to_owned()) }
    else if str_eq(n, "HTTPResponse") { Some("HTTPRequest_closeResponse".to_owned()) }
    else { None }
}

/// The view of an optional string.
pub open spec fn opt_str(o: Option<String>) -> Option<Seq<char>> {
    match o {
        Some(s) => Some(s@),
        None => None,
    }
}

/// Copy strategy for a value type: shallow for containers of primitives,
/// shape-driven for fully concrete nestings, generic otherwise; the
/// generated copier for user classes.
pub open spec fn clone_strategy_spec(module: IrModule, ty: Type) -> Option<(Seq<char>, Option<Seq<char>>)> {
    match ty {
        Type::Array(e) => if is_concrete_primitive_spec(*e) {
            Some(("__array_clone_shallow"@, None))
        } else {
            match concrete_elem_shape_spec(ty) {
                Some(s) => Some(("__array_clone_concrete"@, Some(s))),
                None => Some(("__value_clone"@, None)),
            }
        },
        Type::Dict(_, e) => if is_concrete_primitive_spec(*e) {
            Some(("__map_clone_shallow"@, None))
        } else {
            match concrete_elem_shape_spec(ty) {
                Some(s) => Some(("__map_clone_concrete"@, Some(s))),
                None => Some(("__value_clone"@, None)),
            }
        },
        Type::String => Some(("__value_clone"@, None)),
        Type::Named(n) => if has_destructor_spec(module, n@) { Some(("__clone_"@ + n@, None)) } else { None },
        _ => None,
    }
}

/// Release strategy of an owned local (see `clone_strategy_spec` for value
/// types; resources are closed by their dedicated function).
pub open spec fn drop_strategy_spec(module: IrModule, class: OwnershipClass, ty: Type) -> Option<(Seq<char>, Option<Seq<char>>)> {
    match class {
        OwnershipClass::Value => match ty {
            Type::Array(e) => if is_concrete_primitive_spec(*e) {
                Some(("__array_free_shallow"@, None))
            } else {
                match concrete_elem_shape_spec(ty) {
                    Some(s) => Some(("__array_free_concrete"@, Some(s))),
                    None => Some(("__value_free"@, None)),
                }
            },
            Type::Dict(_, e) => if is_concrete_primitive_spec(*e) {
                Some(("__map_free_shallow"@, None))
            } else {
                match concrete_elem_shape_spec(ty) {
                    Some(s) => Some(("__map_free_concrete"@, Some(s))),
                    None => Some(("__value_free"@, None)),
                }
            },
            Type::String => Some(("__value_free"@, None)),
            Type::Named(n) => if has_destructor_spec(module, n@) { Some(("__free_"@ + n@, None)) } else { None },
            _ => None,
        },
        OwnershipClass::Resource => match ty {
            Type::Named(n) => match resource_closer_spec(n@) {
                Some(f) => Some((f, None)),
                None => None,
            },
            _ => None,
        },
        _ => None,
    }
}

fn container_strategy(ty: &Type, shallow: &str, concrete: &str, generic: &str) -> (r: OwnershipFunc)
    requires
        ty is Array || ty is Dict,
    ensures
        ofunc_view(r) == (if is_concrete_primitive_spec(match *ty { Type::Array(e) => *e, Type::Dict(_, e) => *e, _ => Type::Void }) {
            (shallow@, None)
        } else {
            match concrete_elem_shape_spec(*ty) {
                Some(s) => (concrete@, Some(s)),
                None => (generic@, None),
            }
        }),
{
    let elem = match ty {
        Type::Array(e) => &**e,
        Type::Dict(_, e) => &**e,
        _ => ty,
    };
    if is_concrete_primitive_elem(elem) {
        OwnershipFunc::Simple(shallow.to_owned())
    } else {
        match concrete_elem_shape(ty) {
            Some(shape) => OwnershipFunc::ConcreteRecursive(concrete.to_owned(), shape),
            None => OwnershipFunc::Simple(generic.to_owned()),
        }
    }
}

/// The release strategy of owned local `info` (see `drop_strategy_spec`).
pub fn drop_func_for(module: &IrModule, info: &OwnedLocalInfo) -> (r: Option<OwnershipFunc>)
    ensures
        match r {
            Some(o) => drop_strategy_spec(*module, info.class, info.ty) == Some(ofunc_view(o)),
            None => drop_strategy_spec(*module, info.class, info.ty) is None,
        },
{
    match info.class {
        OwnershipClass::Value => match &info.ty {
            Type::Array(_) => Some(container_strategy(&info.ty, "__array_free_shallow", "__array_free_concrete", "__value_free")),
            Type::Dict(_, _) => Some(container_strategy(&info.ty, "__map_free_shallow", "__map_free_concrete", "__value_free")),
            Type::String => Some(OwnershipFunc::Simple("__value_free".to_owned())),
            Type::Named(n) => if has_generated_destructor(module, n.as_str()) {
                Some(OwnershipFunc::Simple(concat("__free_", n.as_str())))
            } else {
                None
            },
            _ => None,
        },
        OwnershipClass::Resource => match &info.ty {
            Type::Named(n) => match resource_closer_symbol(n.as_str()) {
                Some(f) => Some(OwnershipFunc::Simple(f)),
                None => None,
            },
            _ => None,
        },
        _ => None,
    }
}

/// The copy strategy of owned local `info` (see `clone_strategy_spec`).
pub fn clone_func_for(module: &IrModule, info: &OwnedLocalInfo) -> (r: Option<OwnershipFunc>)
    ensures
        match r {
            Some(o) => clone_strategy_spec(*module, info.ty) == Some(ofunc_view(o)),
            None => clone_strategy_spec(*module, info.ty) is None,
        },
{
    match &info.ty {
        Type::Array(_) => Some(container_strategy(&info.ty, "__array_clone_shallow", "__array_clone_concrete", "__value_clone")),
        Type::Dict(_, _) => Some(container_strategy(&info.ty, "__map_clone_shallow", "__map_clone_concrete", "__value_clone")),
        Type::String => Some(OwnershipFunc::Simple("__value_clone".to_owned())),
        Type::Named(n) => if has_generated_destructor(module, n.as_str()) {
            Some(OwnershipFunc::Simple(concat("__clone_", n.as_str())))
        } else {
            None
        },
        _ => None,
    }
}

/// Emits the call described by `strategy` on `val`: a one-argument call, or
/// for a shape-driven strategy a call on `val`, the interned shape string and
/// the start offset 0.
pub fn emit_ownership_call(builder: &mut LowerBuilder, strategy: &OwnershipFunc, val: Value, dest: Option<Value>, ret_ty: IrType)
    ensures
        LowerBuilder::same_signature(old(builder), final(builder)),
        old(builder).wf() ==> LowerBuilder::lowered(old(builder), final(builder)),
        final(builder).locals == old(builder).locals,
        final(builder).func.current == old(builder).func.current,
        final(builder).owned_locals == old(builder).owned_locals,
        final(builder).captured_vars == old(builder).captured_vars,
        final(builder).block_scope_stack == old(builder).block_scope_stack,
        final(builder).loop_depth == old(builder).loop_depth,
        final(builder).loop_stack == old(builder).loop_stack,
        final(builder).func_default_args == old(builder).func_default_args,
        final(builder).var_class == old(builder).var_class,
        final(builder).map_vars == old(builder).map_vars,
        final(builder).module.functions == old(builder).module.functions,
        final(builder).module.try_counter == old(builder).module.try_counter,
        final(builder).module.source_file == old(builder).module.source_file,
        final(builder).module.class_consts == old(builder).module.class_consts,
        final(builder).module.class_field_types == old(builder).module.class_field_types,
        old(builder).wf() ==> match *strategy {
            OwnershipFunc::Simple(name) => IrFunction::appended(&old(builder).func, &final(builder).func,
                seq![InstV::Call { dest, func: name@, args: seq![val], ret_ty }]),
            OwnershipFunc::ConcreteRecursive(name, _s) => final(builder).func.code()[old(builder).func.current as int].last()
                == (InstV::Call { dest, func: name@, args: seq![val,
                    Value(old(builder).func.next_value), Value(crate::builder::succ(old(builder).func.next_value))], ret_ty }),
        },
{
    match strategy {
        OwnershipFunc::Simple(name) => {
            let mut args: Vec<Value> = Vec::new();
            args.push(val);
            builder.emit(Inst::Call { dest, func: name.clone(), args, ret_ty });
            assert(args@ =~= seq![val]);
        },
        OwnershipFunc::ConcreteRecursive(name, shape) => {
            let idx = builder.module.intern_string(shape.as_str());
            let ghost b0 = *builder;
            let shape_val = builder.new_value();
            builder.emit(Inst::ConstStr { dest: shape_val, idx });
            let ghost b1 = *builder;
            let offset_val = builder.new_value();
            builder.emit(Inst::ConstInt { dest: offset_val, value: 0 });
            let ghost b2 = *builder;
            let mut args: Vec<Value> = Vec::new();
            args.push(val);
            args.push(shape_val);
            args.push(offset_val);
            let fname = name.clone();
            let ghost call = (Inst::Call { dest, func: fname, args, ret_ty })@;
            builder.emit(Inst::Call { dest, func: fname, args, ret_ty });
            proof {
                if old(builder).wf() {
                    lemma_extends_refl(old(builder).func);
                    lemma_extends_trans(old(builder).func, b1.func, b2.func);
                    lemma_extends_trans(old(builder).func, b2.func, builder.func);
                    assert(args@ =~= seq![val, shape_val, offset_val]);
                    assert(builder.func.code()[old(builder).func.current as int]
                        == b2.func.code()[old(builder).func.current as int] + seq![call]);
                }
            }
        },
    }
}


/// The context after lowering something that may only release owned locals:
/// the code grew, locals and scopes are unchanged.
pub open spec fn released(a: &LowerBuilder, b: &LowerBuilder) -> bool {
    &&& (a.wf() ==> LowerBuilder::lowered(a, b))
    &&& LowerBuilder::same_signature(a, b)
    &&& b.locals == a.locals
    &&& b.captured_vars == a.captured_vars
    &&& b.block_scope_stack == a.block_scope_stack
    &&& b.loop_stack == a.loop_stack
    &&& b.loop_depth == a.loop_depth
    &&& b.func_default_args == a.func_default_args
    &&& b.module.functions == a.module.functions
    &&& b.module.try_counter == a.module.try_counter
    &&& b.module.source_file == a.module.source_file
    &&& b.module.class_consts == a.module.class_consts
    &&& b.module.class_field_types == a.module.class_field_types
    &&& b.var_class == a.var_class
    &&& b.map_vars == a.map_vars
    &&& drops_only(a.owned_locals@, b.owned_locals@)
}

/// Marks owned local `name` as released.
fn mark_dropped(owned: &mut NameMap<OwnedLocalInfo>, name: &str)
    ensures
        old(owned)@.contains_key(name@) ==> final(owned)@ == old(owned)@.insert(name@,
            OwnedLocalInfo { dropped: true, ..old(owned)@[name@] }),
        !old(owned)@.contains_key(name@) ==> final(owned)@ == old(owned)@,
{
    let placeholder = OwnedLocalInfo {
        kind: VarKind::Var,
        class: OwnershipClass::Unsupported,
        ty: Type::Void,
        dropped: false,
        declared_loop_depth: 0,
    };
    match owned.replace_value(name, placeholder) {
        Some(mut info) => {
            info.dropped = true;
            let _ = owned.replace_value(name, info);
        },
        None => {},
    }
}

/// Owned local `n` of `b` can be released: its type has a release
/// function and it is a variable of the function.
pub open spec fn releasable(b: LowerBuilder, n: Seq<char>) -> bool {
    &&& b.owned_locals@.contains_key(n)
    &&& drop_strategy_spec(b.module, b.owned_locals@[n].class, b.owned_locals@[n].ty) is Some
    &&& (b.captured_vars@.contains_key(n) || b.locals@.contains_key(n))
}

/// Releasing keeps what can be released and what was released.
proof fn lemma_released_keeps(a: LowerBuilder, b: LowerBuilder, n: Seq<char>)
    requires
        released(&a, &b),
    ensures
        releasable(a, n) ==> releasable(b, n),
        a.owned_locals@.contains_key(n) && a.owned_locals@[n].dropped ==> b.owned_locals@[n].dropped,
{
    if a.owned_locals@.contains_key(n) {
        assert(b.owned_locals@[n].class == a.owned_locals@[n].class);
        assert(b.owned_locals@[n].ty == a.owned_locals@[n].ty);
    }
}

/// Releases owned local `name` unless it was already released: reloads its
/// current value and emits its release call, then marks it released.
fn emit_drop_if_owned(builder: &mut LowerBuilder, name: &str)
    ensures
        released(old(builder), final(builder)),
        releasable(*old(builder), name@) ==> final(builder).owned_locals@[name@].dropped,
        !old(builder).owned_locals@.contains_key(name@) || old(builder).owned_locals@[name@].dropped
            ==> *final(builder) == *old(builder),
{
    let ghost b0 = *builder;
    proof {
        lemma_extends_refl(builder.func);
        lemma_drops_only_refl(builder.owned_locals@);
    }
    let strategy = match builder.owned_locals.get(name) {
        Some(info) => {
            if info.dropped {
                return;
            }
            match drop_func_for(&builder.module, info) {
                Some(s) => s,
                None => {
                    return;
                },
            }
        },
        None => {
            return;
        },
    };
    let val = match builder.load_local(name) {
        Some((v, _t)) => v,
        None => {
            return;
        },
    };
    let ghost b1 = *builder;
    emit_ownership_call(builder, &strategy, val, None, IrType::Void);
    let ghost b2 = *builder;
    mark_dropped(&mut builder.owned_locals, name);
    proof {
        if b0.wf() {
            lemma_extends_trans(b0.func, b1.func, builder.func);
        }
        assert(builder.owned_locals@.dom() =~= b0.owned_locals@.dom());
        assert(drops_only(b0.owned_locals@, builder.owned_locals@));
    }
}

/// Assigning to `name` first releases its old value: it is a live owned
/// local of value type with a release strategy, and it can be read.
pub open spec fn releases_before_reassign(b: LowerBuilder, name: Seq<char>) -> bool {
    &&& b.owned_locals@.contains_key(name)
    &&& b.owned_locals@[name].class == OwnershipClass::Value
    &&& !b.owned_locals@[name].dropped
    &&& drop_strategy_spec(b.module, OwnershipClass::Value, b.owned_locals@[name].ty) is Some
    &&& LowerBuilder::has_var(&b, name)
}

/// Before a `scoped`/`consumed` value-type local is reassigned, releases the
/// value it holds (it stays owned: the new value will be released later).
pub fn free_before_reassign(builder: &mut LowerBuilder, name: &str)
    ensures
        released(old(builder), final(builder)),
        final(builder).owned_locals == old(builder).owned_locals,
        old(builder).wf() && releases_before_reassign(*old(builder), name@) ==> ({
            let call = crate::lower::last_inst(final(builder).func);
            &&& call is Call && call->Call_dest is None && call->Call_ret_ty == IrType::Void
            &&& call->Call_func == drop_strategy_spec(old(builder).module, OwnershipClass::Value,
                old(builder).owned_locals@[name@].ty).unwrap().0
            &&& call->Call_args.len() >= 1
        }),
        old(builder).wf() && !releases_before_reassign(*old(builder), name@) ==> final(builder).func == old(builder).func,
{
    proof {
        lemma_extends_refl(builder.func);
        lemma_drops_only_refl(builder.owned_locals@);
    }
    let ghost b0 = *builder;
    let strategy = match builder.owned_locals.get(name) {
        Some(info) => {
            if info.class != OwnershipClass::Value || info.dropped {
                return;
            }
            match drop_func_for(&builder.module, info) {
                Some(s) => s,
                None => {
                    return;
                },
            }
        },
        None => {
            return;
        },
    };
    let val = match builder.load_local(name) {
        Some((v, _t)) => v,
        None => {
            return;
        },
    };
    let ghost b1 = *builder;
    emit_ownership_call(builder, &strategy, val, None, IrType::Void);
    proof {
        if b0.wf() {
            lemma_extends_trans(b0.func, b1.func, builder.func);
            assert(b1.wf());
            match strategy {
                OwnershipFunc::Simple(n) => {
                    let call = InstV::Call { dest: None, func: n@, args: seq![val], ret_ty: IrType::Void };
                    assert(builder.func.code()[builder.func.current as int]
                        == b1.func.code()[b1.func.current as int] + seq![call]);
                },
                OwnershipFunc::ConcreteRecursive(_n, _s) => {},
            }
        }
    }
}

/// Releases, in reverse order of declaration, the owned locals declared
/// directly in `block` that are still owned. Called when a block ends
/// without an early exit.
pub fn emit_scope_drops(builder: &mut LowerBuilder, block: &Block)
    ensures
        released(old(builder), final(builder)),
        forall|i: int| 0 <= i < block.stmts@.len() && (#[trigger] block.stmts@[i]) is Var
            && releasable(*old(builder), block.stmts@[i]->Var_name@)
            ==> final(builder).owned_locals@[block.stmts@[i]->Var_name@].dropped,
        block.stmts@.len() == 0 ==> *final(builder) == *old(builder),
{
    let mut names: Vec<String> = Vec::new();
    let mut i: usize = 0;
    while i < block.stmts.len()
        invariant
            i <= block.stmts@.len(),
            block.stmts@.len() == 0 ==> names@.len() == 0,
            forall|j: int| 0 <= j < i && (#[trigger] block.stmts@[j]) is Var
                ==> exists|m: int| 0 <= m < names@.len() && names@[m]@ == block.stmts@[j]->Var_name@,
        decreases block.stmts@.len() - i,
    {
        match &block.stmts[i] {
            Stmt::Var { name, .. } => {
                let ghost before = names@;
                names.push(name.clone());
                proof {
                    assert forall|j: int| 0 <= j < i + 1 && (#[trigger] block.stmts@[j]) is Var
                        implies exists|m: int| 0 <= m < names@.len() && names@[m]@ == block.stmts@[j]->Var_name@ by {
                        if j < i {
                            let m = choose|m: int| 0 <= m < before.len() && before[m]@ == block.stmts@[j]->Var_name@;
                            assert(names@[m] == before[m]);
                        } else {
                            assert(names@[names@.len() - 1]@ == block.stmts@[j]->Var_name@);
                        }
                    }
                }
            },
            _ => {},
        }
        i = i + 1;
    }
    emit_drops_of_declared(builder, &names);
}

/// Releases, in reverse order, the locals of `declared` (names declared
/// in a block, in order) that are owned locals still owned.
pub fn emit_drops_of_declared(builder: &mut LowerBuilder, declared: &Vec<String>)
    ensures
        released(old(builder), final(builder)),
        forall|j: int| 0 <= j < declared@.len() && releasable(*old(builder), (#[trigger] declared@[j])@)
            ==> final(builder).owned_locals@[declared@[j]@].dropped,
        declared@.len() == 0 ==> *final(builder) == *old(builder),
{
    let mut names: Vec<String> = Vec::new();
    let mut i: usize = declared.len();
    while i > 0
        invariant
            i <= declared@.len(),
            *builder == *old(builder),
            declared@.len() == 0 ==> names@.len() == 0,
            forall|j: int| i <= j < declared@.len() && builder.owned_locals@.contains_key((#[trigger] declared@[j])@)
                ==> exists|m: int| 0 <= m < names@.len() && names@[m]@ == declared@[j]@,
        decreases i,
    {
        i = i - 1;
        if builder.owned_locals.contains_key(declared[i].as_str()) {
            let ghost before = names@;
            names.push(declared[i].clone());
            proof {
                assert forall|j: int| i <= j < declared@.len() && builder.owned_locals@.contains_key((#[trigger] declared@[j])@)
                    implies exists|m: int| 0 <= m < names@.len() && names@[m]@ == declared@[j]@ by {
                    if j > i {
                        let m = choose|m: int| 0 <= m < before.len() && before[m]@ == declared@[j]@;
                        assert(names@[m] == before[m]);
                    } else {
                        assert(names@[names@.len() - 1]@ == declared@[j]@);
                    }
                }
            }
        }
    }
    proof {
        lemma_extends_refl(builder.func);
        lemma_drops_only_refl(builder.owned_locals@);
    }
    let mut k: usize = 0;
    while k < names.len()
        invariant
            k <= names@.len(),
            released(old(builder), builder),
            forall|m: int| 0 <= m < k && releasable(*old(builder), (#[trigger] names@[m])@)
                ==> builder.owned_locals@[names@[m]@].dropped,
            names@.len() == 0 ==> *builder == *old(builder),
        decreases names@.len() - k,
    {
        let ghost b1 = *builder;
        proof {
            lemma_released_keeps(*old(builder), b1, names@[k as int]@);
        }
        emit_drop_if_owned(builder, names[k].as_str());
        proof {
            assert forall|m: int| 0 <= m < k && releasable(*old(builder), (#[trigger] names@[m])@)
                implies builder.owned_locals@[names@[m]@].dropped by {
                lemma_released_keeps(b1, *builder, names@[m]@);
            }
            if old(builder).wf() {
                lemma_extends_trans(old(builder).func, b1.func, builder.func);
            }
            lemma_drops_only_trans(old(builder).owned_locals@, b1.owned_locals@, builder.owned_locals@);
        }
        k = k + 1;
    }
}

/// Releases the owned locals still alive in the open blocks, from the
/// innermost down to depth `down_to_depth` included (0 for a `return`, the
/// depth at loop entry for `break`/`continue`); a depth past the open
/// blocks changes nothing, and a local already released is left alone.
pub fn emit_early_exit_drops(builder: &mut LowerBuilder, down_to_depth: usize)
    ensures
        released(old(builder), final(builder)),
        forall|d: int, k: int| down_to_depth <= d < old(builder).block_scope_stack@.len()
            && 0 <= k < old(builder).block_scope_stack@[d]@.len()
            && releasable(*old(builder), (#[trigger] old(builder).block_scope_stack@[d]@[k])@)
            ==> final(builder).owned_locals@[old(builder).block_scope_stack@[d]@[k]@].dropped,
        down_to_depth >= old(builder).block_scope_stack@.len() ==> *final(builder) == *old(builder),
{
    proof {
        lemma_extends_refl(builder.func);
        lemma_drops_only_refl(builder.owned_locals@);
    }
    let ghost stack = old(builder).block_scope_stack@;
    let len = builder.block_scope_stack.len();
    if down_to_depth >= len {
        return;
    }
    let mut i: usize = len;
    while i > down_to_depth
        invariant
            down_to_depth <= i <= len,
            len == old(builder).block_scope_stack@.len(),
            stack == old(builder).block_scope_stack@,
            released(old(builder), builder),
            forall|d: int, k: int| i <= d < len && 0 <= k < stack[d]@.len()
                && releasable(*old(builder), (#[trigger] stack[d]@[k])@)
                ==> builder.owned_locals@[stack[d]@[k]@].dropped,
        decreases i,
    {
        i = i - 1;
        let names = builder.block_scope_stack[i].clone();
        proof {
            assert(names@ == stack[i as int]@);
        }
        let mut k: usize = names.len();
        while k > 0
            invariant
                k <= names@.len(),
                len == old(builder).block_scope_stack@.len(),
                stack == old(builder).block_scope_stack@,
                names@ == stack[i as int]@,
                down_to_depth <= i < len,
                released(old(builder), builder),
                forall|d: int, k2: int| i < d < len && 0 <= k2 < stack[d]@.len()
                    && releasable(*old(builder), (#[trigger] stack[d]@[k2])@)
                    ==> builder.owned_locals@[stack[d]@[k2]@].dropped,
                forall|k2: int| k <= k2 < names@.len() && releasable(*old(builder), (#[trigger] names@[k2])@)
                    ==> builder.owned_locals@[names@[k2]@].dropped,
            decreases k,
        {
            k = k - 1;
            let ghost b1 = *builder;
            proof {
                lemma_released_keeps(*old(builder), b1, names@[k as int]@);
            }
            emit_drop_if_owned(builder, names[k].as_str());
            proof {
                if old(builder).wf() {
                    lemma_extends_trans(old(builder).func, b1.func, builder.func);
                }
                lemma_drops_only_trans(old(builder).owned_locals@, b1.owned_locals@, builder.owned_locals@);
                assert forall|d: int, k2: int| i < d < len && 0 <= k2 < stack[d]@.len()
                    && releasable(*old(builder), (#[trigger] stack[d]@[k2])@)
                    implies builder.owned_locals@[stack[d]@[k2]@].dropped by {
                    lemma_released_keeps(b1, *builder, stack[d]@[k2]@);
                }
                assert forall|k2: int| k <= k2 < names@.len() && releasable(*old(builder), (#[trigger] names@[k2])@)
                    implies builder.owned_locals@[names@[k2]@].dropped by {
                    if k2 > k {
                        lemma_released_keeps(b1, *builder, names@[k2]@);
                    }
                }
            }
        }
    }
}

/// A `consumed` local that has not been released yet.
pub open spec fn is_live_consumed_spec(owned: Map<Seq<char>, OwnedLocalInfo>, name: Seq<char>) -> bool {
    owned.contains_key(name) && owned[name].kind == VarKind::Consumed && !owned[name].dropped
}

/// True when `name` is a `consumed` local not yet released.
pub fn is_live_consumed(name: &str, owned: &NameMap<OwnedLocalInfo>) -> (r: bool)
    ensures
        r == is_live_consumed_spec(owned@, name@),
{
    match owned.get(name) {
        Some(info) => info.kind == VarKind::Consumed && !info.dropped,
        None => false,
    }
}

/// The names held by a list of strings.
pub open spec fn str_names(out: Seq<String>) -> Set<Seq<char>> {
    Set::new(|n: Seq<char>| exists|i: int| 0 <= i < out.len() && (#[trigger] out[i])@ == n)
}

/// The names among `l` that `e` reads, outside the closures it contains.
pub open spec fn expr_reads(e: Expr, l: Set<Seq<char>>) -> Set<Seq<char>>
    decreases e, 0int,
{
    match e {
        Expr::Ident(n, _) => if l.contains(n@) { set![n@] } else { Set::empty() },
        Expr::SelfExpr(_) | Expr::ParentExpr(_) | Expr::Literal(..) | Expr::StaticConst { .. } => Set::empty(),
        Expr::Binary { left, right, .. } => expr_reads(*left, l).union(expr_reads(*right, l)),
        Expr::Unary { operand, .. } => expr_reads(*operand, l),
        Expr::Field { object, .. } => expr_reads(*object, l),
        Expr::Call { callee, args, .. } => {
            proof {
                assert(decreases_to!(e => args));
                assert(decreases_to!(args => args@));
            }
            expr_reads(*callee, l).union(exprs_reads(args@, args@.len() as int, l))
        },
        Expr::StaticCall { args, .. } | Expr::New { args, .. } => {
            proof {
                assert(decreases_to!(e => args));
                assert(decreases_to!(args => args@));
            }
            exprs_reads(args@, args@.len() as int, l)
        },
        Expr::Index { object, index, .. } => expr_reads(*object, l).union(expr_reads(*index, l)),
        Expr::Range { start, end, .. } => expr_reads(*start, l).union(expr_reads(*end, l)),
        Expr::Array { elements, .. } => {
            proof {
                assert(decreases_to!(e => elements));
                assert(decreases_to!(elements => elements@));
            }
            exprs_reads(elements@, elements@.len() as int, l)
        },
        Expr::Dict { entries, .. } => {
            proof {
                assert(decreases_to!(e => entries));
                assert(decreases_to!(entries => entries@));
            }
            entries_reads(entries@, entries@.len() as int, l)
        },
        Expr::Template { parts, .. } => {
            proof {
                assert(decreases_to!(e => parts));
                assert(decreases_to!(parts => parts@));
            }
            parts_reads(parts@, parts@.len() as int, l)
        },
        Expr::Match { subject, arms, .. } => {
            proof {
                assert(decreases_to!(e => arms));
                assert(decreases_to!(arms => arms@));
            }
            expr_reads(*subject, l).union(arms_reads(arms@, arms@.len() as int, l))
        },
        Expr::IsCheck { expr: inner, .. } | Expr::Resolve { expr: inner, .. } => expr_reads(*inner, l),
        Expr::IncDec { target, .. } => expr_reads(*target, l),
        Expr::Nameless { .. } => Set::empty(),
    }
}

/// `expr_reads` of the first `k` expressions of `es`.
pub open spec fn exprs_reads(es: Seq<Expr>, k: int, l: Set<Seq<char>>) -> Set<Seq<char>>
    decreases es, k,
{
    if 0 < k <= es.len() {
        exprs_reads(es, k - 1, l).union(expr_reads(es[k - 1], l))
    } else {
        Set::empty()
    }
}

/// `expr_reads` of the keys and values of the first `k` entries of `es`.
pub open spec fn entries_reads(es: Seq<(Expr, Expr)>, k: int, l: Set<Seq<char>>) -> Set<Seq<char>>
    decreases es, k,
{
    if 0 < k <= es.len() {
        proof {
            assert(decreases_to!(es => es[k - 1]));
        }
        entries_reads(es, k - 1, l).union(expr_reads(es[k - 1].0, l)).union(expr_reads(es[k - 1].1, l))
    } else {
        Set::empty()
    }
}

/// `expr_reads` of the expression parts among the first `k` parts of `ps`.
pub open spec fn parts_reads(ps: Seq<TemplatePartExpr>, k: int, l: Set<Seq<char>>) -> Set<Seq<char>>
    decreases ps, k,
{
    if 0 < k <= ps.len() {
        parts_reads(ps, k - 1, l).union(match ps[k - 1] {
            TemplatePartExpr::Expr(e) => expr_reads(e, l),
            TemplatePartExpr::Literal(_) => Set::empty(),
        })
    } else {
        Set::empty()
    }
}

/// `expr_reads` of the bodies of the first `k` arms of `arms`.
pub open spec fn arms_reads(arms: Seq<MatchArm>, k: int, l: Set<Seq<char>>) -> Set<Seq<char>>
    decreases arms, k,
{
    if 0 < k <= arms.len() {
        proof {
            assert(decreases_to!(arms => arms[k - 1]));
        }
        arms_reads(arms, k - 1, l).union(expr_reads(arms[k - 1].body, l))
    } else {
        Set::empty()
    }
}

/// The names among `l` that the expressions of `s` itself read (its nested
/// blocks are not looked into).
pub open spec fn stmt_reads(s: Stmt, l: Set<Seq<char>>) -> Set<Seq<char>> {
    match s {
        Stmt::Var { value, .. } | Stmt::Const { value, .. } | Stmt::Expr(value)
            | Stmt::Raise { value, .. } | Stmt::Emit { value, .. } => expr_reads(value, l),
        Stmt::Assign { target, value, .. } => expr_reads(target, l).union(expr_reads(value, l)),
        Stmt::Return { value, .. } | Stmt::Result { value, .. } => match value {
            Some(e) => expr_reads(e, l),
            None => Set::empty(),
        },
        Stmt::If { condition, .. } | Stmt::While { condition, .. } => expr_reads(condition, l),
        Stmt::ForIn { iter, .. } | Stmt::ForMap { iter, .. } => expr_reads(iter, l),
        Stmt::Switch { subject, .. } => expr_reads(subject, l),
        _ => Set::empty(),
    }
}

/// The live `consumed` locals of `owned`.
pub open spec fn live_consumed(owned: Map<Seq<char>, OwnedLocalInfo>) -> Set<Seq<char>> {
    Set::new(|n: Seq<char>| is_live_consumed_spec(owned, n))
}

proof fn lemma_str_names_push(out: Seq<String>, x: String)
    ensures
        str_names(out.push(x)) == str_names(out).insert(x@),
{
    let o2 = out.push(x);
    assert forall|n: Seq<char>| str_names(out).insert(x@).contains(n) implies str_names(o2).contains(n) by {
        if n == x@ {
            assert(o2[out.len() as int]@ == n);
        } else {
            let i = choose|i: int| 0 <= i < out.len() && (#[trigger] out[i])@ == n;
            assert(o2[i] == out[i]);
        }
    }
    assert forall|n: Seq<char>| str_names(o2).contains(n) implies str_names(out).insert(x@).contains(n) by {
        let i = choose|i: int| 0 <= i < o2.len() && (#[trigger] o2[i])@ == n;
        if i < out.len() {
            assert(o2[i] == out[i]);
        }
    }
    assert(str_names(o2) =~= str_names(out).insert(x@));
}

/// `out` only grew, by distinct names of live `consumed` locals.
pub open spec fn consumed_reads_ok(owned: Map<Seq<char>, OwnedLocalInfo>, out: Seq<String>) -> bool {
    &&& forall|i: int| 0 <= i < out.len() ==> is_live_consumed_spec(owned, (#[trigger] out[i])@)
    &&& forall|i: int, j: int| 0 <= i < j < out.len() ==> (#[trigger] out[i])@ != (#[trigger] out[j])@
}

fn contains_name(v: &Vec<String>, n: &str) -> (r: bool)
    ensures
        r == exists|i: int| 0 <= i < v@.len() && (#[trigger] v@[i])@ == n@,
{
    let mut i: usize = 0;
    while i < v.len()
        invariant
            i <= v@.len(),
            forall|j: int| 0 <= j < i ==> (#[trigger] v@[j])@ != n@,
        decreases v@.len() - i,
    {
        if str_eq(v[i].as_str(), n) {
            return true;
        }
        i = i + 1;
    }
    false
}

fn collect_consumed_reads_exprs(es: &Vec<Expr>, owned: &NameMap<OwnedLocalInfo>, out: &mut Vec<String>)
    requires
        consumed_reads_ok(owned@, old(out)@),
    ensures
        consumed_reads_ok(owned@, final(out)@),
        str_names(final(out)@) == str_names(old(out)@).union(exprs_reads(es@, es@.len() as int, live_consumed(owned@))),
    decreases es, 0nat,
{
    let mut i: usize = 0;
    proof {
        assert(str_names(out@) =~= str_names(old(out)@).union(exprs_reads(es@, 0, live_consumed(owned@))));
    }
    while i < es.len()
        invariant
            i <= es@.len(),
            consumed_reads_ok(owned@, out@),
            str_names(out@) == str_names(old(out)@).union(exprs_reads(es@, i as int, live_consumed(owned@))),
        decreases es@.len() - i,
    {
        proof {
            assert(decreases_to!(*es => es@));
            assert(decreases_to!(es@ => es@[i as int]));
        }
        collect_consumed_reads_expr(&es[i], owned, out);
        proof {
            assert(str_names(out@) =~= str_names(old(out)@).union(exprs_reads(es@, i + 1, live_consumed(owned@))));
        }
        i = i + 1;
    }
}

/// Collects the live `consumed` locals read by the expressions of `stmt`
/// itself (not by its nested blocks, which are scanned on their own).
pub fn collect_consumed_reads_stmt(stmt: &Stmt, owned: &NameMap<OwnedLocalInfo>, out: &mut Vec<String>)
    requires
        consumed_reads_ok(owned@, old(out)@),
    ensures
        consumed_reads_ok(owned@, final(out)@),
        str_names(final(out)@) == str_names(old(out)@).union(stmt_reads(*stmt, live_consumed(owned@))),
{
    let ghost out0 = out@;
    match stmt {
        Stmt::Var { value, .. } => collect_consumed_reads_expr(value, owned, out),
        Stmt::Const { value, .. } => collect_consumed_reads_expr(value, owned, out),
        Stmt::Expr(e) => collect_consumed_reads_expr(e, owned, out),
        Stmt::Assign { target, value, .. } => {
            collect_consumed_reads_expr(target, owned, out);
            collect_consumed_reads_expr(value, owned, out);
            proof {
                assert(str_names(out@) =~= str_names(out0).union(stmt_reads(*stmt, live_consumed(owned@))));
            }
        },
        Stmt::Return { value: Some(e), .. } | Stmt::Result { value: Some(e), .. } => {
            collect_consumed_reads_expr(e, owned, out);
        },
        Stmt::Return { .. } | Stmt::Result { .. } | Stmt::Break { .. } | Stmt::Continue { .. } => {
            proof {
                assert(str_names(out@) =~= str_names(out0).union(stmt_reads(*stmt, live_consumed(owned@))));
            }
        },
        Stmt::If { condition, .. } => collect_consumed_reads_expr(condition, owned, out),
        Stmt::While { condition, .. } => collect_consumed_reads_expr(condition, owned, out),
        Stmt::ForIn { iter, .. } => collect_consumed_reads_expr(iter, owned, out),
        Stmt::ForMap { iter, .. } => collect_consumed_reads_expr(iter, owned, out),
        Stmt::Switch { subject, .. } => collect_consumed_reads_expr(subject, owned, out),
        Stmt::Try { .. } => {
            proof {
                assert(str_names(out@) =~= str_names(out0).union(stmt_reads(*stmt, live_consumed(owned@))));
            }
        },
        Stmt::Raise { value, .. } => collect_consumed_reads_expr(value, owned, out),
        Stmt::Emit { value, .. } => collect_consumed_reads_expr(value, owned, out),
    }
}

/// Collects the live `consumed` locals read by `expr` (not inside nested
/// closures), each once.
pub fn collect_consumed_reads_expr(expr: &Expr, owned: &NameMap<OwnedLocalInfo>, out: &mut Vec<String>)
    requires
        consumed_reads_ok(owned@, old(out)@),
    ensures
        consumed_reads_ok(owned@, final(out)@),
        str_names(final(out)@) == str_names(old(out)@).union(expr_reads(*expr, live_consumed(owned@))),
    decreases expr, 1nat,
{
    let ghost out0 = out@;
    let ghost l = live_consumed(owned@);
    match expr {
        Expr::Ident(name, _) => {
            if is_live_consumed(name.as_str(), owned) && !contains_name(out, name.as_str()) {
                let ghost before = out@;
                out.push(name.clone());
                proof {
                    assert forall|i: int, j: int| 0 <= i < j < out@.len() implies (#[trigger] out@[i])@ != (#[trigger] out@[j])@ by {
                        if j == before.len() {
                            assert(out@[i] == before[i]);
                        }
                    }
                    lemma_str_names_push(before, out@[before.len() as int]);
                    assert(out@ == before.push(out@[before.len() as int]));
                    assert(l.contains(name@));
                    assert(str_names(out@) =~= str_names(out0).union(expr_reads(*expr, l)));
                }
            } else {
                proof {
                    if l.contains(name@) {
                        assert(str_names(out0).contains(name@));
                    }
                    assert(str_names(out@) =~= str_names(out0).union(expr_reads(*expr, l)));
                }
            }
        },
        Expr::SelfExpr(_) | Expr::ParentExpr(_) | Expr::Literal(..) | Expr::StaticConst { .. } => {
            proof {
                assert(str_names(out@) =~= str_names(out0).union(expr_reads(*expr, l)));
            }
        },
        Expr::Binary { left, right, .. } => {
            collect_consumed_reads_expr(left, owned, out);
            collect_consumed_reads_expr(right, owned, out);
            proof {
                assert(str_names(out@) =~= str_names(out0).union(expr_reads(*expr, l)));
            }
        },
        Expr::Unary { operand, .. } => collect_consumed_reads_expr(operand, owned, out),
        Expr::Field { object, .. } => collect_consumed_reads_expr(object, owned, out),
        Expr::Call { callee, args, .. } => {
            collect_consumed_reads_expr(callee, owned, out);
            collect_consumed_reads_exprs(args, owned, out);
            proof {
                assert(str_names(out@) =~= str_names(out0).union(expr_reads(*expr, l)));
            }
        },
        Expr::StaticCall { args, .. } => collect_consumed_reads_exprs(args, owned, out),
        Expr::New { args, .. } => collect_consumed_reads_exprs(args, owned, out),
        Expr::Index { object, index, .. } => {
            collect_consumed_reads_expr(object, owned, out);
            collect_consumed_reads_expr(index, owned, out);
            proof {
                assert(str_names(out@) =~= str_names(out0).union(expr_reads(*expr, l)));
            }
        },
        Expr::Range { start, end, .. } => {
            collect_consumed_reads_expr(start, owned, out);
            collect_consumed_reads_expr(end, owned, out);
            proof {
                assert(str_names(out@) =~= str_names(out0).union(expr_reads(*expr, l)));
            }
        },
        Expr::Array { elements, .. } => collect_consumed_reads_exprs(elements, owned, out),
        Expr::Dict { entries, .. } => {
            let mut i: usize = 0;
            proof {
                assert(decreases_to!(*expr => *entries));
                assert(str_names(out@) =~= str_names(out0).union(entries_reads(entries@, 0, l)));
            }
            while i < entries.len()
                invariant
                    i <= entries@.len(),
                    decreases_to!(*expr => *entries),
                    consumed_reads_ok(owned@, out@),
                    l == live_consumed(owned@),
                    str_names(out@) == str_names(out0).union(entries_reads(entries@, i as int, l)),
                decreases entries@.len() - i,
            {
                proof {
                    assert(decreases_to!(*entries => entries@));
                    assert(decreases_to!(entries@ => entries@[i as int]));
                    assert(decreases_to!(entries@[i as int] => entries@[i as int].0));
                    assert(decreases_to!(entries@[i as int] => entries@[i as int].1));
                }
                collect_consumed_reads_expr(&entries[i].0, owned, out);
                collect_consumed_reads_expr(&entries[i].1, owned, out);
                proof {
                    assert(str_names(out@) =~= str_names(out0).union(entries_reads(entries@, i + 1, l)));
                }
                i = i + 1;
            }
        },
        Expr::Template { parts, .. } => {
            let mut i: usize = 0;
            proof {
                assert(decreases_to!(*expr => *parts));
                assert(str_names(out@) =~= str_names(out0).union(parts_reads(parts@, 0, l)));
            }
            while i < parts.len()
                invariant
                    i <= parts@.len(),
                    decreases_to!(*expr => *parts),
                    consumed_reads_ok(owned@, out@),
                    l == live_consumed(owned@),
                    str_names(out@) == str_names(out0).union(parts_reads(parts@, i as int, l)),
                decreases parts@.len() - i,
            {
                proof {
                    assert(decreases_to!(*parts => parts@));
                    assert(decreases_to!(parts@ => parts@[i as int]));
                }
                match &parts[i] {
                    TemplatePartExpr::Expr(e) => collect_consumed_reads_expr(e, owned, out),
                    TemplatePartExpr::Literal(_) => {},
                }
                proof {
                    assert(str_names(out@) =~= str_names(out0).union(parts_reads(parts@, i + 1, l)));
                }
                i = i + 1;
            }
        },
        Expr::Match { subject, arms, .. } => {
            collect_consumed_reads_expr(subject, owned, out);
            let ghost out_s = out@;
            let mut i: usize = 0;
            proof {
                assert(decreases_to!(*expr => *arms));
                assert(str_names(out@) =~= str_names(out_s).union(arms_reads(arms@, 0, l)));
            }
            while i < arms.len()
                invariant
                    i <= arms@.len(),
                    decreases_to!(*expr => *arms),
                    consumed_reads_ok(owned@, out@),
                    l == live_consumed(owned@),
                    str_names(out@) == str_names(out_s).union(arms_reads(arms@, i as int, l)),
                decreases arms@.len() - i,
            {
                proof {
                    assert(decreases_to!(*arms => arms@));
                    assert(decreases_to!(arms@ => arms@[i as int]));
                    assert(decreases_to!(arms@[i as int] => arms@[i as int].body));
                }
                collect_consumed_reads_expr(&arms[i].body, owned, out);
                proof {
                    assert(str_names(out@) =~= str_names(out_s).union(arms_reads(arms@, i + 1, l)));
                }
                i = i + 1;
            }
            proof {
                assert(str_names(out@) =~= str_names(out0).union(expr_reads(*expr, l)));
            }
        },
        Expr::IsCheck { expr: inner, .. } => collect_consumed_reads_expr(inner, owned, out),
        Expr::Resolve { expr: inner, .. } => collect_consumed_reads_expr(inner, owned, out),
        Expr::IncDec { target, .. } => collect_consumed_reads_expr(target, owned, out),
        Expr::Nameless { .. } => {
            proof {
                assert(str_names(out@) =~= str_names(out0).union(expr_reads(*expr, l)));
            }
        },
    }
}

/// After lowering `stmt`, releases the `consumed` locals it read (their
/// single permitted use), except those declared outside a loop that `stmt`
/// is inside of: those are released once, at the end of their own block.
pub fn drop_consumed_used_in(builder: &mut LowerBuilder, stmt: &Stmt)
    ensures
        released(old(builder), final(builder)),
        forall|n: Seq<char>| #[trigger] stmt_reads(*stmt, live_consumed(old(builder).owned_locals@)).contains(n)
            && old(builder).loop_depth <= old(builder).owned_locals@[n].declared_loop_depth
            && releasable(*old(builder), n)
            ==> final(builder).owned_locals@[n].dropped,
{
    let mut found: Vec<String> = Vec::new();
    proof {
        assert(str_names(found@) =~= Set::<Seq<char>>::empty());
    }
    collect_consumed_reads_stmt(stmt, &builder.owned_locals, &mut found);
    proof {
        lemma_extends_refl(builder.func);
        lemma_drops_only_refl(builder.owned_locals@);
        assert(str_names(found@) =~= stmt_reads(*stmt, live_consumed(old(builder).owned_locals@)));
    }
    let mut k: usize = 0;
    while k < found.len()
        invariant
            k <= found@.len(),
            released(old(builder), builder),
            str_names(found@) == stmt_reads(*stmt, live_consumed(old(builder).owned_locals@)),
            forall|i: int| 0 <= i < k && old(builder).loop_depth <= old(builder).owned_locals@[(#[trigger] found@[i])@].declared_loop_depth
                && releasable(*old(builder), found@[i]@) ==> builder.owned_locals@[found@[i]@].dropped,
        decreases found@.len() - k,
    {
        let name = found[k].as_str();
        let declared = match builder.owned_locals.get(name) {
            Some(info) => info.declared_loop_depth,
            None => 0,
        };
        let ghost b1 = *builder;
        if builder.loop_depth <= declared {
            emit_drop_if_owned(builder, name);
            proof {
                if old(builder).wf() {
                    lemma_extends_trans(old(builder).func, b1.func, builder.func);
                }
                lemma_drops_only_trans(old(builder).owned_locals@, b1.owned_locals@, builder.owned_locals@);
            }
        }
        proof {
            lemma_released_keeps(*old(builder), b1, found@[k as int]@);
            assert forall|i: int| 0 <= i < k + 1 && old(builder).loop_depth <= old(builder).owned_locals@[(#[trigger] found@[i])@].declared_loop_depth
                && releasable(*old(builder), found@[i]@) implies builder.owned_locals@[found@[i]@].dropped by {
                lemma_released_keeps(b1, *builder, found@[i]@);
                lemma_released_keeps(*old(builder), b1, found@[i]@);
                if i == k {
                    if old(builder).owned_locals@.contains_key(found@[i]@) {
                        assert(b1.owned_locals@[found@[i]@].declared_loop_depth == old(builder).owned_locals@[found@[i]@].declared_loop_depth);
                    }
                }
            }
        }
        k = k + 1;
    }
    proof {
        assert forall|n: Seq<char>| #[trigger] stmt_reads(*stmt, live_consumed(old(builder).owned_locals@)).contains(n)
            && old(builder).loop_depth <= old(builder).owned_locals@[n].declared_loop_depth
            && releasable(*old(builder), n)
            implies builder.owned_locals@[n].dropped by {
            assert(str_names(found@).contains(n));
            let i = choose|i: int| 0 <= i < found@.len() && (#[trigger] found@[i])@ == n;
        }
    }
}

/// True when `expr` is an identifier naming a `scoped`/`consumed` local of
/// value type that has a copy strategy: such a value is copied when it
/// escapes through an assignment or a return.
pub open spec fn clones_on_escape_spec(b: LowerBuilder, e: Expr) -> bool {
    match e {
        Expr::Ident(n, _) => {
            &&& b.owned_locals@.contains_key(n@)
            &&& (b.owned_locals@[n@].kind == VarKind::Scoped || b.owned_locals@[n@].kind == VarKind::Consumed)
            &&& b.owned_locals@[n@].class == OwnershipClass::Value
            &&& clone_strategy_spec(b.module, b.owned_locals@[n@].ty) is Some
        },
        _ => false,
    }
}

/// At an escape point (assignment, return): when `expr` names a
/// `scoped`/`consumed` value, emits a copy of `val` and returns the copy, so
/// that the destination owns an independent value; otherwise returns `val`.
pub fn maybe_clone_escaping(builder: &mut LowerBuilder, expr: &Expr, val: Value) -> (r: Value)
    ensures
        released(old(builder), final(builder)),
        final(builder).owned_locals == old(builder).owned_locals,
        clones_on_escape_spec(*old(builder), *expr) ==> r == Value(old(builder).func.next_value),
        !clones_on_escape_spec(*old(builder), *expr) ==> r == val && final(builder).func == old(builder).func,
{
    proof {
        lemma_extends_refl(builder.func);
        lemma_drops_only_refl(builder.owned_locals@);
    }
    let name = match expr {
        Expr::Ident(n, _) => n,
        _ => {
            return val;
        },
    };
    let strategy = match builder.owned_locals.get(name.as_str()) {
        Some(info) => {
            if !(info.kind == VarKind::Scoped || info.kind == VarKind::Consumed) {
                return val;
            }
            if info.class != OwnershipClass::Value {
                return val;
            }
            match clone_func_for(&builder.module, info) {
                Some(s) => s,
                None => {
                    return val;
                },
            }
        },
        None => {
            return val;
        },
    };
    let cloned = builder.new_value();
    let ghost b1 = *builder;
    emit_ownership_call(builder, &strategy, val, Some(cloned), IrType::Ptr);
    proof {
        if old(builder).wf() {
            lemma_extends_trans(old(builder).func, b1.func, builder.func);
        }
    }
    cloned
}

/// Kind under which a declaration of class `class` is tracked: `scoped` and
/// `consumed` as written; a `var` proved never to escape (value types only)
/// as `scoped`; otherwise not tracked.
pub open spec fn effective_kind_spec(kind: VarKind, class: OwnershipClass, auto_free: bool) -> Option<VarKind> {
    match kind {
        VarKind::Scoped | VarKind::Consumed => Some(kind),
        VarKind::Var => if class == OwnershipClass::Value && auto_free { Some(VarKind::Scoped) } else { None },
    }
}

/// Records the ownership of declared local `name` of type `ty` when its
/// type is a value type or a resource: kind, class, a copy of the type, not
/// released, the current loop depth; the name is added to the innermost
/// open block. Threads and unsupported types are not tracked.
pub fn register_owned_local(builder: &mut LowerBuilder, name: &str, ty: &Type, kind: VarKind)
    ensures
        ({
            let class = ownership_class_spec(*ty);
            let eff = effective_kind_spec(kind, class, old(builder).auto_freeable_vars@.contains(name@));
            if eff is Some && (class == OwnershipClass::Value || class == OwnershipClass::Resource) {
                &&& final(builder).owned_locals@.dom() == old(builder).owned_locals@.dom().insert(name@)
                &&& forall|k: Seq<char>| k != name@ && #[trigger] old(builder).owned_locals@.contains_key(k)
                    ==> final(builder).owned_locals@[k] == old(builder).owned_locals@[k]
                &&& final(builder).owned_locals@[name@].kind == eff.unwrap()
                &&& final(builder).owned_locals@[name@].class == class
                &&& type_view(final(builder).owned_locals@[name@].ty) == type_view(*ty)
                &&& !final(builder).owned_locals@[name@].dropped
                &&& final(builder).owned_locals@[name@].declared_loop_depth == old(builder).loop_depth
                &&& final(builder).block_scope_stack@.len() == old(builder).block_scope_stack@.len()
                &&& old(builder).block_scope_stack@.len() > 0 ==> {
                    &&& final(builder).block_scope_stack@.drop_last() == old(builder).block_scope_stack@.drop_last()
                    &&& final(builder).block_scope_stack@.last()@.len() == old(builder).block_scope_stack@.last()@.len() + 1
                    &&& final(builder).block_scope_stack@.last()@.drop_last() == old(builder).block_scope_stack@.last()@
                    &&& final(builder).block_scope_stack@.last()@.last()@ == name@
                }
                &&& old(builder).block_scope_stack@.len() == 0 ==> final(builder).block_scope_stack == old(builder).block_scope_stack
            } else {
                *final(builder) == *old(builder)
            }
        }),
        final(builder).func == old(builder).func,
        final(builder).locals == old(builder).locals,
        final(builder).module == old(builder).module,
        final(builder).func_default_args == old(builder).func_default_args,
        final(builder).loop_depth == old(builder).loop_depth,
        final(builder).loop_stack == old(builder).loop_stack,
        final(builder).var_class == old(builder).var_class,
        final(builder).map_vars == old(builder).map_vars,
{
    let class = ownership_class(ty);
    let eff = match kind {
        VarKind::Scoped | VarKind::Consumed => kind,
        VarKind::Var => {
            if class == OwnershipClass::Value && builder.auto_freeable_vars.contains(name) {
                VarKind::Scoped
            } else {
                return;
            }
        },
    };
    if class == OwnershipClass::Value || class == OwnershipClass::Resource {
        let info = OwnedLocalInfo {
            kind: eff,
            class,
            ty: copy_type(ty),
            dropped: false,
            declared_loop_depth: builder.loop_depth,
        };
        builder.owned_locals.insert(name.to_owned(), info);
        let n = builder.block_scope_stack.len();
        if n > 0 {
            let mut top = builder.block_scope_stack.pop().unwrap();
            top.push(name.to_owned());
            builder.block_scope_stack.push(top);
        }
    }
}

/// A `var` initialiser that produces a freshly allocated value owned only by
/// the variable: an instantiation, an array or map literal, a concatenation,
/// a plain literal.
pub open spec fn is_fresh_allocation_spec(e: Expr) -> bool {
    match e {
        Expr::New { .. } | Expr::Array { .. } | Expr::Dict { .. } | Expr::Literal(..) => true,
        Expr::Binary { op, .. } => op == BinOp::Add,
        _ => false,
    }
}

/// True when `value` yields a fresh allocation (see `is_fresh_allocation_spec`).
pub fn is_fresh_allocation(value: &Expr) -> (r: bool)
    ensures
        r == is_fresh_allocation_spec(*value),
{
    match value {
        Expr::New { .. } | Expr::Array { .. } | Expr::Dict { .. } | Expr::Literal(..) => true,
        Expr::Binary { op, .. } => *op == BinOp::Add,
        _ => false,
    }
}

/// A `var` never escapes when nothing after its declaration refers to it.
fn var_never_escapes(name: &str, block: &Block, i: usize) -> (r: bool)
    requires
        i < block.stmts@.len(),
    ensures
        r == never_escapes_spec(name@, block.stmts@, i as int),
{
    let n = block.stmts.len();
    assert(i < n);
    let refers = crate::captures::references_after(block, i + 1, name);
    proof {
        assert(crate::captures::stmts_from(*block, i + 1) =~= block.stmts@.subrange(i + 1, block.stmts@.len() as int));
    }
    !refers
}

/// Nothing in the statements after position `i` of `ss` refers to `name`
/// (directly or through a closure they create).
pub open spec fn never_escapes_spec(name: Seq<char>, ss: Seq<Stmt>, i: int) -> bool {
    let rest = ss.subrange(i + 1, ss.len() as int);
    !stmts_caps(rest, rest.len() as int, true, Set::empty(), set![name]).contains(name)
}

/// The name of statement `i` of `ss` when it is a `var` of a value type
/// initialised with a fresh allocation that never escapes.
pub open spec fn auto_free_candidate(ss: Seq<Stmt>, i: int) -> Set<Seq<char>> {
    match ss[i] {
        Stmt::Var { name, ty, value, kind: VarKind::Var, .. } =>
            if ownership_class_spec(ty) == OwnershipClass::Value && is_fresh_allocation_spec(value)
                && never_escapes_spec(name@, ss, i) {
                set![name@]
            } else {
                Set::empty()
            },
        _ => Set::empty(),
    }
}

/// The automatically released `var`s among the first `k` statements of
/// `ss`, at any nesting of blocks.
pub open spec fn auto_free_stmts(ss: Seq<Stmt>, k: int) -> Set<Seq<char>>
    decreases ss, k,
{
    if 0 < k <= ss.len() {
        auto_free_stmts(ss, k - 1).union(auto_free_candidate(ss, k - 1)).union(auto_free_nested(ss[k - 1]))
    } else {
        Set::empty()
    }
}

/// The automatically released `var`s of the blocks nested in statement `s`.
pub open spec fn auto_free_nested(s: Stmt) -> Set<Seq<char>>
    decreases s, 0int,
{
    match s {
        Stmt::If { then_block, elseif, else_block, .. } => {
            proof {
                assert(decreases_to!(s => then_block));
                assert(decreases_to!(then_block => then_block.stmts));
                assert(decreases_to!(then_block.stmts => then_block.stmts@));
                assert(decreases_to!(s => elseif));
                assert(decreases_to!(elseif => elseif@));
            }
            auto_free_stmts(then_block.stmts@, then_block.stmts@.len() as int)
                .union(auto_free_elseif(elseif@, elseif@.len() as int))
                .union(match else_block {
                    Some(b) => {
                        proof {
                            assert(decreases_to!(s => else_block));
                            assert(decreases_to!(else_block => b));
                            assert(decreases_to!(b => b.stmts));
                            assert(decreases_to!(b.stmts => b.stmts@));
                        }
                        auto_free_stmts(b.stmts@, b.stmts@.len() as int)
                    },
                    None => Set::empty(),
                })
        },
        Stmt::Switch { cases, default, .. } => {
            proof {
                assert(decreases_to!(s => cases));
                assert(decreases_to!(cases => cases@));
            }
            auto_free_cases(cases@, cases@.len() as int).union(match default {
                Some(b) => {
                    proof {
                        assert(decreases_to!(s => default));
                        assert(decreases_to!(default => b));
                        assert(decreases_to!(b => b.stmts));
                        assert(decreases_to!(b.stmts => b.stmts@));
                    }
                    auto_free_stmts(b.stmts@, b.stmts@.len() as int)
                },
                None => Set::empty(),
            })
        },
        Stmt::While { body, .. } | Stmt::ForIn { body, .. } | Stmt::ForMap { body, .. } => {
            proof {
                assert(decreases_to!(s => body));
                assert(decreases_to!(body => body.stmts));
                assert(decreases_to!(body.stmts => body.stmts@));
            }
            auto_free_stmts(body.stmts@, body.stmts@.len() as int)
        },
        Stmt::Try { body, handlers, .. } => {
            proof {
                assert(decreases_to!(s => body));
                assert(decreases_to!(body => body.stmts));
                assert(decreases_to!(body.stmts => body.stmts@));
                assert(decreases_to!(s => handlers));
                assert(decreases_to!(handlers => handlers@));
            }
            auto_free_stmts(body.stmts@, body.stmts@.len() as int).union(auto_free_handlers(handlers@, handlers@.len() as int))
        },
        _ => Set::empty(),
    }
}

/// The automatically released `var`s of the blocks of the first `k`
/// `else if` branches.
pub open spec fn auto_free_elseif(es: Seq<(Expr, Block)>, k: int) -> Set<Seq<char>>
    decreases es, k,
{
    if 0 < k <= es.len() {
        proof {
            assert(decreases_to!(es => es[k - 1]));
            assert(decreases_to!(es[k - 1] => es[k - 1].1));
            assert(decreases_to!(es[k - 1].1 => es[k - 1].1.stmts));
            assert(decreases_to!(es[k - 1].1.stmts => es[k - 1].1.stmts@));
        }
        auto_free_elseif(es, k - 1).union(auto_free_stmts(es[k - 1].1.stmts@, es[k - 1].1.stmts@.len() as int))
    } else {
        Set::empty()
    }
}

/// The automatically released `var`s of the bodies of the first `k` cases.
pub open spec fn auto_free_cases(cs: Seq<SwitchCase>, k: int) -> Set<Seq<char>>
    decreases cs, k,
{
    if 0 < k <= cs.len() {
        proof {
            assert(decreases_to!(cs => cs[k - 1]));
            assert(decreases_to!(cs[k - 1] => cs[k - 1].body));
            assert(decreases_to!(cs[k - 1].body => cs[k - 1].body.stmts));
            assert(decreases_to!(cs[k - 1].body.stmts => cs[k - 1].body.stmts@));
        }
        auto_free_cases(cs, k - 1).union(auto_free_stmts(cs[k - 1].body.stmts@, cs[k - 1].body.stmts@.len() as int))
    } else {
        Set::empty()
    }
}

/// The automatically released `var`s of the bodies of the first `k`
/// handlers.
pub open spec fn auto_free_handlers(hs: Seq<OnClause>, k: int) -> Set<Seq<char>>
    decreases hs, k,
{
    if 0 < k <= hs.len() {
        proof {
            assert(decreases_to!(hs => hs[k - 1]));
            assert(decreases_to!(hs[k - 1] => hs[k - 1].body));
            assert(decreases_to!(hs[k - 1].body => hs[k - 1].body.stmts));
            assert(decreases_to!(hs[k - 1].body.stmts => hs[k - 1].body.stmts@));
        }
        auto_free_handlers(hs, k - 1).union(auto_free_stmts(hs[k - 1].body.stmts@, hs[k - 1].body.stmts@.len() as int))
    } else {
        Set::empty()
    }
}

/// The `var`s of `body` (at any nesting of blocks) that hold a fresh
/// value-type allocation and never escape: released at the end of their
/// block like a `scoped` one (see `auto_free_stmts`).
pub fn compute_auto_freeable_vars(module: &IrModule, body: &Block, self_class: Option<&str>) -> (r: NameSet)
    ensures
        r@ == auto_free_stmts(body.stmts@, body.stmts@.len() as int),
{
    let mut eligible = NameSet::new();
    proof {
        assert(eligible@ =~= Set::<Seq<char>>::empty());
    }
    collect_var_candidates(module, body, self_class, &mut eligible);
    proof {
        assert(eligible@ =~= auto_free_stmts(body.stmts@, body.stmts@.len() as int));
    }
    eligible
}

fn collect_var_candidates(module: &IrModule, block: &Block, self_class: Option<&str>, eligible: &mut NameSet)
    ensures
        final(eligible)@ == old(eligible)@.union(auto_free_stmts(block.stmts@, block.stmts@.len() as int)),
    decreases block, 0nat,
{
    let mut i: usize = 0;
    proof {
        assert(eligible@ =~= old(eligible)@.union(auto_free_stmts(block.stmts@, 0)));
    }
    while i < block.stmts.len()
        invariant
            i <= block.stmts@.len(),
            eligible@ == old(eligible)@.union(auto_free_stmts(block.stmts@, i as int)),
        decreases block.stmts@.len() - i,
    {
        proof {
            assert(decreases_to!(*block => block.stmts));
            assert(decreases_to!(block.stmts => block.stmts@));
            assert(decreases_to!(block.stmts@ => block.stmts@[i as int]));
        }
        let ghost e0 = eligible@;
        match &block.stmts[i] {
            Stmt::Var { name, ty, value, kind: VarKind::Var, .. } => {
                if ownership_class(ty) == OwnershipClass::Value && is_fresh_allocation(value)
                    && var_never_escapes(name.as_str(), block, i) {
                    eligible.insert(name.clone());
                }
            },
            _ => {},
        }
        proof {
            assert(eligible@ =~= e0.union(auto_free_candidate(block.stmts@, i as int)));
        }
        let ghost e1 = eligible@;
        walk_nested_blocks_for_vars(&block.stmts[i], module, self_class, eligible);
        proof {
            assert(eligible@ =~= old(eligible)@.union(auto_free_stmts(block.stmts@, i + 1)));
        }
        i = i + 1;
    }
}

fn walk_nested_blocks_for_vars(stmt: &Stmt, module: &IrModule, self_class: Option<&str>, eligible: &mut NameSet)
    ensures
        final(eligible)@ == old(eligible)@.union(auto_free_nested(*stmt)),
    decreases stmt, 0nat,
{
    match stmt {
        Stmt::If { then_block, elseif, else_block, .. } => {
            collect_var_candidates(module, then_block, self_class, eligible);
            let ghost e1 = eligible@;
            let mut i: usize = 0;
            proof {
                assert(decreases_to!(*stmt => *elseif));
                assert(eligible@ =~= e1.union(auto_free_elseif(elseif@, 0)));
            }
            while i < elseif.len()
                invariant
                    i <= elseif@.len(),
                    decreases_to!(*stmt => *elseif),
                    eligible@ == e1.union(auto_free_elseif(elseif@, i as int)),
                decreases elseif@.len() - i,
            {
                proof {
                    assert(decreases_to!(*elseif => elseif@));
                    assert(decreases_to!(elseif@ => elseif@[i as int]));
                    assert(decreases_to!(elseif@[i as int] => elseif@[i as int].1));
                }
                collect_var_candidates(module, &elseif[i].1, self_class, eligible);
                proof {
                    assert(eligible@ =~= e1.union(auto_free_elseif(elseif@, i + 1)));
                }
                i = i + 1;
            }
            match else_block {
                Some(b) => collect_var_candidates(module, b, self_class, eligible),
                None => {},
            }
            proof {
                assert(eligible@ =~= old(eligible)@.union(auto_free_nested(*stmt)));
            }
        },
        Stmt::Switch { cases, default, .. } => {
            let mut i: usize = 0;
            proof {
                assert(decreases_to!(*stmt => *cases));
                assert(eligible@ =~= old(eligible)@.union(auto_free_cases(cases@, 0)));
            }
            while i < cases.len()
                invariant
                    i <= cases@.len(),
                    decreases_to!(*stmt => *cases),
                    eligible@ == old(eligible)@.union(auto_free_cases(cases@, i as int)),
                decreases cases@.len() - i,
            {
                proof {
                    assert(decreases_to!(*cases => cases@));
                    assert(decreases_to!(cases@ => cases@[i as int]));
                    assert(decreases_to!(cases@[i as int] => cases@[i as int].body));
                }
                collect_var_candidates(module, &cases[i].body, self_class, eligible);
                proof {
                    assert(eligible@ =~= old(eligible)@.union(auto_free_cases(cases@, i + 1)));
                }
                i = i + 1;
            }
            match default {
                Some(b) => collect_var_candidates(module, b, self_class, eligible),
                None => {},
            }
            proof {
                assert(eligible@ =~= old(eligible)@.union(auto_free_nested(*stmt)));
            }
        },
        Stmt::While { body, .. } => collect_var_candidates(module, body, self_class, eligible),
        Stmt::ForIn { body, .. } => collect_var_candidates(module, body, self_class, eligible),
        Stmt::ForMap { body, .. } => collect_var_candidates(module, body, self_class, eligible),
        Stmt::Try { body, handlers, .. } => {
            collect_var_candidates(module, body, self_class, eligible);
            let ghost e1 = eligible@;
            let mut i: usize = 0;
            proof {
                assert(decreases_to!(*stmt => *handlers));
                assert(eligible@ =~= e1.union(auto_free_handlers(handlers@, 0)));
            }
            while i < handlers.len()
                invariant
                    i <= handlers@.len(),
                    decreases_to!(*stmt => *handlers),
                    eligible@ == e1.union(auto_free_handlers(handlers@, i as int)),
                decreases handlers@.len() - i,
            {
                proof {
                    assert(decreases_to!(*handlers => handlers@));
                    assert(decreases_to!(handlers@ => handlers@[i as int]));
                    assert(decreases_to!(handlers@[i as int] => handlers@[i as int].body));
                }
                collect_var_candidates(module, &handlers[i].body, self_class, eligible);
                proof {
                    assert(eligible@ =~= e1.union(auto_free_handlers(handlers@, i + 1)));
                }
                i = i + 1;
            }
            proof {
                assert(eligible@ =~= old(eligible)@.union(auto_free_nested(*stmt)));
            }
        },
        _ => {
            proof {
                assert(eligible@ =~= old(eligible)@.union(auto_free_nested(*stmt)));
            }
        },
    }
}

} // verus!
