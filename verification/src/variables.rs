//! Lowering of variable and constant declarations.
use vstd::prelude::*;
use crate::ast::{Expr, Stmt, Type, VarKind};
use crate::astcopy::copy_type;
use crate::builder::{LowerBuilder, lemma_extends_refl, lemma_extends_trans};
use crate::helpers::class_of_type_spec;
use crate::ir::{InstV, IrType, Value, ir_type_of};
use crate::lower::{lower_array_literal, lower_expr, LiteralElemKind};
use crate::message_gen::{detect_message_call, lower_message_scalar};
use crate::ownership::{maybe_clone_escaping, register_owned_local};
use crate::scope::{monomorphized_name, monomorphized_name_spec, union_named_class, union_named_class_spec};
use crate::stmt_helpers::box_for_any;
use crate::typeinfer::expr_ir_type_pub;

verus! {

/// Value type of a map type, looking through unions (`map<K,V>|null`): the
/// value type of the first member, in order, that has one.
pub open spec fn map_value_spec(t: Type) -> Option<Type>
    decreases t, 0nat,
{
    match t {
        Type::Dict(_, v) => Some(*v),
        Type::Union(vs) => {
            proof {
                assert(decreases_to!(t => vs));
                assert(decreases_to!(vs => vs@));
            }
            map_value_in(vs@, 0)
        },
        _ => None,
    }
}

/// The first value type found among `vs` from position `i` on.
pub open spec fn map_value_in(vs: Seq<Type>, i: int) -> Option<Type>
    decreases vs, vs.len() - i,
{
    if 0 <= i < vs.len() {
        match map_value_spec(vs[i]) {
            Some(v) => Some(v),
            None => map_value_in(vs, i + 1),
        }
    } else {
        None
    }
}

/// Value type of a declared map type (see `map_value_spec`).
pub fn map_value_type(ty: &Type) -> (r: Option<&Type>)
    ensures
        match r {
            Some(v) => map_value_spec(*ty) == Some(*v),
            None => map_value_spec(*ty) is None,
        },
    decreases ty,
{
    match ty {
        Type::Dict(_, v) => Some(&**v),
        Type::Union(vs) => {
            let mut i: usize = 0;
            proof {
                assert(decreases_to!(*ty => *vs));
            }
            while i < vs.len()
                invariant
                    i <= vs@.len(),
                    decreases_to!(*ty => *vs),
                    map_value_spec(*ty) == map_value_in(vs@, i as int),
                decreases vs@.len() - i,
            {
                proof {
                    assert(decreases_to!(*vs => vs@));
                    assert(decreases_to!(vs@ => vs@[i as int]));
                }
                match map_value_type(&vs[i]) {
                    Some(v) => {
                        return Some(v);
                    },
                    None => {},
                }
                i = i + 1;
            }
            None
        },
        _ => None,
    }
}

/// Class registered for a variable of declared type `t`: its class, the
/// specialisation of a generic class, `String`/`Array`/`Map` for the
/// built-in containers, the first class of a union.
pub open spec fn declared_class_spec(t: Type) -> Option<Seq<char>> {
    match t {
        Type::Union(_) => union_named_class_spec(t),
        _ => class_of_type_spec(t),
    }
}

/// Records what a variable `name` of declared type `ty` gives access to:
/// its class (see `declared_class_spec`) for field and method resolution,
/// and, for a function type, that it is called indirectly and its return
/// type. Nothing else changes.
pub fn register_var_class(builder: &mut LowerBuilder, name: &str, ty: &Type)
    ensures
        match declared_class_spec(*ty) {
            Some(c) => final(builder).var_class@.dom() == old(builder).var_class@.dom().insert(name@)
                && final(builder).var_class@[name@]@ == c
                && forall|k: Seq<char>| k != name@ && #[trigger] old(builder).var_class@.contains_key(k)
                    ==> final(builder).var_class@[k] == old(builder).var_class@[k],
            None => final(builder).var_class == old(builder).var_class,
        },
        match *ty {
            Type::Function { ret_ty, .. } => final(builder).func_vars@ == old(builder).func_vars@.insert(name@)
                && final(builder).func_ret_types@ == old(builder).func_ret_types@.insert(name@, ir_type_of(*ret_ty)),
            _ => final(builder).func_vars == old(builder).func_vars
                && final(builder).func_ret_types == old(builder).func_ret_types,
        },
        final(builder).func == old(builder).func,
        final(builder).locals == old(builder).locals,
        final(builder).map_vars == old(builder).map_vars,
        final(builder).module == old(builder).module,
        LowerBuilder::kept(old(builder), final(builder)) || !old(builder).wf(),
{
    let cls: Option<String> = match ty {
        Type::Named(c) => Some(c.clone()),
        Type::Generic { name: g, args } => Some(monomorphized_name(g.as_str(), args)),
        Type::String => Some("String".to_owned()),
        Type::Array(_) => Some("Array".to_owned()),
        Type::Dict(_, _) => Some("Map".to_owned()),
        Type::Union(_) => union_named_class(ty),
        _ => None,
    };
    match cls {
        Some(c) => {
            builder.var_class.insert(name.to_owned(), c);
            proof {
                assert(builder.var_class@.dom() =~= old(builder).var_class@.dom().insert(name@));
            }
        },
        None => {},
    }
    match ty {
        Type::Function { ret_ty, .. } => {
            builder.func_vars.insert(name.to_owned());
            builder.func_ret_types.insert(name.to_owned(), IrType::from_ast(ret_ty));
        },
        _ => {},
    }
}

/// Records the element information of a declared array or map variable:
/// element IR type, a copy of the element source type, and map-ness.
fn register_elem_types(builder: &mut LowerBuilder, name: &str, ty: &Type)
    requires
        old(builder).wf(),
    ensures
        LowerBuilder::kept(old(builder), final(builder)),
        final(builder).func == old(builder).func,
{
    match ty {
        Type::Array(inner) => {
            builder.elem_types.insert(name.to_owned(), IrType::from_ast(inner));
            builder.elem_ast_types.insert(name.to_owned(), copy_type(inner));
        },
        _ => {},
    }
    match map_value_type(ty) {
        Some(v) => {
            builder.map_vars.insert(name.to_owned());
            builder.elem_types.insert(name.to_owned(), IrType::from_ast(v));
            builder.elem_ast_types.insert(name.to_owned(), copy_type(v));
        },
        None => {},
    }
}

/// Lowers the initialiser of a declaration of type `ty`: a generator call
/// is consumed once; an array or map literal stores its elements raw when
/// the declared element type is concrete, boxed when it is `mixed`.
fn lower_literal_or_expr(builder: &mut LowerBuilder, value: &Expr, ty: &Type, Ghost(node): Ghost<Stmt>) -> (r: Value)
    requires
        old(builder).wf(),
        decreases_to!(node => *value),
    ensures
        LowerBuilder::kept(old(builder), final(builder)),
    decreases old(builder).fda_len(), node, 0nat,
{
    match detect_message_call(builder, value) {
        Some((mangled, elem_ty)) => {
            return lower_message_scalar(builder, value, mangled.as_str(), elem_ty);
        },
        None => {},
    }
    match (value, ty) {
        (Expr::Array { elements, .. }, Type::Array(inner)) => {
            let kind = match &**inner {
                Type::Mixed => LiteralElemKind::Mixed,
                _ => LiteralElemKind::Concrete,
            };
            lower_array_literal(builder, elements, kind, Ghost(*value))
        },
        (Expr::Dict { entries, .. }, Type::Dict(_, val_ty)) => {
            let kind = match &**val_ty {
                Type::Mixed => LiteralElemKind::Mixed,
                _ => LiteralElemKind::Concrete,
            };
            crate::lower::lower_map_literal(builder, entries, kind, Ghost(*value))
        },
        _ => lower_expr(builder, value),
    }
}

/// `var name: ty = value` (also `scoped`/`consumed`): records the
/// variable's element types, class and function-ness, declares its slot,
/// lowers the value (copied if it escapes from an owned local, converted to
/// the declared type), remembers the result type of a task it receives,
/// stores it, and records its ownership.
pub fn lower_var(builder: &mut LowerBuilder, name: &str, ty: &Type, value: &Expr, mutable: bool, kind: VarKind)
    requires
        old(builder).wf(),
    ensures
        LowerBuilder::kept(old(builder), final(builder)),
        declares_slot_first(*old(builder), *final(builder), *ty),
{
    let ghost node = Stmt::Var { name: vstd::pervasive::arbitrary(), ty: *ty, value: *value, mutable, kind, span: vstd::pervasive::arbitrary() };
    proof {
        assert(decreases_to!(node => node->Var_value));
    }
    lower_var_node(builder, name, ty, value, mutable, kind, Ghost(node))
}

/// The lowering behind `lower_var`; `node` is the statement or expression being
/// lowered, which bounds the recursion.
pub(crate) fn lower_var_node(builder: &mut LowerBuilder, name: &str, ty: &Type, value: &Expr, mutable: bool, kind: VarKind, Ghost(node): Ghost<Stmt>)
    requires
        old(builder).wf(),
        decreases_to!(node => *value),
    ensures
        LowerBuilder::kept(old(builder), final(builder)),
        declares_slot_first(*old(builder), *final(builder), *ty),
    decreases old(builder).fda_len(), node, 1nat,
{
    let ir_ty = IrType::from_ast(ty);
    register_elem_types(builder, name, ty);
    register_var_class(builder, name, ty);
    let _slot = builder.declare_local(name, ir_ty, mutable);
    let ghost b_decl = *builder;
    proof {
        lemma_extends_refl(b_decl.func);
    }
    let val_ty = expr_ir_type_pub(builder, value);
    let v0 = lower_literal_or_expr(builder, value, ty, Ghost(node));
    let v1 = maybe_clone_escaping(builder, value, v0);
    let v2 = box_for_any(builder, &ir_ty, val_ty, v1);
    match value {
        Expr::Call { callee, .. } => match &**callee {
            Expr::Ident(f, _) => {
                if builder.async_funcs.contains(f.as_str()) {
                    match builder.fn_ret_types.get(f.as_str()) {
                        Some(t) => {
                            let t2 = *t;
                            builder.async_var_ret.insert(name.to_owned(), t2);
                        },
                        None => {},
                    }
                }
            },
            _ => {},
        },
        _ => {},
    }
    let ghost before_store = *builder;
    builder.store_local(name, v2);
    let ghost before_reg = *builder;
    register_owned_local(builder, name, ty, kind);
    proof {
        assert(builder.block_scope_stack@.drop_last() =~= before_reg.block_scope_stack@.drop_last());
        lemma_extends_trans(b_decl.func, before_store.func, before_reg.func);
    }
}

/// A declaration `name: ty = value` starts with the stack slot of the
/// variable: the first instruction emitted is its `Alloca` of the IR type
/// of `ty`, into a fresh value.
pub open spec fn declares_slot_first(before: LowerBuilder, after: LowerBuilder, ty: Type) -> bool {
    crate::lower::first_emitted(before, after) == (InstV::Alloca { dest: Value(before.func.next_value), ty: ir_type_of(ty) })
}

/// `const name: ty = value`: like an immutable `var`, without ownership.
pub fn lower_const(builder: &mut LowerBuilder, name: &str, ty: &Type, value: &Expr)
    requires
        old(builder).wf(),
    ensures
        LowerBuilder::kept(old(builder), final(builder)),
        declares_slot_first(*old(builder), *final(builder), *ty),
{
    let ghost node = Stmt::Const { name: vstd::pervasive::arbitrary(), ty: *ty, value: *value, span: vstd::pervasive::arbitrary() };
    proof {
        assert(decreases_to!(node => node->Const_value));
    }
    lower_const_node(builder, name, ty, value, Ghost(node))
}

/// The lowering behind `lower_const`; `node` is the statement or expression being
/// lowered, which bounds the recursion.
pub(crate) fn lower_const_node(builder: &mut LowerBuilder, name: &str, ty: &Type, value: &Expr, Ghost(node): Ghost<Stmt>)
    requires
        old(builder).wf(),
        decreases_to!(node => *value),
    ensures
        LowerBuilder::kept(old(builder), final(builder)),
        declares_slot_first(*old(builder), *final(builder), *ty),
    decreases old(builder).fda_len(), node, 1nat,
{
    let ir_ty = IrType::from_ast(ty);
    register_elem_types(builder, name, ty);
    register_var_class(builder, name, ty);
    let _slot = builder.declare_local(name, ir_ty, false);
    let ghost b_decl = *builder;
    proof {
        lemma_extends_refl(b_decl.func);
    }
    let val_ty = expr_ir_type_pub(builder, value);
    let v0 = lower_literal_or_expr(builder, value, ty, Ghost(node));
    let v1 = box_for_any(builder, &ir_ty, val_ty, v0);
    builder.store_local(name, v1);
}

} // verus!
