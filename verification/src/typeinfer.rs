//! Static IR type of an expression, computed without emitting code.
use vstd::prelude::*;
use vstd::string::*;
use crate::ast::{BinOp, Expr, Literal, UnaryOp};
use crate::builder::LowerBuilder;
use crate::helpers::{chained_class_spec, field_lookup, find_field, opt_view, resolve_chained_field_class,
    resolve_class, resolve_class_spec};
use crate::ir::IrType;
use crate::message_gen::{detect_message_call, message_call_spec};
use crate::text::{concat3, mangle, mangle_spec, str_eq};

verus! {

/// Type of variable `n`: a generator frame variable, a local, a captured
/// variable, in that order; a pointer when unknown.
pub open spec fn var_type_spec(b: LowerBuilder, n: Seq<char>) -> IrType {
    if b.frame_vars@.contains_key(n) {
        b.frame_vars@[n].2
    } else if b.locals@.contains_key(n) {
        b.locals@[n].1
    } else if b.captured_vars@.contains_key(n) {
        b.captured_vars@[n].2
    } else {
        IrType::Ptr
    }
}

/// `Array::get/first/last/pop` and `Map::get`, whose element type depends on
/// the container.
pub open spec fn is_concrete_get_spec(cls: Seq<char>, method: Seq<char>) -> bool {
    (cls == "Array"@ && (method == "get"@ || method == "first"@ || method == "last"@ || method == "pop"@))
        || (cls == "Map"@ && method == "get"@)
}

/// Element type recorded for the container variable `e`, if `e` is one.
pub open spec fn elem_type_of_var(b: LowerBuilder, e: Expr) -> Option<IrType> {
    match e {
        Expr::Ident(n, _) => if b.elem_types@.contains_key(n@) { Some(b.elem_types@[n@]) } else { None },
        _ => None,
    }
}

/// Return type recorded for function `f`.
pub open spec fn ret_type_of(b: LowerBuilder, f: Seq<char>) -> Option<IrType> {
    if b.fn_ret_types@.contains_key(f) { Some(b.fn_ret_types@[f]) } else { None }
}

/// Class of the receiver of a method call, when it can be resolved
/// statically.
pub open spec fn receiver_class_spec(b: LowerBuilder, object: Expr) -> Option<Seq<char>> {
    match object {
        Expr::Ident(n, _) => if b.var_class@.contains_key(n@) { Some(b.var_class@[n@]@) } else { None },
        Expr::SelfExpr(_) => opt_view(b.current_class),
        Expr::Literal(Literal::String(_), _) => Some("String"@),
        Expr::Call { callee, .. } => match *callee {
            Expr::Field { object: inner_obj, field: inner_method, .. } => match *inner_obj {
                Expr::Ident(n, _) => if b.var_class@.contains_key(n@) {
                    let cls = b.var_class@[n@]@;
                    if ret_type_of(b, mangle_spec(cls, inner_method@)) == Some(IrType::Ptr) { Some(cls) } else { None }
                } else {
                    None
                },
                _ => None,
            },
            _ => None,
        },
        Expr::Field { object: inner, field: f, .. } => chained_class_spec(b, *inner, f@),
        _ => None,
    }
}

/// Class of the object of a field access.
pub open spec fn field_owner_spec(b: LowerBuilder, object: Expr) -> Option<Seq<char>> {
    match object {
        Expr::Ident(n, _) => if b.var_class@.contains_key(n@) { Some(b.var_class@[n@]@) } else { None },
        Expr::SelfExpr(_) => opt_view(b.current_class),
        Expr::Field { object: inner, field: f, .. } => chained_class_spec(b, *inner, f@),
        _ => None,
    }
}

/// IR type of an arithmetic or comparison expression from its operands'.
pub open spec fn binary_type_spec(op: BinOp, lt: IrType, rt: IrType) -> IrType {
    if op == BinOp::Equal || op == BinOp::NotEqual || op == BinOp::Smaller || op == BinOp::Greater
        || op == BinOp::SmallerOrEqual || op == BinOp::GreaterOrEqual || op == BinOp::And || op == BinOp::Or {
        IrType::Bool
    } else if op == BinOp::Add || op == BinOp::Sub || op == BinOp::Mul || op == BinOp::Div {
        if lt == IrType::Ptr || rt == IrType::Ptr {
            IrType::Ptr
        } else if lt == IrType::F64 || rt == IrType::F64 {
            IrType::F64
        } else {
            IrType::I64
        }
    } else if op == BinOp::Mod {
        if lt == IrType::F64 || rt == IrType::F64 { IrType::F64 } else { IrType::I64 }
    } else {
        IrType::I64
    }
}

/// Static IR type of `e`: what the lowering of `e` produces, as far as the
/// symbol tables tell; a pointer (never an integer) for a call whose target
/// is unknown.
pub open spec fn expr_ir_type_spec(b: LowerBuilder, e: Expr) -> IrType
    decreases e,
{
    match e {
        Expr::Literal(lit, _) => match lit {
            Literal::Int(_) => IrType::I64,
            Literal::Float(_) => IrType::F64,
            Literal::Bool(_) => IrType::Bool,
            _ => IrType::Ptr,
        },
        Expr::Ident(n, _) => var_type_spec(b, n@),
        Expr::StaticCall { class, method, args, .. } => match message_call_spec(b, e) {
            Some((_m, t)) => t,
            None => {
                let cls = resolve_class_spec(b, class@);
                let first_elem = if args@.len() > 0 { elem_type_of_var(b, args@[0]) } else { None };
                if is_concrete_get_spec(cls, method@) && first_elem is Some {
                    first_elem.unwrap()
                } else {
                    match ret_type_of(b, mangle_spec(cls, method@)) {
                        Some(t) => t,
                        None => IrType::Ptr,
                    }
                }
            },
        },
        Expr::Binary { op, left, right, .. } =>
            binary_type_spec(op, expr_ir_type_spec(b, *left), expr_ir_type_spec(b, *right)),
        Expr::Template { .. } => IrType::Ptr,
        Expr::Match { arms, .. } => if arms@.len() > 0 { expr_ir_type_spec(b, arms@[0].body) } else { IrType::I64 },
        Expr::Index { object, .. } => match elem_type_of_var(b, *object) {
            Some(t) => t,
            None => IrType::Ptr,
        },
        Expr::Field { object, field, .. } => match field_owner_spec(b, *object) {
            Some(c) => if b.module.class_layouts@.contains_key(c) {
                match field_lookup(b.module.class_layouts@[c]@, field@) {
                    Some((_i, t)) => t,
                    None => IrType::Ptr,
                }
            } else {
                IrType::Ptr
            },
            None => IrType::Ptr,
        },
        Expr::Call { callee, .. } => match message_call_spec(b, e) {
            Some((_m, t)) => t,
            None => match *callee {
                Expr::Ident(f, _) => if b.func_ret_types@.contains_key(f@) {
                    b.func_ret_types@[f@]
                } else {
                    match ret_type_of(b, f@) {
                        Some(t) => t,
                        None => IrType::Ptr,
                    }
                },
                Expr::Field { object, field, .. } => match receiver_class_spec(b, *object) {
                    Some(c) => if is_concrete_get_spec(c, field@) && elem_type_of_var(b, *object) is Some {
                        elem_type_of_var(b, *object).unwrap()
                    } else {
                        match ret_type_of(b, mangle_spec(c, field@)) {
                            Some(t) => t,
                            None => IrType::Ptr,
                        }
                    },
                    None => IrType::Ptr,
                },
                _ => IrType::Ptr,
            },
        },
        Expr::StaticConst { class, name, .. } => {
            let key = class@ + "__"@ + name@;
            if b.module.class_consts@.contains_key(key) { b.module.class_consts@[key].0 } else { IrType::Ptr }
        },
        Expr::Unary { op, operand, .. } => match op {
            UnaryOp::Not => IrType::Bool,
            UnaryOp::Neg => expr_ir_type_spec(b, *operand),
        },
        Expr::IsCheck { .. } => IrType::Bool,
        Expr::Resolve { expr: inner, .. } => resolve_type_spec(b, *inner),
        Expr::Nameless { .. } | Expr::Array { .. } | Expr::Dict { .. } | Expr::New { .. }
        | Expr::SelfExpr(_) | Expr::ParentExpr(_) => IrType::Ptr,
        _ => IrType::I64,
    }
}

/// Type of the value a task resolves to: the return type of the task's
/// function when it is known.
pub open spec fn resolve_type_spec(b: LowerBuilder, inner: Expr) -> IrType {
    match inner {
        Expr::Ident(v, _) => if b.async_var_ret@.contains_key(v@) { b.async_var_ret@[v@] } else { IrType::I64 },
        Expr::Call { callee, .. } => match *callee {
            Expr::Ident(f, _) => if b.async_funcs@.contains(f@) {
                match ret_type_of(b, f@) {
                    Some(t) => t,
                    None => IrType::I64,
                }
            } else {
                IrType::I64
            },
            _ => IrType::I64,
        },
        _ => IrType::I64,
    }
}

fn var_type(builder: &LowerBuilder, n: &str) -> (r: IrType)
    ensures
        r == var_type_spec(*builder, n@),
{
    match builder.frame_vars.get(n) {
        Some(e) => {
            return e.2;
        },
        None => {},
    }
    match builder.locals.get(n) {
        Some(e) => {
            return e.1;
        },
        None => {},
    }
    match builder.captured_vars.get(n) {
        Some(e) => e.2,
        None => IrType::Ptr,
    }
}

fn is_concrete_get(cls: &str, method: &str) -> (r: bool)
    ensures
        r == is_concrete_get_spec(cls@, method@),
{
    (str_eq(cls, "Array") && (str_eq(method, "get") || str_eq(method, "first") || str_eq(method, "last") || str_eq(method, "pop")))
        || (str_eq(cls, "Map") && str_eq(method, "get"))
}

fn elem_type_var(builder: &LowerBuilder, e: &Expr) -> (r: Option<IrType>)
    ensures
        r == elem_type_of_var(*builder, *e),
{
    match e {
        Expr::Ident(n, _) => match builder.elem_types.get(n.as_str()) {
            Some(t) => Some(*t),
            None => None,
        },
        _ => None,
    }
}

fn ret_type(builder: &LowerBuilder, f: &str) -> (r: Option<IrType>)
    ensures
        r == ret_type_of(*builder, f@),
{
    match builder.fn_ret_types.get(f) {
        Some(t) => Some(*t),
        None => None,
    }
}

fn receiver_class(builder: &LowerBuilder, object: &Expr) -> (r: Option<String>)
    ensures
        opt_view(r) == receiver_class_spec(*builder, *object),
{
    match object {
        Expr::Ident(n, _) => match builder.var_class.get(n.as_str()) {
            Some(c) => Some(c.clone()),
            None => None,
        },
        Expr::SelfExpr(_) => match &builder.current_class {
            Some(c) => Some(c.clone()),
            None => None,
        },
        Expr::Literal(Literal::String(_), _) => Some("String".to_owned()),
        Expr::Call { callee, .. } => match &**callee {
            Expr::Field { object: inner_obj, field: inner_method, .. } => match &**inner_obj {
                Expr::Ident(n, _) => match builder.var_class.get(n.as_str()) {
                    Some(cls) => {
                        let m = mangle(cls.as_str(), inner_method.as_str());
                        if ret_type(builder, m.as_str()) == Some(IrType::Ptr) {
                            Some(cls.clone())
                        } else {
                            None
                        }
                    },
                    None => None,
                },
                _ => None,
            },
            _ => None,
        },
        Expr::Field { object: inner, field: f, .. } => resolve_chained_field_class(builder, inner, f.as_str()),
        _ => None,
    }
}

fn field_owner(builder: &LowerBuilder, object: &Expr) -> (r: Option<String>)
    ensures
        opt_view(r) == field_owner_spec(*builder, *object),
{
    match object {
        Expr::Ident(n, _) => match builder.var_class.get(n.as_str()) {
            Some(c) => Some(c.clone()),
            None => None,
        },
        Expr::SelfExpr(_) => match &builder.current_class {
            Some(c) => Some(c.clone()),
            None => None,
        },
        Expr::Field { object: inner, field: f, .. } => resolve_chained_field_class(builder, inner, f.as_str()),
        _ => None,
    }
}

/// IR type of a binary expression from its operands' types.
pub fn binary_type(op: BinOp, lt: IrType, rt: IrType) -> (r: IrType)
    ensures
        r == binary_type_spec(op, lt, rt),
{
    match op {
        BinOp::Equal | BinOp::NotEqual | BinOp::Smaller | BinOp::Greater | BinOp::SmallerOrEqual
        | BinOp::GreaterOrEqual | BinOp::And | BinOp::Or => IrType::Bool,
        BinOp::Add | BinOp::Sub | BinOp::Mul | BinOp::Div => {
            if lt == IrType::Ptr || rt == IrType::Ptr {
                IrType::Ptr
            } else if lt == IrType::F64 || rt == IrType::F64 {
                IrType::F64
            } else {
                IrType::I64
            }
        },
        BinOp::Mod => if lt == IrType::F64 || rt == IrType::F64 { IrType::F64 } else { IrType::I64 },
        _ => IrType::I64,
    }
}

fn resolve_type(builder: &LowerBuilder, inner: &Expr) -> (r: IrType)
    ensures
        r == resolve_type_spec(*builder, *inner),
{
    match inner {
        Expr::Ident(v, _) => match builder.async_var_ret.get(v.as_str()) {
            Some(t) => *t,
            None => IrType::I64,
        },
        Expr::Call { callee, .. } => match &**callee {
            Expr::Ident(f, _) => if builder.async_funcs.contains(f.as_str()) {
                match ret_type(builder, f.as_str()) {
                    Some(t) => t,
                    None => IrType::I64,
                }
            } else {
                IrType::I64
            },
            _ => IrType::I64,
        },
        _ => IrType::I64,
    }
}

/// Static IR type of `expr` (see `expr_ir_type_spec`).
pub fn expr_ir_type(builder: &LowerBuilder, expr: &Expr) -> (r: IrType)
    ensures
        r == expr_ir_type_spec(*builder, *expr),
    decreases expr,
{
    match expr {
        Expr::Literal(lit, _) => match lit {
            Literal::Int(_) => IrType::I64,
            Literal::Float(_) => IrType::F64,
            Literal::Bool(_) => IrType::Bool,
            _ => IrType::Ptr,
        },
        Expr::Ident(n, _) => var_type(builder, n.as_str()),
        Expr::StaticCall { class, method, args, .. } => {
            match detect_message_call(builder, expr) {
                Some((_m, t)) => {
                    return t;
                },
                None => {},
            }
            let cls = resolve_class(builder, class.as_str());
            let first_elem = if args.len() > 0 { elem_type_var(builder, &args[0]) } else { None };
            if is_concrete_get(cls.as_str(), method.as_str()) && first_elem.is_some() {
                return first_elem.unwrap();
            }
            let f = mangle(cls.as_str(), method.as_str());
            match ret_type(builder, f.as_str()) {
                Some(t) => t,
                None => IrType::Ptr,
            }
        },
        Expr::Binary { op, left, right, .. } => {
            let lt = expr_ir_type(builder, left);
            let rt = expr_ir_type(builder, right);
            binary_type(*op, lt, rt)
        },
        Expr::Template { .. } => IrType::Ptr,
        Expr::Match { arms, .. } => {
            if arms.len() > 0 {
                proof {
                    assert(decreases_to!(*expr => *arms));
                    assert(decreases_to!(*arms => arms@));
                    assert(decreases_to!(arms@ => arms@[0]));
                    assert(decreases_to!(arms@[0] => arms@[0].body));
                }
                expr_ir_type(builder, &arms[0].body)
            } else {
                IrType::I64
            }
        },
        Expr::Index { object, .. } => match elem_type_var(builder, object) {
            Some(t) => t,
            None => IrType::Ptr,
        },
        Expr::Field { object, field, .. } => match field_owner(builder, object) {
            Some(c) => match builder.module.class_layouts.get(c.as_str()) {
                Some(fields) => match find_field(fields, field.as_str()) {
                    Some((_i, t)) => *t,
                    None => IrType::Ptr,
                },
                None => IrType::Ptr,
            },
            None => IrType::Ptr,
        },
        Expr::Call { callee, .. } => {
            match detect_message_call(builder, expr) {
                Some((_m, t)) => {
                    return t;
                },
                None => {},
            }
            match &**callee {
                Expr::Ident(f, _) => match builder.func_ret_types.get(f.as_str()) {
                    Some(t) => *t,
                    None => match ret_type(builder, f.as_str()) {
                        Some(t) => t,
                        None => IrType::Ptr,
                    },
                },
                Expr::Field { object, field, .. } => match receiver_class(builder, object) {
                    Some(c) => {
                        let ev = elem_type_var(builder, object);
                        if is_concrete_get(c.as_str(), field.as_str()) && ev.is_some() {
                            ev.unwrap()
                        } else {
                            let m = mangle(c.as_str(), field.as_str());
                            match ret_type(builder, m.as_str()) {
                                Some(t) => t,
                                None => IrType::Ptr,
                            }
                        }
                    },
                    None => IrType::Ptr,
                },
                _ => IrType::Ptr,
            }
        },
        Expr::StaticConst { class, name, .. } => {
            let key = concat3(class.as_str(), "__", name.as_str());
            match builder.module.class_consts.get(key.as_str()) {
                Some(entry) => entry.0,
                None => IrType::Ptr,
            }
        },
        Expr::Unary { op, operand, .. } => match op {
            UnaryOp::Not => IrType::Bool,
            UnaryOp::Neg => expr_ir_type(builder, operand),
        },
        Expr::IsCheck { .. } => IrType::Bool,
        Expr::Resolve { expr: inner, .. } => resolve_type(builder, inner),
        Expr::Nameless { .. } | Expr::Array { .. } | Expr::Dict { .. } | Expr::New { .. }
        | Expr::SelfExpr(_) | Expr::ParentExpr(_) => IrType::Ptr,
        _ => IrType::I64,
    }
}

/// Static IR type of `expr`, for the statement lowering.
pub fn expr_ir_type_pub(builder: &LowerBuilder, expr: &Expr) -> (r: IrType)
    ensures
        r == expr_ir_type_spec(*builder, *expr),
{
    expr_ir_type(builder, expr)
}

} // verus!
