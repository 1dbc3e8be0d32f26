//! Helpers of expression lowering: parameter types of call targets, boxing
//! of arguments for `mixed` parameters, class and container resolution.
use vstd::prelude::*;
use vstd::string::*;
use crate::ast::{Expr, Literal, Type};
use crate::builder::{LowerBuilder, slot_offset, slot_offset_spec};
use crate::builtins::{builtin_method_params, builtin_params_spec, runtime_builtin, runtime_builtin_spec};
use crate::ir::{Inst, InstV, IrFunction, IrType, Value};
use crate::names::NameMap;
use crate::scope::{monomorphized_name, monomorphized_name_spec};
use crate::text::{concat, str_eq, mangle, mangle_spec};

verus! {

/// Shape of a call: the static form (`Class::method(recv, args...)` or a free
/// function, receiver among the explicit arguments) or the instance sugar
/// (`recv.method(args...)`, receiver never among the explicit arguments).
#[derive(Clone, Copy, Debug, PartialEq, Eq, Structural)]
pub enum CallForm {
    Static,
    Sugar,
}

/// Element `i` of `s`, if any.
pub open spec fn seq_get<T>(s: Seq<T>, i: int) -> Option<T> {
    if 0 <= i < s.len() { Some(s[i]) } else { None }
}

/// Type of the `i`-th explicit argument of a call of `mangled` in form
/// `form`: the user tables (free functions and static methods, then instance
/// methods) never list an implicit receiver; the built-in table lists the
/// receiver first, so the sugar form looks one position further.
pub open spec fn param_type_spec(b: LowerBuilder, mangled: Seq<char>, i: int, form: CallForm) -> Option<IrType> {
    if b.fn_param_types@.contains_key(mangled) {
        seq_get(b.fn_param_types@[mangled]@, i)
    } else if b.module.method_param_types@.contains_key(mangled) {
        seq_get(b.module.method_param_types@[mangled]@, i)
    } else {
        match builtin_params_spec(mangled) {
            Some(ps) => seq_get(ps, if form == CallForm::Static { i } else { i + 1 }),
            None => None,
        }
    }
}

fn vec_get_type(v: &Vec<IrType>, i: usize) -> (r: Option<IrType>)
    ensures
        r == seq_get(v@, i as int),
{
    if i < v.len() { Some(v[i]) } else { None }
}

/// Type of the `i`-th explicit argument of a call of `mangled` in form
/// `form`, or `None` when no table knows it.
pub fn param_type_for_call_arg(builder: &LowerBuilder, mangled: &str, i: usize, form: CallForm) -> (r: Option<IrType>)
    ensures
        r == param_type_spec(*builder, mangled@, i as int, form),
{
    match builder.fn_param_types.get(mangled) {
        Some(pts) => {
            return vec_get_type(pts, i);
        },
        None => {},
    }
    match builder.module.method_param_types.get(mangled) {
        Some(pts) => {
            return vec_get_type(pts, i);
        },
        None => {},
    }
    match builtin_method_params(mangled) {
        Some(pts) => {
            match form {
                CallForm::Static => vec_get_type(&pts, i),
                CallForm::Sugar => {
                    if i < usize::MAX {
                        vec_get_type(&pts, i + 1)
                    } else {
                        None
                    }
                },
            }
        },
        None => None,
    }
}

/// The sugar form of a built-in method finds for explicit argument `i`
/// exactly what the static form finds for argument `i + 1`; a user function
/// or method finds the same type in both forms.
pub proof fn lemma_sugar_is_static_shifted(b: LowerBuilder, mangled: Seq<char>, i: int)
    requires
        0 <= i,
    ensures
        !b.fn_param_types@.contains_key(mangled) && !b.module.method_param_types@.contains_key(mangled)
            ==> param_type_spec(b, mangled, i, CallForm::Sugar) == param_type_spec(b, mangled, i + 1, CallForm::Static),
        b.fn_param_types@.contains_key(mangled) || b.module.method_param_types@.contains_key(mangled)
            ==> param_type_spec(b, mangled, i, CallForm::Sugar) == param_type_spec(b, mangled, i, CallForm::Static),
{
}

/// Runtime boxing function turning a value of type `t` into a `mixed`.
pub open spec fn box_func_spec(t: IrType) -> Option<Seq<char>> {
    match t {
        IrType::F64 => Some("__box_float"@),
        IrType::Bool => Some("__box_bool"@),
        IrType::I64 => Some("__box_int_for_mixed"@),
        _ => None,
    }
}

/// Emits the boxing of `val` (of type `t`) into a `mixed` when `t` is a
/// scalar; a pointer is already a `mixed` and is returned as it is.
pub fn box_scalar(builder: &mut LowerBuilder, t: &IrType, val: Value) -> (r: Value)
    ensures
        LowerBuilder::same_signature(old(builder), final(builder)),
        LowerBuilder::same_tables(old(builder), final(builder)),
        old(builder).wf() ==> LowerBuilder::lowered(old(builder), final(builder)),
        old(builder).wf() ==> match box_func_spec(*t) {
            Some(f) => r == Value(old(builder).func.next_value) && IrFunction::appended(
                &old(builder).func, &final(builder).func,
                seq![InstV::Call { dest: Some(r), func: f, args: seq![val], ret_ty: IrType::Ptr }]),
            None => r == val && final(builder).func.code() == old(builder).func.code(),
        },
{
    let fname = match t {
        IrType::F64 => "__box_float",
        IrType::Bool => "__box_bool",
        IrType::I64 => "__box_int_for_mixed",
        _ => {
            proof {
                crate::builder::lemma_extends_refl(builder.func);
            }
            return val;
        },
    };
    let d = builder.new_value();
    let ghost mid = *builder;
    let mut args: Vec<Value> = Vec::new();
    args.push(val);
    builder.emit(Inst::Call { dest: Some(d), func: fname.to_owned(), args, ret_ty: IrType::Ptr });
    proof {
        if old(builder).wf() {
            assert(args@ =~= seq![val]);
            crate::builder::lemma_extends_trans(old(builder).func, mid.func, builder.func);
        }
    }
    d
}

/// Boxes `val` (of IR type `arg_ty`) when the parameter it is passed to is a
/// `mixed` (`Some(Ptr)`) and `arg_ty` is a scalar; otherwise returns `val`.
pub fn box_arg_for_mixed_param(builder: &mut LowerBuilder, param_ty: Option<IrType>, arg_ty: &IrType, val: Value) -> (r: Value)
    ensures
        LowerBuilder::same_signature(old(builder), final(builder)),
        LowerBuilder::same_tables(old(builder), final(builder)),
        old(builder).wf() ==> LowerBuilder::lowered(old(builder), final(builder)),
        old(builder).wf() ==> if param_ty == Some(IrType::Ptr) {
            match box_func_spec(*arg_ty) {
                Some(f) => r == Value(old(builder).func.next_value) && IrFunction::appended(
                    &old(builder).func, &final(builder).func,
                    seq![InstV::Call { dest: Some(r), func: f, args: seq![val], ret_ty: IrType::Ptr }]),
                None => r == val && final(builder).func.code() == old(builder).func.code(),
            }
        } else {
            r == val && final(builder).func.code() == old(builder).func.code()
        },
{
    if param_ty != Some(IrType::Ptr) {
        proof {
            crate::builder::lemma_extends_refl(builder.func);
        }
        return val;
    }
    box_scalar(builder, arg_ty, val)
}

/// First field named `f` in a layout of named fields.
pub open spec fn field_lookup<T>(fields: Seq<(String, T)>, f: Seq<char>) -> Option<(int, T)>
    decreases fields.len(),
{
    if fields.len() == 0 {
        None
    } else if fields[0].0@ == f {
        Some((0, fields[0].1))
    } else {
        match field_lookup(fields.drop_first(), f) {
            Some((i, t)) => Some((i + 1, t)),
            None => None,
        }
    }
}

proof fn lemma_field_lookup_step<T>(fields: Seq<(String, T)>, f: Seq<char>, i: int)
    requires
        0 <= i < fields.len(),
        forall|j: int| 0 <= j < i ==> fields[j].0@ != f,
        fields[i].0@ == f,
    ensures
        field_lookup(fields, f) == Some((i, fields[i].1)),
    decreases i,
{
    if i > 0 {
        let rest = fields.drop_first();
        assert forall|j: int| 0 <= j < i - 1 implies rest[j].0@ != f by {
            assert(rest[j] == fields[j + 1]);
        }
        assert(rest[i - 1] == fields[i]);
        lemma_field_lookup_step(rest, f, i - 1);
    }
}

/// Position and value of the first field named `f`.
pub fn find_field<'a, T>(fields: &'a Vec<(String, T)>, f: &str) -> (r: Option<(usize, &'a T)>)
    ensures
        match r {
            Some((i, t)) => field_lookup(fields@, f@) == Some((i as int, *t)),
            None => field_lookup(fields@, f@) is None,
        },
{
    let mut i: usize = 0;
    while i < fields.len()
        invariant
            i <= fields@.len(),
            forall|j: int| 0 <= j < i ==> fields@[j].0@ != f@,
        decreases fields@.len() - i,
    {
        if str_eq(fields[i].0.as_str(), f) {
            proof {
                lemma_field_lookup_step(fields@, f@, i as int);
            }
            return Some((i, &fields[i].1));
        }
        i = i + 1;
    }
    proof {
        lemma_field_lookup_none(fields@, f@);
    }
    None
}

proof fn lemma_field_lookup_none<T>(fields: Seq<(String, T)>, f: Seq<char>)
    requires
        forall|j: int| 0 <= j < fields.len() ==> fields[j].0@ != f,
    ensures
        field_lookup(fields, f) is None,
    decreases fields.len(),
{
    if fields.len() > 0 {
        let rest = fields.drop_first();
        assert forall|j: int| 0 <= j < rest.len() implies rest[j].0@ != f by {
            assert(rest[j] == fields[j + 1]);
        }
        lemma_field_lookup_none(rest, f);
    }
}

/// Byte offset of field `field` of `class` (8 bytes per field, in layout
/// order); 0 when the class or the field is unknown.
pub open spec fn field_offset_spec(layouts: Map<Seq<char>, Vec<(String, IrType)>>, class: Seq<char>, field: Seq<char>) -> i32 {
    if layouts.contains_key(class) {
        match field_lookup(layouts[class]@, field) {
            Some((i, _t)) => slot_offset_spec(i),
            None => 0,
        }
    } else {
        0
    }
}

/// Byte offset of `field` in `class`.
pub fn field_offset(layouts: &NameMap<Vec<(String, IrType)>>, class: &str, field: &str) -> (r: i32)
    ensures
        r == field_offset_spec(layouts@, class@, field@),
{
    match layouts.get(class) {
        Some(fields) => match find_field(fields, field) {
            Some((i, _t)) => slot_offset(i),
            None => 0,
        },
        None => 0,
    }
}

/// IR type of field `field` of `class`; `Ptr` when unknown.
pub open spec fn field_ir_type_spec(layouts: Map<Seq<char>, Vec<(String, IrType)>>, class: Seq<char>, field: Seq<char>) -> IrType {
    if layouts.contains_key(class) {
        match field_lookup(layouts[class]@, field) {
            Some((_i, t)) => t,
            None => IrType::Ptr,
        }
    } else {
        IrType::Ptr
    }
}

/// IR type of `field` in `class`.
pub fn field_ir_type(layouts: &NameMap<Vec<(String, IrType)>>, class: &str, field: &str) -> (r: IrType)
    ensures
        r == field_ir_type_spec(layouts@, class@, field@),
{
    match layouts.get(class) {
        Some(fields) => match find_field(fields, field) {
            Some((_i, t)) => *t,
            None => IrType::Ptr,
        },
        None => IrType::Ptr,
    }
}

/// Class that handles values of a field of type `t`.
pub open spec fn class_of_type_spec(t: Type) -> Option<Seq<char>> {
    match t {
        Type::Named(n) => Some(n@),
        Type::String => Some("String"@),
        Type::Array(_) => Some("Array"@),
        Type::Dict(_, _) => Some("Map"@),
        Type::Generic { name, args } => Some(monomorphized_name_spec(name@, args@)),
        _ => None,
    }
}

fn class_of_type(t: &Type) -> (r: Option<String>)
    ensures
        match r {
            Some(s) => class_of_type_spec(*t) == Some(s@),
            None => class_of_type_spec(*t) is None,
        },
{
    match t {
        Type::Named(n) => Some(n.clone()),
        Type::String => Some("String".to_owned()),
        Type::Array(_) => Some("Array".to_owned()),
        Type::Dict(_, _) => Some("Map".to_owned()),
        Type::Generic { name, args } => Some(monomorphized_name(name.as_str(), args)),
        _ => None,
    }
}

/// The view of an optional string.
pub open spec fn opt_view(o: Option<String>) -> Option<Seq<char>> {
    match o {
        Some(s) => Some(s@),
        None => None,
    }
}

/// Class of an object expression used as the base of a field access:
/// a variable of known class, `self`, `parent`, a string literal, an
/// instantiation, or a chained field access.
pub open spec fn base_class_spec(b: LowerBuilder, object: Expr) -> Option<Seq<char>>
    decreases object, 0nat,
{
    match object {
        Expr::Ident(n, _) => if b.var_class@.contains_key(n@) { Some(b.var_class@[n@]@) } else { None },
        Expr::SelfExpr(_) => opt_view(b.current_class),
        Expr::ParentExpr(_) => opt_view(b.parent_class),
        Expr::Literal(Literal::String(_), _) => Some("String"@),
        Expr::New { class, .. } => Some(class@),
        Expr::Field { object: inner, field: f, .. } => chained_class_spec(b, *inner, f@),
        _ => None,
    }
}

/// Class of the value of field `field` of `object`, from the declared field
/// types of user classes.
pub open spec fn chained_class_spec(b: LowerBuilder, object: Expr, field: Seq<char>) -> Option<Seq<char>>
    decreases object, 1nat,
{
    match base_class_spec(b, object) {
        Some(c) => if b.module.class_field_types@.contains_key(c) {
            match field_lookup(b.module.class_field_types@[c]@, field) {
                Some((_i, t)) => class_of_type_spec(t),
                None => None,
            }
        } else {
            None
        },
        None => None,
    }
}

fn base_class(builder: &LowerBuilder, object: &Expr) -> (r: Option<String>)
    ensures
        opt_view(r) == base_class_spec(*builder, *object),
    decreases object, 0nat,
{
    match object {
        Expr::Ident(n, _) => match builder.var_class.get(n.as_str()) {
            Some(c) => Some(c.clone()),
            None => None,
        },
        Expr::SelfExpr(_) => match &builder.current_class {
            Some(c) => Some(c.clone()),
            None => None,
        },
        Expr::ParentExpr(_) => match &builder.parent_class {
            Some(c) => Some(c.clone()),
            None => None,
        },
        Expr::Literal(Literal::String(_), _) => Some("String".to_owned()),
        Expr::New { class, .. } => Some(class.clone()),
        Expr::Field { object: inner, field: f, .. } => resolve_chained_field_class(builder, inner, f.as_str()),
        _ => None,
    }
}

/// Class of the value of field `field` of `object` (`w.inner` where `inner`
/// is itself an object, a string, an array or a map), resolved through any
/// number of chained accesses; `None` when a class is unknown.
pub fn resolve_chained_field_class(builder: &LowerBuilder, object: &Expr, field: &str) -> (r: Option<String>)
    ensures
        opt_view(r) == chained_class_spec(*builder, *object, field@),
    decreases object, 1nat,
{
    let base = match base_class(builder, object) {
        Some(c) => c,
        None => {
            return None;
        },
    };
    let fields = match builder.module.class_field_types.get(base.as_str()) {
        Some(fs) => fs,
        None => {
            return None;
        },
    };
    match find_field(fields, field) {
        Some((_i, t)) => class_of_type(t),
        None => None,
    }
}

/// `t` without its `null` alternative: the first non-null member of a union.
pub open spec fn non_null_spec(t: Type) -> Type {
    match t {
        Type::Union(ms) => match first_non_null(ms@, 0) {
            Some(m) => m,
            None => t,
        },
        _ => t,
    }
}

/// First member of `ms` at or after `i` that is not `null`.
pub open spec fn first_non_null(ms: Seq<Type>, i: int) -> Option<Type>
    decreases ms.len() - i,
{
    if i < 0 || i >= ms.len() {
        None
    } else if ms[i] is Null {
        first_non_null(ms, i + 1)
    } else {
        Some(ms[i])
    }
}

/// `t` without its `null` alternative.
pub fn non_null(t: &Type) -> (r: &Type)
    ensures
        *r == non_null_spec(*t),
{
    match t {
        Type::Union(ms) => {
            let mut i: usize = 0;
            while i < ms.len()
                invariant
                    i <= ms@.len(),
                    non_null_spec(*t) == match first_non_null(ms@, i as int) {
                        Some(m) => m,
                        None => *t,
                    },
                decreases ms@.len() - i,
            {
                match &ms[i] {
                    Type::Null => {},
                    m => {
                        return m;
                    },
                }
                i = i + 1;
            }
            t
        },
        _ => t,
    }
}

/// Type of the elements of a container type (looking through `|null`).
pub open spec fn container_elem_spec(t: Type) -> Option<Type> {
    match non_null_spec(t) {
        Type::Array(inner) => Some(*inner),
        Type::Dict(_, v) => Some(*v),
        _ => None,
    }
}

/// Type of the elements of a container type.
pub fn container_elem_type(t: &Type) -> (r: Option<&Type>)
    ensures
        match r {
            Some(e) => container_elem_spec(*t) == Some(*e),
            None => container_elem_spec(*t) is None,
        },
{
    match non_null(t) {
        Type::Array(inner) => Some(&**inner),
        Type::Dict(_, v) => Some(&**v),
        _ => None,
    }
}

/// Source type of an indexing expression `e = o[i]`: for a variable `o`,
/// the recorded element type of `o`; for a nested indexing, the element
/// type of the type of `o`, to any depth. `None` for anything else.
pub open spec fn elem_after_index_spec(b: LowerBuilder, e: Expr) -> Option<Type>
    decreases e,
{
    match e {
        Expr::Index { object, .. } => match *object {
            Expr::Ident(n, _) => if b.elem_ast_types@.contains_key(n@) {
                Some(b.elem_ast_types@[n@])
            } else {
                None
            },
            Expr::Index { .. } => match elem_after_index_spec(b, *object) {
                Some(t) => container_elem_spec(t),
                None => None,
            },
            _ => None,
        },
        _ => None,
    }
}

/// Source type of the indexing expression `e` (see `elem_after_index_spec`).
pub fn elem_type_after_index<'a>(builder: &'a LowerBuilder, e: &Expr) -> (r: Option<&'a Type>)
    ensures
        match r {
            Some(t) => elem_after_index_spec(*builder, *e) == Some(*t),
            None => elem_after_index_spec(*builder, *e) is None,
        },
    decreases e,
{
    match e {
        Expr::Index { object, .. } => match &**object {
            Expr::Ident(n, _) => builder.elem_ast_types.get(n.as_str()),
            Expr::Index { .. } => match elem_type_after_index(builder, object) {
                Some(t) => container_elem_type(t),
                None => None,
            },
            _ => None,
        },
        _ => None,
    }
}

/// Class of the object whose field is indexed (`x.f[k]`): a variable of
/// known class, `self`, or a chained field access.
pub open spec fn indexed_field_owner_spec(b: LowerBuilder, inner: Expr) -> Option<Seq<char>> {
    match inner {
        Expr::Ident(n, _) => if b.var_class@.contains_key(n@) { Some(b.var_class@[n@]@) } else { None },
        Expr::SelfExpr(_) => opt_view(b.current_class),
        Expr::Field { object: inner2, field: f2, .. } => chained_class_spec(b, *inner2, f2@),
        _ => None,
    }
}

/// True when indexing `object` reads a map rather than an array: a map
/// variable, a map-typed field of a user class, or an element (at any
/// depth of indexing) whose recorded type is a map, possibly `|null`.
pub open spec fn is_map_target_spec(b: LowerBuilder, object: Expr) -> bool {
    match object {
        Expr::Ident(n, _) => b.map_vars@.contains(n@),
        Expr::Field { object: inner, field, .. } => match indexed_field_owner_spec(b, *inner) {
            Some(c) => b.module.class_map_fields@.contains_key(c) && b.module.class_map_fields@[c]@.contains(field@),
            None => false,
        },
        Expr::Index { .. } => match elem_after_index_spec(b, object) {
            Some(t) => non_null_spec(t) is Dict,
            None => false,
        },
        _ => false,
    }
}

/// The class resolution of field accesses reads only the tables, not the
/// function being filled.
proof fn lemma_class_specs_same_tables(a: LowerBuilder, b: LowerBuilder, e: Expr)
    requires
        LowerBuilder::same_tables(&a, &b),
    ensures
        base_class_spec(a, e) == base_class_spec(b, e),
        forall|f: Seq<char>| #[trigger] chained_class_spec(a, e, f) == chained_class_spec(b, e, f),
    decreases e,
{
    match e {
        Expr::Field { object: inner, .. } => {
            lemma_class_specs_same_tables(a, b, *inner);
        },
        _ => {},
    }
}

proof fn lemma_elem_after_index_same_tables(a: LowerBuilder, b: LowerBuilder, e: Expr)
    requires
        LowerBuilder::same_tables(&a, &b),
    ensures
        elem_after_index_spec(a, e) == elem_after_index_spec(b, e),
    decreases e,
{
    match e {
        Expr::Index { object, .. } => {
            lemma_elem_after_index_same_tables(a, b, *object);
        },
        _ => {},
    }
}

/// Whether indexing reads a map depends only on the tables.
pub proof fn lemma_map_target_same_tables(a: LowerBuilder, b: LowerBuilder, object: Expr)
    requires
        LowerBuilder::same_tables(&a, &b),
    ensures
        is_map_target_spec(a, object) == is_map_target_spec(b, object),
{
    lemma_elem_after_index_same_tables(a, b, object);
    match object {
        Expr::Field { object: inner, .. } => {
            lemma_class_specs_same_tables(a, b, *inner);
        },
        _ => {},
    }
}

/// True when `object[...]` indexes a map (see `is_map_target_spec`).
pub fn is_map_target(builder: &LowerBuilder, object: &Expr) -> (r: bool)
    ensures
        r == is_map_target_spec(*builder, *object),
{
    match object {
        Expr::Ident(n, _) => builder.map_vars.contains(n.as_str()),
        Expr::Field { object: inner, field, .. } => {
            let owner = match &**inner {
                Expr::Ident(n, _) => match builder.var_class.get(n.as_str()) {
                    Some(c) => Some(c.clone()),
                    None => None,
                },
                Expr::SelfExpr(_) => match &builder.current_class {
                    Some(c) => Some(c.clone()),
                    None => None,
                },
                Expr::Field { object: inner2, field: f2, .. } => resolve_chained_field_class(builder, inner2, f2.as_str()),
                _ => None,
            };
            match owner {
                Some(c) => match builder.module.class_map_fields.get(c.as_str()) {
                    Some(fields) => fields.contains(field.as_str()),
                    None => false,
                },
                None => false,
            }
        },
        Expr::Index { .. } => match elem_type_after_index(builder, object) {
            Some(t) => match non_null(t) {
                Type::Dict(_, _) => true,
                _ => false,
            },
            None => false,
        },
        _ => false,
    }
}

/// The arguments of a call of `func_name` completed with the default values
/// of its missing trailing parameters (those that have one).
pub open spec fn completed_args_spec(defaults: Map<Seq<char>, Vec<Option<&Expr>>>, func_name: Seq<char>, args: Seq<Expr>) -> Seq<Expr> {
    if defaults.contains_key(func_name) && args.len() < defaults[func_name]@.len() {
        args + present_defaults(defaults[func_name]@, args.len() as int)
    } else {
        args
    }
}

/// The default values present in `ds` from position `from` on.
pub open spec fn present_defaults(ds: Seq<Option<&Expr>>, from: int) -> Seq<Expr>
    decreases ds.len() - from,
{
    if from < 0 || from >= ds.len() {
        Seq::empty()
    } else {
        match ds[from] {
            Some(e) => seq![*e] + present_defaults(ds, from + 1),
            None => present_defaults(ds, from + 1),
        }
    }
}

/// The arguments of a call of `func_name`, completed with the default
/// values of the missing trailing parameters (as references into `args`
/// and into the table of defaults).
pub fn complete_args_with_defaults<'a>(
    defaults: &'a NameMap<Vec<Option<&'a Expr>>>,
    func_name: &str,
    args: &'a Vec<Expr>,
) -> (r: Vec<&'a Expr>)
    ensures
        r@.len() == completed_args_spec(defaults@, func_name@, args@).len(),
        forall|i: int| 0 <= i < r@.len() ==> *(#[trigger] r@[i]) == completed_args_spec(defaults@, func_name@, args@)[i],
{
    let mut out: Vec<&'a Expr> = Vec::new();
    let mut i: usize = 0;
    while i < args.len()
        invariant
            i <= args@.len(),
            out@.len() == i,
            forall|j: int| 0 <= j < i ==> *(#[trigger] out@[j]) == args@[j],
        decreases args@.len() - i,
    {
        out.push(&args[i]);
        i = i + 1;
    }
    let ds = match defaults.get(func_name) {
        Some(ds) => ds,
        None => {
            return out;
        },
    };
    if args.len() >= ds.len() {
        return out;
    }
    let ghost target = completed_args_spec(defaults@, func_name@, args@);
    let mut k: usize = args.len();
    while k < ds.len()
        invariant
            args@.len() <= k <= ds@.len(),
            args@.len() < ds@.len(),
            defaults@.contains_key(func_name@),
            ds@ == defaults@[func_name@]@,
            target == args@ + present_defaults(ds@, args@.len() as int),
            out@.len() + present_defaults(ds@, k as int).len() == target.len(),
            forall|j: int| 0 <= j < out@.len() ==> *(#[trigger] out@[j]) == target[j],
            forall|j: int| 0 <= j < present_defaults(ds@, k as int).len() ==>
                #[trigger] present_defaults(ds@, k as int)[j] == target[out@.len() + j],
        decreases ds@.len() - k,
    {
        let ghost before = out@;
        match &ds[k] {
            Some(d) => {
                assert(present_defaults(ds@, k as int) == seq![**d] + present_defaults(ds@, k + 1));
                assert(present_defaults(ds@, k as int)[0] == **d);
                assert forall|j: int| 0 <= j < present_defaults(ds@, k + 1).len() implies
                    #[trigger] present_defaults(ds@, k + 1)[j] == target[out@.len() + 1 + j] by {
                    assert(present_defaults(ds@, k as int)[j + 1] == present_defaults(ds@, k + 1)[j]);
                }
                out.push(*d);
            },
            None => {
                assert(present_defaults(ds@, k as int) == present_defaults(ds@, k + 1));
            },
        }
        k = k + 1;
    }
    assert(present_defaults(ds@, k as int).len() == 0);
    out
}

/// Classes whose static methods return arrays, for template formatting.
pub open spec fn is_array_static_call_name(n: Seq<char>) -> bool {
    n == "System_args"@ || n == "Array_sort"@ || n == "Array_reverse"@ || n == "Array_slice"@
        || n == "Map_keys_to_array"@ || n == "Map_values_to_array"@
}

/// Class named by a static call's class part: `<parent>` and `<self>` stand
/// for the parent and current classes when they are known.
pub open spec fn resolve_class_spec(b: LowerBuilder, class: Seq<char>) -> Seq<char> {
    if class == "<parent>"@ && b.parent_class is Some {
        b.parent_class.unwrap()@
    } else if class == "<self>"@ && b.current_class is Some {
        b.current_class.unwrap()@
    } else {
        class
    }
}

/// Class named by a static call's class part.
pub fn resolve_class(builder: &LowerBuilder, class: &str) -> (r: String)
    ensures
        r@ == resolve_class_spec(*builder, class@),
{
    proof {
        reveal_strlit("<parent>");
        reveal_strlit("<self>");
    }
    if str_eq(class, "<parent>") {
        match &builder.parent_class {
            Some(p) => {
                return p.clone();
            },
            None => {},
        }
    } else if str_eq(class, "<self>") {
        match &builder.current_class {
            Some(c) => {
                return c.clone();
            },
            None => {},
        }
    }
    class.to_owned()
}

/// True when `expr` produces an array: an array variable, or a static call
/// of a function that returns one.
pub open spec fn is_array_expr_spec(b: LowerBuilder, e: Expr) -> bool {
    match e {
        Expr::Ident(n, _) => b.elem_types@.contains_key(n@),
        Expr::StaticCall { class, method, .. } =>
            is_array_static_call_name(mangle_spec(resolve_class_spec(b, class@), method@)),
        _ => false,
    }
}

/// True when `expr` produces an array.
pub fn is_array_expr(builder: &LowerBuilder, expr: &Expr) -> (r: bool)
    ensures
        r == is_array_expr_spec(*builder, *expr),
{
    match expr {
        Expr::Ident(n, _) => builder.elem_types.contains_key(n.as_str()),
        Expr::StaticCall { class, method, .. } => {
            let cls = resolve_class(builder, class.as_str());
            let name = mangle(cls.as_str(), method.as_str());
            let s = name.as_str();
            str_eq(s, "System_args") || str_eq(s, "Array_sort") || str_eq(s, "Array_reverse")
                || str_eq(s, "Array_slice") || str_eq(s, "Map_keys_to_array") || str_eq(s, "Map_values_to_array")
        },
        _ => false,
    }
}

/// True when the runtime function `func_name` returns nothing.
pub fn is_void_builtin(func_name: &str) -> (r: bool)
    ensures
        r == (runtime_builtin_spec(func_name@) matches Some((_n, v)) && v),
{
    match runtime_builtin(func_name) {
        Some((_n, v)) => v,
        None => false,
    }
}

/// Leaf kind of a concrete container type, for the JSON/YAML encoders:
/// 1 int, 2 float, 3 bool, 0 unknown.
pub open spec fn leaf_kind_spec(t: Type) -> i64
    decreases t,
{
    match t {
        Type::Array(inner) => leaf_kind_spec(*inner),
        Type::Dict(_, inner) => leaf_kind_spec(*inner),
        Type::Int => 1,
        Type::Float => 2,
        Type::Bool => 3,
        _ => 0,
    }
}

fn leaf_kind_of(t: &Type) -> (r: i64)
    ensures
        r == leaf_kind_spec(*t),
    decreases t,
{
    match t {
        Type::Array(inner) => leaf_kind_of(inner),
        Type::Dict(_, inner) => leaf_kind_of(inner),
        Type::Int => 1,
        Type::Float => 2,
        Type::Bool => 3,
        _ => 0,
    }
}

/// Statically known leaf kind of the container held by variable `expr`
/// (0 when `expr` is not a variable of recorded container type).
pub open spec fn static_json_leaf_kind_spec(b: LowerBuilder, e: Expr) -> i64 {
    match e {
        Expr::Ident(n, _) => if b.elem_ast_types@.contains_key(n@) {
            leaf_kind_spec(b.elem_ast_types@[n@])
        } else {
            0
        },
        _ => 0,
    }
}

/// Statically known leaf kind of `expr` (see `static_json_leaf_kind_spec`).
pub fn static_json_leaf_kind(builder: &LowerBuilder, expr: &Expr) -> (r: i64)
    ensures
        r == static_json_leaf_kind_spec(*builder, *expr),
{
    match expr {
        Expr::Ident(n, _) => match builder.elem_ast_types.get(n.as_str()) {
            Some(t) => leaf_kind_of(t),
            None => 0,
        },
        _ => 0,
    }
}

/// Suffix of the typed variant of a printing function.
pub open spec fn write_suffix(t: IrType) -> Seq<char> {
    match t {
        IrType::F64 => "Float"@,
        IrType::Bool => "Bool"@,
        IrType::I64 => "Int"@,
        _ => ""@,
    }
}

/// Name of the typed variant of printing function `base` for an argument
/// of type `ty` (`IO_writeln` + `Int`, ...; pointers use `base` itself).
pub fn write_variant(base: &str, ty: &IrType) -> (r: String)
    ensures
        r@ == base@ + write_suffix(*ty),
{
    let suffix = match ty {
        IrType::F64 => "Float",
        IrType::Bool => "Bool",
        IrType::I64 => "Int",
        _ => "",
    };
    concat(base, suffix)
}

} // verus!
