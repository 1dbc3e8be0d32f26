//! Lowering of global constants and of functions.
use vstd::prelude::*;
use crate::ast::{Block, ConstDecl, Expr, FuncDecl, Literal, Param, Type};
use crate::block::lower_block;
use crate::builder::LowerBuilder;
use crate::ir::{Inst, InstV, IrFunction, IrGlobal, IrModule, IrParam, IrType, Value, ir_type_of};
use crate::lower::lower_expr;
use crate::names::{Duplicate, NameMap, NameSet};
use crate::ownership::compute_auto_freeable_vars;
use crate::text::{le_bytes_spec, str_bytes, u64_le_bytes};

verus! {

/// Initial bytes of a global constant whose value is `e`: the little-endian
/// encoding of an integer or of a float's bits, one byte for a boolean, the
/// UTF-8 bytes of a string, eight zero bytes for `null` when `null_word`
/// holds (nothing otherwise), and nothing for any other expression.
pub open spec fn const_bytes_spec(e: Expr, null_word: bool) -> Seq<u8> {
    match e {
        Expr::Literal(Literal::Int(n), _) => le_bytes_spec(n as u64),
        Expr::Literal(Literal::Float(bits), _) => le_bytes_spec(bits),
        Expr::Literal(Literal::Bool(b), _) => seq![if b { 1u8 } else { 0u8 }],
        Expr::Literal(Literal::String(s), _) => vstd::utf8::encode_utf8(s@),
        Expr::Literal(Literal::Null, _) => if null_word { Seq::new(8, |_i: int| 0u8) } else { Seq::empty() },
        _ => Seq::empty(),
    }
}

/// The initial bytes of a global constant (see `const_bytes_spec`).
pub fn const_bytes(e: &Expr, null_word: bool) -> (r: Vec<u8>)
    ensures
        r@ == const_bytes_spec(*e, null_word),
{
    match e {
        Expr::Literal(Literal::Int(n), _) => u64_le_bytes(*n as u64),
        Expr::Literal(Literal::Float(bits), _) => u64_le_bytes(*bits),
        Expr::Literal(Literal::Bool(b), _) => {
            let mut v: Vec<u8> = Vec::new();
            v.push(if *b { 1u8 } else { 0u8 });
            v
        },
        Expr::Literal(Literal::String(s), _) => str_bytes(s.as_str()),
        Expr::Literal(Literal::Null, _) => {
            let mut v: Vec<u8> = Vec::new();
            if null_word {
                let mut k: usize = 0;
                while k < 8
                    invariant
                        k <= 8,
                        v@ == Seq::new(k as nat, |_i: int| 0u8),
                    decreases 8 - k,
                {
                    v.push(0u8);
                    k = k + 1;
                    assert(v@ =~= Seq::new(k as nat, |_i: int| 0u8));
                }
            } else {
                assert(v@ =~= Seq::<u8>::empty());
            }
            v
        },
        _ => Vec::new(),
    }
}

/// Adds global constant `c` to the module, with its initial bytes.
pub fn lower_const_global(module: &mut IrModule, c: &ConstDecl)
    ensures
        final(module).globals@.len() == old(module).globals@.len() + 1,
        final(module).globals@.drop_last() == old(module).globals@,
        final(module).globals@.last().name@ == c.name@,
        final(module).globals@.last().bytes@ == const_bytes_spec(c.value, true),
        final(module).functions == old(module).functions,
        final(module).try_counter == old(module).try_counter,
        final(module).source_file == old(module).source_file,
        final(module).class_consts == old(module).class_consts,
        final(module).class_layouts == old(module).class_layouts,
        final(module).name == old(module).name,
        final(module).source_file == old(module).source_file,
        final(module).classes_with_subclasses == old(module).classes_with_subclasses,
{
    let bytes = const_bytes(&c.value, true);
    module.add_global(IrGlobal { name: c.name.clone(), bytes });
    proof {
        assert(module.globals@.drop_last() =~= old(module).globals@);
    }
}

/// IR type of parameter `p` as the function receives it: a variadic
/// parameter arrives as an array.
pub open spec fn param_ir_type(p: Param) -> IrType {
    if p.is_variadic { IrType::Ptr } else { ir_type_of(p.ty) }
}

/// The IR signature of a function with parameters `params` (after `self`
/// when `with_self`): the name and IR type of each parameter.
pub open spec fn signature_matches(ps: Seq<IrParam>, with_self: bool, params: Seq<Param>) -> bool {
    let k: int = if with_self { 1 } else { 0 };
    &&& ps.len() == params.len() + k
    &&& with_self ==> ps[0].name@ == "self"@ && ps[0].ty == ir_type_of(Type::Mixed)
    &&& forall|i: int| 0 <= i < params.len() ==>
        (#[trigger] ps[i + k]).name@ == params[i].name@ && ps[i + k].ty == param_ir_type(params[i])
}

/// The tables shared by every function of a program.
pub struct FunctionTables<'t> {
    pub fn_ret_types: &'t NameMap<IrType>,
    pub fn_param_types: &'t NameMap<Vec<IrType>>,
    pub fn_param_names: &'t NameMap<Vec<String>>,
    pub fn_variadic_info: &'t NameMap<(usize, IrType)>,
    pub async_funcs: &'t NameSet,
    pub consts: &'t Vec<ConstDecl>,
}

/// Declares parameter `name` of IR type `ty`: its slot, the value that
/// receives it on entry, stored into the slot; returns the IR parameter.
fn receive_param(builder: &mut LowerBuilder, name: &str, ty: IrType) -> (r: IrParam)
    requires
        old(builder).wf(),
    ensures
        LowerBuilder::kept(old(builder), final(builder)),
        r.name@ == name@,
        r.ty == ty,
        final(builder).locals@.contains_key(name@),
        final(builder).var_class == old(builder).var_class,
        final(builder).map_vars == old(builder).map_vars,
        final(builder).module == old(builder).module,
        !final(builder).func.spec_terminated(),
        final(builder).func.current == old(builder).func.current,
{
    let slot = builder.declare_local(name, ty, false);
    let recv = builder.new_value();
    builder.emit(Inst::Store { ptr: slot, src: recv });
    IrParam { name: name.to_owned(), ty, slot: recv }
}

/// The current block of `f` ends with the return that a body falling
/// through gets: a 0 for a function returning a value, nothing for `void`.
pub open spec fn ends_with_implicit_return(f: IrFunction) -> bool {
    let b = f.code()[f.current as int];
    if f.ret_ty == IrType::Void {
        b.len() >= 1 && b.last() == (InstV::Return { value: None })
    } else {
        &&& b.len() >= 2
        &&& b[b.len() - 2] is ConstInt && b[b.len() - 2]->ConstInt_value == 0
        &&& b.last() == (InstV::Return { value: Some(b[b.len() - 2]->ConstInt_dest) })
    }
}

/// Lowers a function named `name` (a method when `class_name` is given, whose
/// class extends `parent_name`) and adds it to the module: its parameters
/// (`self` first when `with_self`, typed `mixed`) become immutable locals
/// received on entry, the global constants are available as locals, the
/// body is lowered, and a function whose last block is left open returns
/// (a zero value when it returns something). The table of default
/// arguments is lent to the lowering and handed back unchanged.
pub fn lower_func_parts<'a>(
    module: &mut IrModule,
    name: &str,
    with_self: bool,
    params: &Vec<Param>,
    ret_ty: &Type,
    body: &Block,
    tables: &FunctionTables,
    func_default_args: &mut NameMap<Vec<Option<&'a Expr>>>,
    class_name: Option<&str>,
    parent_name: Option<&str>,
)
    ensures
        crate::builder::functions_grow(*old(module), *final(module)),
        final(module).functions@.len() > old(module).functions@.len(),
        final(module).functions@.last().name@ == name@,
        final(module).functions@.last().ret_ty == ir_type_of(*ret_ty),
        signature_matches(final(module).functions@.last().params@, with_self, params@),
        final(module).functions@.last().spec_terminated(),
        *final(func_default_args) == *old(func_default_args),
        body.stmts@.len() == 0 && tables.consts@.len() == 0
            ==> ends_with_implicit_return(final(module).functions@.last()),
{
    let mut ir_params: Vec<IrParam> = Vec::new();
    if with_self {
        ir_params.push(IrParam { name: "self".to_owned(), ty: IrType::from_ast(&Type::Mixed), slot: Value(0) });
    }
    let mut i: usize = 0;
    while i < params.len()
        invariant
            i <= params@.len(),
        decreases params@.len() - i,
    {
        let p = &params[i];
        let ty = if p.is_variadic { IrType::Ptr } else { IrType::from_ast(&p.ty) };
        let slot: u32 = if ir_params.len() < 0xffff_ffff { ir_params.len() as u32 } else { 0xffff_ffff };
        ir_params.push(IrParam { name: p.name.clone(), ty, slot: Value(slot) });
        i = i + 1;
    }
    let ir_ret = IrType::from_ast(ret_ty);
    let mut placeholder = IrModule::new("");
    std::mem::swap(module, &mut placeholder);
    let ghost m0 = placeholder;
    let mut builder = LowerBuilder::new(placeholder, name.to_owned(), ir_params, ir_ret);
    match class_name {
        Some(cls) => {
            builder.current_class = Some(cls.to_owned());
            builder.var_class.insert("self".to_owned(), cls.to_owned());
        },
        None => {},
    }
    match parent_name {
        Some(p) => {
            builder.parent_class = Some(p.to_owned());
        },
        None => {},
    }
    builder.fn_ret_types = tables.fn_ret_types.duplicate();
    builder.fn_param_types = tables.fn_param_types.duplicate();
    builder.fn_param_names = tables.fn_param_names.duplicate();
    builder.fn_variadic_info = tables.fn_variadic_info.duplicate();
    builder.async_funcs = tables.async_funcs.duplicate();
    std::mem::swap(&mut builder.func_default_args, func_default_args);
    let ghost lent = builder.func_default_args;
    let ghost name0 = builder.func.name;
    let ghost ret0 = builder.func.ret_ty;
    let consts = tables.consts;
    let ghost f_start = builder.func;
    let mut c: usize = 0;
    while c < consts.len()
        invariant
            c <= consts@.len(),
            c == 0 ==> builder.func == f_start,
            f_start.code() == seq![Seq::<InstV>::empty()] && f_start.current == 0,
            builder.wf(),
            builder.func_default_args == lent,
            builder.func.name == name0,
            builder.func.ret_ty == ret0,
            crate::builder::functions_grow(m0, builder.module),
        decreases consts@.len() - c,
    {
        let decl = &consts[c];
        let ir_ty = IrType::from_ast(&decl.ty);
        let _slot = builder.declare_local(decl.name.as_str(), ir_ty, false);
        let val = lower_expr(&mut builder, &decl.value);
        builder.store_local(decl.name.as_str(), val);
        c = c + 1;
    }
    let mut updated: Vec<IrParam> = Vec::new();
    if with_self {
        let p = receive_param(&mut builder, "self", IrType::from_ast(&Type::Mixed));
        updated.push(p);
    }
    let ghost k: int = if with_self { 1 } else { 0 };
    let mut j: usize = 0;
    while j < params.len()
        invariant
            consts@.len() == 0 ==> !builder.func.spec_terminated() && builder.func.current == 0,
            j <= params@.len(),
            builder.wf(),
            builder.func_default_args == lent,
            builder.func.name == name0,
            builder.func.ret_ty == ret0,
            crate::builder::functions_grow(m0, builder.module),
            k == (if with_self { 1int } else { 0int }),
            updated@.len() == j + k,
            with_self ==> updated@[0].name@ == "self"@ && updated@[0].ty == ir_type_of(Type::Mixed),
            forall|m: int| 0 <= m < j ==>
                (#[trigger] updated@[m + k]).name@ == params@[m].name@ && updated@[m + k].ty == param_ir_type(params@[m]),
        decreases params@.len() - j,
    {
        let param = &params[j];
        let ir_ty = if param.is_variadic { IrType::Ptr } else { IrType::from_ast(&param.ty) };
        if param.is_variadic {
            builder.variadic_params.insert(param.name.clone());
        }
        match &param.ty {
            Type::Array(inner) => {
                builder.elem_types.insert(param.name.clone(), IrType::from_ast(inner));
            },
            Type::Dict(_, _) => {
                builder.map_vars.insert(param.name.clone());
            },
            Type::Function { ret_ty: f_ret, .. } => {
                builder.func_vars.insert(param.name.clone());
                builder.func_ret_types.insert(param.name.clone(), IrType::from_ast(f_ret));
            },
            _ => {},
        }
        let p = receive_param(&mut builder, param.name.as_str(), ir_ty);
        updated.push(p);
        j = j + 1;
    }
    builder.func.params = updated;
    assert(builder.wf());
    builder.auto_freeable_vars = compute_auto_freeable_vars(&builder.module, body, class_name);
    let ghost before_body = builder.func;
    lower_block(&mut builder, body);
    if !builder.is_terminated() {
        let ghost b0 = builder.func;
        let v = if ir_ret != IrType::Void {
            let zero = builder.new_value();
            builder.emit(Inst::ConstInt { dest: zero, value: 0 });
            Some(zero)
        } else {
            None
        };
        let ghost b1 = builder.func;
        builder.emit(Inst::Return { value: v });
        proof {
            let cur = builder.func.current as int;
            assert(builder.func.code()[cur] == b1.code()[cur].push(InstV::Return { value: v }));
            if ir_ret != IrType::Void {
                assert(b1.code()[cur] == b0.code()[cur].push(InstV::ConstInt { dest: v.unwrap(), value: 0 }));
            }
        }
    }
    std::mem::swap(&mut builder.func_default_args, func_default_args);
    std::mem::swap(module, &mut builder.module);
    module.add_function(builder.func);
}

/// Lowers function `func` (see `lower_func_parts`); a body that falls
/// through ends with the implicit return (`ends_with_implicit_return`).
pub fn lower_func<'a>(
    module: &mut IrModule,
    func: &FuncDecl,
    tables: &FunctionTables,
    func_default_args: &mut NameMap<Vec<Option<&'a Expr>>>,
    class_name: Option<&str>,
    parent_name: Option<&str>,
)
    ensures
        crate::builder::functions_grow(*old(module), *final(module)),
        final(module).functions@.len() > 0,
        final(module).functions@.last().name@ == func.name@,
        final(module).functions@.last().ret_ty == ir_type_of(func.ret_ty),
        signature_matches(final(module).functions@.last().params@, false, func.params@),
        final(module).functions@.last().spec_terminated(),
        *final(func_default_args) == *old(func_default_args),
        func.body.stmts@.len() == 0 && tables.consts@.len() == 0
            ==> ends_with_implicit_return(final(module).functions@.last()),
{
    lower_func_parts(module, func.name.as_str(), false, &func.params, &func.ret_ty, &func.body, tables,
        func_default_args, class_name, parent_name);
}

} // verus!
