//! Lowering of anonymous functions (closures): the closure's own function
//! and, at the place where it is created, its environment and fat pointer.
use vstd::prelude::*;
use crate::ast::{Block, Expr, Param, Type};
use crate::builder::{LowerBuilder, slot_offset};
use crate::captures::collect_captures;
use crate::ir::{ir_type_of, Inst, InstV, IrModule, IrParam, IrType, Value};
use crate::lower::{builds_fat_ptr, call_value, emit_call, lower_expr};
use crate::classes::emitted_after;
use crate::names::{Duplicate, NameMap, NameSet};
use crate::text::{concat, decimal_spec, with_number};

verus! {

fn ir_param(name: String, ty: IrType) -> (r: IrParam)
    ensures
        r.name == name,
        r.ty == ty,
{
    IrParam { name, ty, slot: Value(0) }
}

/// Builds the function `anon_name` of a closure: its first parameter is the
/// environment, then its own parameters; a parameter with a default value
/// that receives the sentinel 0 takes the default stored in the
/// environment; captured variables are accessed through the environment;
/// the body falls through to `return 0` (closures uniformly return I64).
/// The environment's layout (captures, then defaults) is recorded, and the
/// function is added to the module.
pub fn lower_nameless_fn(
    module: &mut IrModule,
    anon_name: &str,
    params: &Vec<Param>,
    ret_ty: IrType,
    body: &Block,
    captures: &Vec<(String, IrType)>,
    fn_ret_types: &NameMap<IrType>,
    fn_param_types: &NameMap<Vec<IrType>>,
    current_class: &Option<String>,
    var_class: &NameMap<String>,
    func_vars: &NameSet,
    has_defaults: bool,
)
    ensures
        crate::builder::functions_grow(*old(module), *final(module)),
        final(module).functions@.len() > old(module).functions@.len(),
        final(module).functions@.last().name@ == anon_name@,
        final(module).functions@.last().ret_ty == IrType::I64,
        final(module).functions@.last().params@.len() == params@.len() + 1,
        final(module).functions@.last().params@[0].name@ == "__env"@,
        final(module).functions@.last().params@[0].ty == IrType::Ptr,
        forall|i: int| 0 <= i < params@.len() ==> {
            &&& (#[trigger] final(module).functions@.last().params@[i + 1]).name@ == params@[i].name@
            &&& final(module).functions@.last().params@[i + 1].ty == ir_type_of(params@[i].ty)
        },
        final(module).functions@.last().spec_terminated(),
        body.stmts@.len() == 0 && !has_defaults
            ==> crate::functions::ends_with_implicit_return(final(module).functions@.last()),
    decreases 0nat, *body, 3nat,
{
    let _ = ret_ty;
    if captures.len() > 0 || has_defaults {
        let env_class = concat("__env_", anon_name);
        let mut env_fields: Vec<(String, IrType)> = Vec::new();
        let mut i: usize = 0;
        while i < captures.len()
            decreases captures@.len() - i,
        {
            env_fields.push((with_number("__cap_", i), captures[i].1));
            i = i + 1;
        }
        if has_defaults {
            let mut k: usize = 0;
            while k < params.len()
                decreases params@.len() - k,
            {
                if params[k].default_value.is_some() {
                    env_fields.push((with_number("__default_", k), IrType::from_ast(&params[k].ty)));
                }
                k = k + 1;
            }
        }
        module.class_layouts.insert(env_class, env_fields);
    }
    let mut ir_params: Vec<IrParam> = Vec::new();
    ir_params.push(ir_param("__env".to_owned(), IrType::Ptr));
    let mut p: usize = 0;
    while p < params.len()
        decreases params@.len() - p,
    {
        ir_params.push(ir_param(params[p].name.clone(), IrType::from_ast(&params[p].ty)));
        p = p + 1;
    }
    let mut b = LowerBuilder::new(IrModule::new(""), anon_name.to_owned(), ir_params, IrType::I64);
    std::mem::swap(&mut b.module, module);
    let ghost m0 = b.module;
    assert(crate::builder::functions_grow(*old(module), m0));
    b.fn_ret_types = fn_ret_types.duplicate();
    b.fn_param_types = fn_param_types.duplicate();
    b.current_class = current_class.clone();
    b.var_class = var_class.duplicate();
    b.func_vars = func_vars.duplicate();

    let mut updated: Vec<IrParam> = Vec::new();
    let env_slot = b.declare_local("__env", IrType::Ptr, false);
    let env_recv = b.new_value();
    b.emit(Inst::Store { ptr: env_slot, src: env_recv });
    updated.push(IrParam { name: "__env".to_owned(), ty: IrType::Ptr, slot: env_recv });
    proof {
        reveal_strlit("__env");
        let cur = b.func.current as int;
        assert(b.func.code()[cur].last() == (InstV::Store { ptr: env_slot, src: env_recv }));
    }
    let mut q: usize = 0;
    while q < params.len()
        invariant
            b.wf(),
            b.fda_len() == 0,
            b.module == m0,
            b.func.name@ == anon_name@,
            b.func.ret_ty == IrType::I64,
            q <= params@.len(),
            updated@.len() == q + 1,
            updated@[0].name@ == "__env"@,
            updated@[0].ty == IrType::Ptr,
            !b.func.spec_terminated(),
            forall|m: int| 0 <= m < q ==> {
                &&& (#[trigger] updated@[m + 1]).name@ == params@[m].name@
                &&& updated@[m + 1].ty == ir_type_of(params@[m].ty)
            },
        decreases params@.len() - q,
    {
        let param = &params[q];
        let ir_ty = IrType::from_ast(&param.ty);
        match &param.ty {
            Type::Dict(_, _) => {
                b.map_vars.insert(param.name.clone());
            },
            Type::Function { ret_ty: rt, .. } => {
                b.func_vars.insert(param.name.clone());
                b.func_ret_types.insert(param.name.clone(), IrType::from_ast(rt));
            },
            _ => {},
        }
        let slot = b.declare_local(param.name.as_str(), ir_ty, false);
        let recv = b.new_value();
        b.emit(Inst::Store { ptr: slot, src: recv });
        proof {
            let cur = b.func.current as int;
            assert(b.func.code()[cur].last() == (InstV::Store { ptr: slot, src: recv }));
        }
        updated.push(IrParam { name: param.name.clone(), ty: ir_ty, slot: recv });
        q = q + 1;
    }
    b.func.params = updated;
    let ghost ps = b.func.params;

    if has_defaults {
        let env_val = match b.load_local("__env") {
            Some((v, _t)) => v,
            None => Value(0),
        };
        let mut i: usize = 0;
        while i < params.len()
            invariant
                b.wf(),
                b.fda_len() == 0,
                b.module == m0,
                b.func.name@ == anon_name@,
                b.func.ret_ty == IrType::I64,
                b.func.params@.len() == params@.len() + 1,
                b.func.params@[0].name@ == "__env"@,
                b.func.params == ps,
            decreases params@.len() - i,
        {
            let param = &params[i];
            if param.default_value.is_some() {
                let param_val = match b.load_local(param.name.as_str()) {
                    Some((v, _t)) => v,
                    None => Value(0),
                };
                let ir_ty = IrType::from_ast(&param.ty);
                let zero = b.new_value();
                match ir_ty {
                    IrType::F64 => b.emit(Inst::ConstFloat { dest: zero, bits: 0 }),
                    IrType::Bool => b.emit(Inst::ConstBool { dest: zero, value: false }),
                    _ => b.emit(Inst::ConstInt { dest: zero, value: 0 }),
                }
                let is_sentinel = b.new_value();
                b.emit(Inst::CmpEq { dest: is_sentinel, lhs: param_val, rhs: zero, ty: ir_ty });
                let then_bb = b.new_block();
                let else_bb = b.new_block();
                let merge_bb = b.new_block();
                b.emit(Inst::Branch { cond: is_sentinel, then_bb, else_bb });
                b.switch_to(&then_bb);
                let offset = if captures.len() < 0x1000_0000 && i < 0x1000_0000 {
                    slot_offset(captures.len() + i)
                } else {
                    i32::MAX
                };
                let default_val = b.new_value();
                b.emit(Inst::GetField {
                    dest: default_val,
                    obj: env_val,
                    field: with_number("__default_", i),
                    ty: ir_ty,
                    offset,
                });
                let slot = match b.slot_of_local(param.name.as_str()) {
                    Some(s) => s,
                    None => Value(0),
                };
                b.emit(Inst::Store { ptr: slot, src: default_val });
                b.emit(Inst::Jump { target: merge_bb });
                b.switch_to(&else_bb);
                b.emit(Inst::Jump { target: merge_bb });
                b.switch_to(&merge_bb);
            }
            i = i + 1;
        }
    }

    if captures.len() > 0 {
        let env_val = match b.load_local("__env") {
            Some((v, _t)) => v,
            None => Value(0),
        };
        let mut i: usize = 0;
        while i < captures.len()
            invariant
                b.wf(),
                b.fda_len() == 0,
                b.module == m0,
                b.func.name@ == anon_name@,
                b.func.ret_ty == IrType::I64,
                b.func.params@.len() == params@.len() + 1,
                b.func.params@[0].name@ == "__env"@,
                b.func.params == ps,
                !has_defaults ==> !b.func.spec_terminated(),
            decreases captures@.len() - i,
        {
            let cap_name = &captures[i].0;
            b.captured_vars.insert(cap_name.clone(), (env_val, i, captures[i].1));
            match var_class.get(cap_name.as_str()) {
                Some(cls) => {
                    b.var_class.insert(cap_name.clone(), cls.clone());
                },
                None => {},
            }
            i = i + 1;
        }
    }

    crate::block::lower_block(&mut b, body);

    if !b.is_terminated() {
        let ghost b0 = b.func;
        let z = b.new_value();
        b.emit(Inst::ConstInt { dest: z, value: 0 });
        let ghost b1 = b.func;
        b.emit(Inst::Return { value: Some(z) });
        proof {
            let cur = b.func.current as int;
            assert(b.func.code()[cur] == b1.code()[cur].push(InstV::Return { value: Some(z) }));
            assert(b1.code()[cur] == b0.code()[cur].push(InstV::ConstInt { dest: z, value: 0 }));
        }
    }
    std::mem::swap(&mut b.module, module);
    module.add_function(b.func);
}

/// A closure expression: captures the variables of the enclosing scope it
/// uses (a local is moved to a locked heap cell shared with the closure;
/// a variable already captured by the enclosing closure is forwarded),
/// builds the closure's function, then its environment (captures, then the
/// values of its parameters' defaults) and returns a fat pointer
/// `{func, env}` (the environment is 0 when empty).
pub fn lower_nameless_expr(builder: &mut LowerBuilder, expr: &Expr) -> (r: Value)
    requires
        old(builder).wf(),
        *expr is Nameless,
    ensures
        LowerBuilder::kept(old(builder), final(builder)),
        closure_shape(*old(builder), *final(builder), r),
    decreases old(builder).fda_len(), *expr, 1nat,
{
    let (params, ret_ty, body) = match expr {
        Expr::Nameless { params, ret_ty, body, .. } => (params, ret_ty, body),
        _ => {
            proof { assert(false); }
            return Value(0);
        },
    };
    proof {
        assert(decreases_to!(*expr => *body));
        assert(decreases_to!(*expr => *params));
    }
    let actual_ret_ty = match ret_ty {
        Some(t) => IrType::from_ast(t),
        None => IrType::Ptr,
    };
    let mut param_names = NameSet::new();
    let mut k: usize = 0;
    while k < params.len()
        decreases params@.len() - k,
    {
        param_names.insert(params[k].name.clone());
        k = k + 1;
    }
    let mut capture_scope = builder.locals.duplicate();
    let mut c: usize = 0;
    while c < builder.captured_vars.entries.len()
        decreases builder.captured_vars.entries@.len() - c,
    {
        let name = &builder.captured_vars.entries[c].0;
        let ty = builder.captured_vars.entries[c].1.2;
        if !capture_scope.contains_key(name.as_str()) {
            capture_scope.insert(name.clone(), (Value(0), ty, false));
        }
        c = c + 1;
    }
    let captures = collect_captures(body, &param_names, &capture_scope);
    let mut has_defaults = false;
    let mut d: usize = 0;
    while d < params.len()
        decreases params@.len() - d,
    {
        if params[d].default_value.is_some() {
            has_defaults = true;
        }
        d = d + 1;
    }
    let count = builder.module.anon_counter;
    if builder.module.anon_counter < usize::MAX {
        builder.module.anon_counter = builder.module.anon_counter + 1;
    }
    let anon_name = with_number("__anon_", count);

    let mut capture_vals: Vec<Value> = Vec::new();
    let mut i: usize = 0;
    while i < captures.len()
        invariant
            LowerBuilder::kept(old(builder), builder),
            capture_vals@.len() == i,
            i <= captures@.len(),
        decreases captures@.len() - i,
    {
        let cap_name = &captures[i].0;
        let v = if builder.heap_promoted.contains(cap_name.as_str()) {
            match builder.slot_of_local(cap_name.as_str()) {
                Some(s) => s,
                None => {
                    let d = builder.new_value();
                    builder.emit(Inst::Nop);
                    d
                },
            }
        } else {
            let local = match builder.locals.get(cap_name.as_str()) {
                Some(e) => Some(*e),
                None => None,
            };
            match local {
                Some((slot, ty, mutable)) => {
                    let heap_ptr = call_value(builder, "__alloc_locked_cell", Vec::new(), IrType::Ptr);
                    let cur_val = builder.new_value();
                    builder.emit(Inst::Load { dest: cur_val, ptr: slot, ty });
                    let mut args: Vec<Value> = Vec::new();
                    args.push(heap_ptr);
                    args.push(cur_val);
                    emit_call(builder, None, "__locked_cell_set".to_owned(), args, IrType::Void);
                    builder.locals.insert(cap_name.clone(), (heap_ptr, ty, mutable));
                    builder.heap_promoted.insert(cap_name.clone());
                    heap_ptr
                },
                None => {
                    let captured = match builder.captured_vars.get(cap_name.as_str()) {
                        Some(e) => Some(*e),
                        None => None,
                    };
                    match captured {
                        Some((env_val, idx, _t)) => {
                            let ptr = builder.new_value();
                            builder.emit(Inst::GetField {
                                dest: ptr,
                                obj: env_val,
                                field: with_number("__cap_", idx),
                                ty: IrType::Ptr,
                                offset: slot_offset(idx),
                            });
                            ptr
                        },
                        None => {
                            let d = builder.new_value();
                            builder.emit(Inst::Nop);
                            d
                        },
                    }
                },
            }
        };
        capture_vals.push(v);
        i = i + 1;
    }

    lower_nameless_fn(
        &mut builder.module,
        anon_name.as_str(),
        params,
        actual_ret_ty,
        body,
        &captures,
        &builder.fn_ret_types,
        &builder.fn_param_types,
        &builder.current_class,
        &builder.var_class,
        &builder.func_vars,
        has_defaults,
    );
    let ghost m_fn = builder.module;
    proof {
        let jf = m_fn.functions@.len() - 1;
        assert(m_fn.functions@[jf].name@ == anon_name@);
    }

    let env_ptr_val = if captures.len() == 0 && !has_defaults {
        let z = builder.new_value();
        builder.emit(Inst::ConstInt { dest: z, value: 0 });
        z
    } else {
        let env = builder.new_value();
        builder.emit(Inst::Alloc { dest: env, class: concat("__env_", anon_name.as_str()) });
        let mut j: usize = 0;
        while j < captures.len()
            invariant
                LowerBuilder::kept(old(builder), builder),
                crate::builder::functions_grow(m_fn, builder.module),
                capture_vals@.len() == captures@.len(),
            decreases captures@.len() - j,
        {
            builder.emit(Inst::SetField {
                obj: env,
                field: with_number("__cap_", j),
                src: capture_vals[j],
                offset: slot_offset(j),
            });
            j = j + 1;
        }
        if has_defaults {
            let default_offset = captures.len();
            let mut pi: usize = 0;
            while pi < params.len()
                invariant
                    LowerBuilder::kept(old(builder), builder),
                    crate::builder::functions_grow(m_fn, builder.module),
                    decreases_to!(*expr => *params),
                decreases params@.len() - pi,
            {
                proof {
                    assert(decreases_to!(*params => params@));
                    assert(decreases_to!(params@ => params@[pi as int]));
                    assert(decreases_to!(params@[pi as int] => params@[pi as int].default_value));
                }
                match &params[pi].default_value {
                    Some(default_expr) => {
                        proof {
                            assert(decreases_to!(params@[pi as int].default_value => *default_expr));
                        }
                        let default_val = lower_expr(builder, default_expr);
                        let offset = if default_offset < 0x1000_0000 && pi < 0x1000_0000 {
                            slot_offset(default_offset + pi)
                        } else {
                            i32::MAX
                        };
                        builder.emit(Inst::SetField {
                            obj: env,
                            field: with_number("__default_", pi),
                            src: default_val,
                            offset,
                        });
                    },
                    None => {},
                }
                pi = pi + 1;
            }
        }
        env
    };
    let ghost cur = builder.func.current as int;
    let ghost aname = anon_name@;
    let func_addr = builder.new_value();
    builder.emit(Inst::FuncAddr { dest: func_addr, func: anon_name });
    let ghost j = builder.func.code()[cur].len() - 1;
    assert(builder.func.code()[cur][j] == (InstV::FuncAddr { dest: func_addr, func: aname }));
    let ghost b_addr = builder.func;
    let fat_ptr = builder.new_value();
    builder.emit(Inst::Alloc { dest: fat_ptr, class: "__fat_ptr".to_owned() });
    builder.emit(Inst::SetField { obj: fat_ptr, field: "func".to_owned(), src: func_addr, offset: 0 });
    builder.emit(Inst::SetField { obj: fat_ptr, field: "env".to_owned(), src: env_ptr_val, offset: 8 });
    proof {
        assert(builder.func.code()[cur][j] == b_addr.code()[cur][j]);
        let jf = m_fn.functions@.len() - 1;
        assert(builder.module.functions@[jf] == m_fn.functions@[jf]);
    }
    fat_ptr
}

/// A closure lowered when the module's closure counter was `k`: its
/// function `__anon_<k>` was added to the module, and the code ends by
/// building the fat pointer `r` to it (see `builds_fat_ptr`).
pub open spec fn closure_shape(before: LowerBuilder, after: LowerBuilder, r: Value) -> bool {
    let name = "__anon_"@ + decimal_spec(before.module.anon_counter as nat);
    &&& emitted_after(before.module.functions@.len() as int, after.module, name)
    &&& builds_fat_ptr(after.func, r, name)
}

} // verus!
