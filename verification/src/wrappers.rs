//! Wrappers that let any function be called through a fat pointer, and
//! wrappers that run an async function as a task.
use vstd::prelude::*;
use crate::builder::{functions_grow, LowerBuilder};
use crate::ir::{Inst, InstV, IrFunction, IrModule, IrParam, IrType, Value};
use crate::builder::slot_offset_spec;
use crate::names::NameMap;
use crate::text::{decimal_spec, with_number};

verus! {

/// Return type of the fat-pointer wrapper of a function returning
/// `ret_ty`: every wrapper returns a word (0 for a `void` function).
pub open spec fn wrapper_ret_type(ret_ty: IrType) -> IrType {
    if ret_ty == IrType::Void { IrType::I64 } else { ret_ty }
}

/// `f` is one block that stores each parameter in a slot of its own (the
/// environment first, then one per type of `param_tys`), loads the others
/// back, calls `callee` once on them in order, and returns the call's
/// result, or 0 when `ret_ty` is `void`.
pub open spec fn forwards_params(f: IrFunction, callee: Seq<char>, param_tys: Seq<IrType>, ret_ty: IrType) -> bool {
    let b = f.code()[0];
    let n = param_tys.len() as int;
    let call = b[2 + 3 * n];
    &&& f.code().len() == 1
    &&& b.len() == 2 + 3 * n + (if ret_ty == IrType::Void { 3int } else { 2int })
    &&& b[0] is Alloca
    &&& b[1] == (InstV::Store { ptr: b[0]->Alloca_dest, src: f.params@[0].slot })
    &&& call is Call && call->Call_func == callee && call->Call_args.len() == n && call->Call_ret_ty == ret_ty
    &&& forall|i: int| 0 <= i < n ==> {
        let slot = b[2 + 3 * i];
        &&& slot is Alloca && slot->Alloca_ty == param_tys[i]
        &&& b[2 + 3 * i + 1] == (InstV::Store { ptr: slot->Alloca_dest, src: f.params@[i + 1].slot })
        &&& b[2 + 3 * i + 2] == (InstV::Load { dest: #[trigger] call->Call_args[i], ptr: slot->Alloca_dest, ty: param_tys[i] })
    }
    &&& ret_ty != IrType::Void ==> call->Call_dest is Some && b[3 + 3 * n] == (InstV::Return { value: call->Call_dest })
    &&& ret_ty == IrType::Void ==> {
        &&& call->Call_dest is None
        &&& b[3 + 3 * n] is ConstInt && b[3 + 3 * n]->ConstInt_value == 0
        &&& b[4 + 3 * n] == (InstV::Return { value: Some(b[3 + 3 * n]->ConstInt_dest) })
    }
}

/// `f` is one block that loads its environment and reads argument `i` from
/// its field `__arg<i>` (8 bytes each, with the type of `param_tys`), calls
/// `callee` once on them in order, and returns the result as a word: itself
/// for an integer or a pointer, boxed for a float or a boolean, 0 for
/// `void` (and for any other type).
pub open spec fn forwards_env(f: IrFunction, callee: Seq<char>, param_tys: Seq<IrType>, ret_ty: IrType) -> bool {
    let b = f.code()[0];
    let n = param_tys.len() as int;
    let call = b[3 + n];
    &&& f.code().len() == 1
    &&& b[0] is Alloca
    &&& b[1] == (InstV::Store { ptr: b[0]->Alloca_dest, src: f.params@[0].slot })
    &&& b[2] == (InstV::Load { dest: b[2]->Load_dest, ptr: b[0]->Alloca_dest, ty: IrType::I64 })
    &&& call is Call && call->Call_func == callee && call->Call_args.len() == n && call->Call_ret_ty == ret_ty
    &&& forall|i: int| 0 <= i < n ==> b[3 + i] == (InstV::GetField { dest: #[trigger] call->Call_args[i],
        obj: b[2]->Load_dest, field: "__arg"@ + decimal_spec(i as nat), ty: param_tys[i], offset: slot_offset_spec(i) })
    &&& (ret_ty == IrType::I64 || ret_ty == IrType::Ptr) ==> call->Call_dest is Some
        && b.len() == n + 5 && b[4 + n] == (InstV::Return { value: call->Call_dest })
    &&& (ret_ty == IrType::F64 || ret_ty == IrType::Bool) ==> {
        let boxing = b[4 + n];
        &&& call->Call_dest is Some
        &&& b.len() == n + 6
        &&& boxing is Call && boxing->Call_dest is Some
        &&& boxing->Call_func == (if ret_ty == IrType::F64 { "__box_float"@ } else { "__box_bool"@ })
        &&& boxing->Call_args == seq![call->Call_dest->0]
        &&& b[5 + n] == (InstV::Return { value: boxing->Call_dest })
    }
    &&& !(ret_ty == IrType::I64 || ret_ty == IrType::Ptr || ret_ty == IrType::F64 || ret_ty == IrType::Bool) ==> {
        &&& b.len() == n + 6
        &&& b[4 + n] is ConstInt && b[4 + n]->ConstInt_value == 0
        &&& b[5 + n] == (InstV::Return { value: Some(b[4 + n]->ConstInt_dest) })
    }
}

/// `wrapper_name(__env, __p0, ..., __pn) -> wrapper_ret_type(ret_ty)`:
/// ignores the environment, calls `original_name` on the parameters and
/// returns its result (0 for a `void` function). The table of return types
/// is not consulted: the wrapper's own types come from `param_tys` and
/// `ret_ty`.
pub fn generate_wrapper(
    module: &mut IrModule,
    original_name: &str,
    wrapper_name: &str,
    param_tys: &Vec<IrType>,
    ret_ty: IrType,
    fn_ret_types: &NameMap<IrType>,
)
    ensures
        functions_grow(*old(module), *final(module)),
        final(module).functions@.drop_last() == old(module).functions@,
        final(module).functions@.len() == old(module).functions@.len() + 1,
        final(module).functions@.last().name@ == wrapper_name@,
        final(module).functions@.last().ret_ty == wrapper_ret_type(ret_ty),
        final(module).functions@.last().params@.len() == param_tys@.len() + 1,
        final(module).functions@.last().params@[0].name@ == "__env"@,
        final(module).functions@.last().params@[0].ty == IrType::Ptr,
        forall|i: int| 0 <= i < param_tys@.len() ==> {
            &&& (#[trigger] final(module).functions@.last().params@[i + 1]).name@ == "__p"@ + decimal_spec(i as nat)
            &&& final(module).functions@.last().params@[i + 1].ty == param_tys@[i]
        },
        forwards_params(final(module).functions@.last(), original_name@, param_tys@, ret_ty),
{
    let _ = fn_ret_types;
    let wrapper_ret = if ret_ty == IrType::Void { IrType::I64 } else { ret_ty };
    let mut b = LowerBuilder::new(IrModule::new(""), wrapper_name.to_owned(), Vec::new(), wrapper_ret);
    let mut updated: Vec<IrParam> = Vec::new();
    let env_slot = b.declare_local("__env", IrType::Ptr, false);
    let env_recv = b.new_value();
    b.emit(Inst::Store { ptr: env_slot, src: env_recv });
    updated.push(IrParam { name: "__env".to_owned(), ty: IrType::Ptr, slot: env_recv });
    let mut call_args: Vec<Value> = Vec::new();
    let mut i: usize = 0;
    while i < param_tys.len()
        invariant
            i <= param_tys@.len(),
            b.wf(),
            b.func.name@ == wrapper_name@,
            b.func.ret_ty == wrapper_ret,
            updated@.len() == i + 1,
            updated@[0].name@ == "__env"@,
            updated@[0].ty == IrType::Ptr,
            forall|k: int| 0 <= k < i ==> {
                &&& (#[trigger] updated@[k + 1]).name@ == "__p"@ + decimal_spec(k as nat)
                &&& updated@[k + 1].ty == param_tys@[k]
            },
            call_args@.len() == i,
            b.func.code().len() == 1,
            b.func.current == 0,
            b.func.code()[0].len() == 2 + 3 * i,
            b.func.code()[0][0] is Alloca,
            b.func.code()[0][1] == (InstV::Store { ptr: b.func.code()[0][0]->Alloca_dest, src: updated@[0].slot }),
            forall|k: int| 0 <= k < i ==> {
                let slot = b.func.code()[0][2 + 3 * k];
                &&& slot is Alloca && slot->Alloca_ty == param_tys@[k]
                &&& b.func.code()[0][2 + 3 * k + 1] == (InstV::Store { ptr: slot->Alloca_dest, src: updated@[k + 1].slot })
                &&& b.func.code()[0][2 + 3 * k + 2] == (InstV::Load { dest: #[trigger] call_args@[k], ptr: slot->Alloca_dest, ty: param_tys@[k] })
            },
            b.frame_vars@ == Map::<Seq<char>, (Value, usize, IrType)>::empty(),
            b.captured_vars@ == Map::<Seq<char>, (Value, usize, IrType)>::empty(),
        decreases param_tys@.len() - i,
    {
        let pname = with_number("__p", i);
        let ty = param_tys[i];
        let ghost c0 = b.func.code()[0];
        let ghost old_updated = updated@;
        let ghost old_args = call_args@;
        let slot = b.declare_local(pname.as_str(), ty, false);
        let recv = b.new_value();
        b.emit(Inst::Store { ptr: slot, src: recv });
        updated.push(IrParam { name: pname.clone(), ty, slot: recv });
        let ghost c1 = b.func.code()[0];
        assert(c1 == c0 + seq![InstV::Alloca { dest: slot, ty }, InstV::Store { ptr: slot, src: recv }]);
        match b.load_local(pname.as_str()) {
            Some((val, _t)) => {
                proof {
                    assert(b.func.code()[0] == c1.push(InstV::Load { dest: val, ptr: slot, ty }));
                }
                call_args.push(val);
            },
            None => {},
        }
        proof {
            assert forall|k: int| 0 <= k < i + 1 implies {
                let sl = b.func.code()[0][2 + 3 * k];
                &&& sl is Alloca && sl->Alloca_ty == param_tys@[k]
                &&& b.func.code()[0][2 + 3 * k + 1] == (InstV::Store { ptr: sl->Alloca_dest, src: updated@[k + 1].slot })
                &&& b.func.code()[0][2 + 3 * k + 2] == (InstV::Load { dest: #[trigger] call_args@[k], ptr: sl->Alloca_dest, ty: param_tys@[k] })
            } by {
                if k < i {
                    assert(b.func.code()[0][2 + 3 * k] == c0[2 + 3 * k]);
                    assert(b.func.code()[0][2 + 3 * k + 1] == c0[2 + 3 * k + 1]);
                    assert(b.func.code()[0][2 + 3 * k + 2] == c0[2 + 3 * k + 2]);
                    assert(updated@[k + 1] == old_updated[k + 1]);
                    assert(call_args@[k] == old_args[k]);
                }
            }
        }
        i = i + 1;
    }
    b.func.params = updated;
    let ghost cb = b.func.code()[0];
    let ghost args = call_args@;
    if ret_ty != IrType::Void {
        let dest = b.new_value();
        b.emit(Inst::Call { dest: Some(dest), func: original_name.to_owned(), args: call_args, ret_ty });
        b.emit(Inst::Return { value: Some(dest) });
        assert(b.func.code()[0] == cb + seq![
            InstV::Call { dest: Some(dest), func: original_name@, args, ret_ty },
            InstV::Return { value: Some(dest) },
        ]);
    } else {
        b.emit(Inst::Call { dest: None, func: original_name.to_owned(), args: call_args, ret_ty: IrType::Void });
        let zero = b.new_value();
        b.emit(Inst::ConstInt { dest: zero, value: 0 });
        b.emit(Inst::Return { value: Some(zero) });
        assert(b.func.code()[0] == cb + seq![
            InstV::Call { dest: None, func: original_name@, args, ret_ty: IrType::Void },
            InstV::ConstInt { dest: zero, value: 0 },
            InstV::Return { value: Some(zero) },
        ]);
    }
    proof {
        let f = b.func;
        let n = param_tys@.len() as int;
        assert forall|i: int| 0 <= i < n implies {
            let slot = f.code()[0][2 + 3 * i];
            &&& slot is Alloca && slot->Alloca_ty == param_tys@[i]
            &&& f.code()[0][2 + 3 * i + 1] == (InstV::Store { ptr: slot->Alloca_dest, src: f.params@[i + 1].slot })
            &&& f.code()[0][2 + 3 * i + 2] == (InstV::Load { dest: #[trigger] f.code()[0][2 + 3 * n]->Call_args[i], ptr: slot->Alloca_dest, ty: param_tys@[i] })
        } by {
            assert(f.code()[0][2 + 3 * i] == cb[2 + 3 * i]);
            assert(f.code()[0][2 + 3 * i + 1] == cb[2 + 3 * i + 1]);
            assert(f.code()[0][2 + 3 * i + 2] == cb[2 + 3 * i + 2]);
        }
    }
    module.add_function(b.func);
    proof {
        assert(module.functions@.drop_last() =~= old(module).functions@);
    }
}

/// `wrapper_name(__env) -> i64`, the body of a task: reads the arguments
/// from the heap environment (8 bytes each, in order), calls
/// `original_name`, and returns its result as a word (a float or a boolean
/// boxed, 0 for `void`).
pub fn generate_async_wrapper(
    module: &mut IrModule,
    original_name: &str,
    wrapper_name: &str,
    param_tys: &Vec<IrType>,
    ret_ty: IrType,
    fn_ret_types: &NameMap<IrType>,
)
    ensures
        functions_grow(*old(module), *final(module)),
        final(module).functions@.drop_last() == old(module).functions@,
        final(module).functions@.len() == old(module).functions@.len() + 1,
        final(module).functions@.last().name@ == wrapper_name@,
        final(module).functions@.last().ret_ty == IrType::I64,
        final(module).functions@.last().params@.len() == 1,
        final(module).functions@.last().params@[0].name@ == "__env"@,
        final(module).functions@.last().params@[0].ty == IrType::I64,
        forwards_env(final(module).functions@.last(), original_name@, param_tys@, ret_ty),
{
    let _ = fn_ret_types;
    let mut b = LowerBuilder::new(IrModule::new(""), wrapper_name.to_owned(), Vec::new(), IrType::I64);
    let env_slot = b.declare_local("__env", IrType::I64, false);
    let env_recv = b.new_value();
    b.emit(Inst::Store { ptr: env_slot, src: env_recv });
    let mut params: Vec<IrParam> = Vec::new();
    params.push(IrParam { name: "__env".to_owned(), ty: IrType::I64, slot: env_recv });
    b.func.params = params;
    let ghost sig = b;
    let ghost c_env = b.func.code()[0];
    let env_val = match b.load_local("__env") {
        Some((v, _t)) => v,
        None => env_recv,
    };
    proof {
        assert(b.func.code()[0] == c_env.push(InstV::Load { dest: env_val, ptr: env_slot, ty: IrType::I64 }));
    }
    let mut call_args: Vec<Value> = Vec::new();
    let mut i: usize = 0;
    while i < param_tys.len()
        invariant
            b.wf(),
            LowerBuilder::same_signature(&sig, &b),
            i <= param_tys@.len(),
            call_args@.len() == i,
            b.func.code().len() == 1,
            b.func.current == 0,
            b.func.code()[0].len() == 3 + i,
            b.func.code()[0][0] == (InstV::Alloca { dest: env_slot, ty: IrType::I64 }),
            b.func.code()[0][1] == (InstV::Store { ptr: env_slot, src: env_recv }),
            b.func.code()[0][2] == (InstV::Load { dest: env_val, ptr: env_slot, ty: IrType::I64 }),
            forall|k: int| 0 <= k < i ==> b.func.code()[0][3 + k] == (InstV::GetField { dest: #[trigger] call_args@[k],
                obj: env_val, field: "__arg"@ + decimal_spec(k as nat), ty: param_tys@[k], offset: slot_offset_spec(k) }),
        decreases param_tys@.len() - i,
    {
        let ghost c0 = b.func.code()[0];
        let ghost old_args = call_args@;
        let dest = b.new_value();
        b.emit(Inst::GetField {
            dest,
            obj: env_val,
            field: with_number("__arg", i),
            ty: param_tys[i],
            offset: crate::builder::slot_offset(i),
        });
        call_args.push(dest);
        proof {
            assert forall|k: int| 0 <= k < i + 1 implies b.func.code()[0][3 + k] == (InstV::GetField { dest: #[trigger] call_args@[k],
                obj: env_val, field: "__arg"@ + decimal_spec(k as nat), ty: param_tys@[k], offset: slot_offset_spec(k) }) by {
                if k < i {
                    assert(b.func.code()[0][3 + k] == c0[3 + k]);
                    assert(call_args@[k] == old_args[k]);
                }
            }
        }
        i = i + 1;
    }
    let ghost cb = b.func.code()[0];
    let ghost args = call_args@;
    if ret_ty != IrType::Void {
        let result = b.new_value();
        b.emit(Inst::Call { dest: Some(result), func: original_name.to_owned(), args: call_args, ret_ty });
        let ghost j = b.func.code()[0].len() - 1;
        let ghost bc = b.func;
        let final_val = if ret_ty == IrType::I64 || ret_ty == IrType::Ptr {
            result
        } else {
            let boxed = b.new_value();
            match ret_ty {
                IrType::F64 => {
                    let mut args: Vec<Value> = Vec::new();
                    args.push(result);
                    b.emit(Inst::Call { dest: Some(boxed), func: "__box_float".to_owned(), args, ret_ty: IrType::Ptr });
                },
                IrType::Bool => {
                    let mut args: Vec<Value> = Vec::new();
                    args.push(result);
                    b.emit(Inst::Call { dest: Some(boxed), func: "__box_bool".to_owned(), args, ret_ty: IrType::Ptr });
                },
                _ => {
                    b.emit(Inst::ConstInt { dest: boxed, value: 0 });
                },
            }
            boxed
        };
        b.emit(Inst::Return { value: Some(final_val) });
        proof {
            let call = InstV::Call { dest: Some(result), func: original_name@, args, ret_ty };
            assert(bc.code()[0] == cb.push(call));
            if ret_ty == IrType::I64 || ret_ty == IrType::Ptr {
                assert(b.func.code()[0] == cb + seq![call, InstV::Return { value: Some(result) }]);
            } else {
                assert(b.func.code()[0].len() == cb.len() + 3);
                assert(b.func.code()[0][cb.len() as int] == call);
                assert(b.func.code()[0][cb.len() as int + 2] == (InstV::Return { value: Some(final_val) }));
            }
        }
    } else {
        b.emit(Inst::Call { dest: None, func: original_name.to_owned(), args: call_args, ret_ty: IrType::Void });
        let zero = b.new_value();
        b.emit(Inst::ConstInt { dest: zero, value: 0 });
        b.emit(Inst::Return { value: Some(zero) });
        assert(b.func.code()[0] == cb + seq![
            InstV::Call { dest: None, func: original_name@, args, ret_ty: IrType::Void },
            InstV::ConstInt { dest: zero, value: 0 },
            InstV::Return { value: Some(zero) },
        ]);
    }
    proof {
        let f = b.func;
        let n = param_tys@.len() as int;
        assert forall|i: int| 0 <= i < n implies f.code()[0][3 + i] == (InstV::GetField { dest: #[trigger] f.code()[0][3 + n]->Call_args[i],
            obj: f.code()[0][2]->Load_dest, field: "__arg"@ + decimal_spec(i as nat), ty: param_tys@[i], offset: slot_offset_spec(i) }) by {
            assert(f.code()[0][3 + i] == cb[3 + i]);
        }
    }
    module.add_function(b.func);
    proof {
        assert(module.functions@.drop_last() =~= old(module).functions@);
    }
}

} // verus!
